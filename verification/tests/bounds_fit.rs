use scene_viewer::bounds::accumulate;
use scene_viewer::fit::{center_and_fit, fit, FitOutcome, PanOrbitCamera};
use scene_viewer::scene::Scene;
use scene_viewer::transform::Transform;
use scene_viewer::vec3::{Aabb, V3};

fn unit_cube() -> Aabb {
    Aabb::new(V3::new(-500, -500, -500), V3::new(500, 500, 500))
}

#[test]
fn bounds_of_a_unit_cube_at_the_origin() {
    // a single entity at the origin with an axis-aligned unit cube volume
    // and the identity transform accumulates to min (-0.5,-0.5,-0.5) and
    // max (0.5,0.5,0.5)
    let mut scene = Scene::new();
    let e = scene.spawn(
        None,
        Transform::identity(),
        Some("cube".to_string()),
        Some(unit_cube()),
        None,
    );
    let roots = vec![e];
    let (mn, mx) = accumulate(&scene, &roots).expect("bounds expected");
    assert_eq!((mn.x, mn.y, mn.z), (-500, -500, -500));
    assert_eq!((mx.x, mx.y, mx.z), (500, 500, 500));
}

#[test]
fn bounds_follow_a_translated_child() {
    let mut scene = Scene::new();
    let mut t = Transform::identity();
    t.translation = V3::new(2000, 0, 0);
    let root = scene.spawn(None, Transform::identity(), None, None, None);
    let _child = scene.spawn(Some(root), t, Some("cube".to_string()), Some(unit_cube()), None);
    let roots = vec![root];
    let (mn, mx) = accumulate(&scene, &roots).expect("bounds expected");
    assert_eq!((mn.x, mx.x), (1500, 2500));
    assert_eq!((mn.y, mx.y), (-500, 500));
}

#[test]
fn entity_without_geometry_contributes_nothing() {
    let mut scene = Scene::new();
    let e = scene.spawn(None, Transform::identity(), None, None, None);
    let roots = vec![e];
    assert!(accumulate(&scene, &roots).is_none());
}

#[test]
fn degraded_mode_folds_the_world_origin() {
    // geometry without a bounding volume contributes its origin point
    let mut scene = Scene::new();
    let mut t = Transform::identity();
    t.translation = V3::new(700, -300, 100);
    let e = scene.spawn(None, t, Some("mesh".to_string()), None, None);
    let roots = vec![e];
    let (mn, mx) = accumulate(&scene, &roots).expect("bounds expected");
    assert_eq!((mn.x, mn.y, mn.z), (700, -300, 100));
    assert_eq!((mx.x, mx.y, mx.z), (700, -300, 100));
}

#[test]
fn fit_scale_law() {
    // bounds min (-1,-1,-1), max (3,3,3): extent 4 on every axis, so
    // scale = 0.5 and center = (1,1,1); a root at translation (1,1,1)
    // ends at the origin
    let mut scene = Scene::new();
    let mut t = Transform::identity();
    t.translation = V3::new(1000, 1000, 1000);
    let root = scene.spawn(None, t, None, None, None);
    let roots = vec![root];
    let mut camera = PanOrbitCamera::canonical();
    camera.target_radius = 9999;
    let bounds = Some((V3::new(-1000, -1000, -1000), V3::new(3000, 3000, 3000)));
    let outcome = fit(&mut scene, &roots, &mut camera, bounds);
    assert!(matches!(outcome, FitOutcome::Fitted));
    let fitted = scene.get_transform(root);
    assert_eq!((fitted.translation.x, fitted.translation.y, fitted.translation.z), (0, 0, 0));
    // the root's unit scale became 0.5
    assert_eq!((fitted.scale.x, fitted.scale.y, fitted.scale.z), (500, 500, 500));
    // the camera was reset to the canonical pose
    assert_eq!(camera.target_radius, 5000);
    assert_eq!(camera.target_pitch, 300);
    assert_eq!(camera.target_yaw, 0);
    assert_eq!((camera.target_focus.x, camera.target_focus.y, camera.target_focus.z), (0, 0, 0));
}

#[test]
fn degenerate_bounds_change_nothing() {
    // a point (min == max on every axis) has no positive extent: the
    // transforms and the camera stay untouched
    let mut scene = Scene::new();
    let mut t = Transform::identity();
    t.translation = V3::new(1234, 0, 0);
    let root = scene.spawn(None, t, None, None, None);
    let roots = vec![root];
    let mut camera = PanOrbitCamera::canonical();
    camera.target_radius = 7777;
    let bounds = Some((V3::new(900, 900, 900), V3::new(900, 900, 900)));
    let outcome = fit(&mut scene, &roots, &mut camera, bounds);
    assert!(matches!(outcome, FitOutcome::Degenerate));
    let kept = scene.get_transform(root);
    assert_eq!(kept.translation.x, 1234);
    assert_eq!(kept.scale.x, 1000);
    assert_eq!(camera.target_radius, 7777);
}

#[test]
fn missing_bounds_change_nothing() {
    let mut scene = Scene::new();
    let root = scene.spawn(None, Transform::identity(), None, None, None);
    let roots = vec![root];
    let mut camera = PanOrbitCamera::canonical();
    camera.target_yaw = 42;
    let outcome = center_and_fit(&mut scene, &roots, &mut camera);
    assert!(matches!(outcome, FitOutcome::NoBounds));
    assert_eq!(camera.target_yaw, 42);
}

#[test]
fn center_and_fit_normalizes_a_cube_model() {
    // a unit cube centered at (2,0,0): center moves to the origin and the
    // cube already fills the canonical volume after scaling by 2
    let mut scene = Scene::new();
    let mut t = Transform::identity();
    t.translation = V3::new(2000, 0, 0);
    let root = scene.spawn(None, t, Some("cube".to_string()), Some(unit_cube()), None);
    let roots = vec![root];
    let mut camera = PanOrbitCamera::canonical();
    let outcome = center_and_fit(&mut scene, &roots, &mut camera);
    assert!(matches!(outcome, FitOutcome::Fitted));
    let fitted = scene.get_transform(root);
    // extent 1 on every axis: scale = 2
    assert_eq!(fitted.scale.x, 2000);
    assert_eq!(fitted.translation.x, 0);
}

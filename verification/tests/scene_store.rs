use scene_viewer::anim::AnimationPlayer;
use scene_viewer::scene::Scene;
use scene_viewer::transform::Transform;
use scene_viewer::vec3::V3;

#[test]
fn spawn_issues_sequential_identifiers() {
    let mut scene = Scene::new();
    let a = scene.spawn(None, Transform::identity(), None, None, None);
    let b = scene.spawn(Some(a), Transform::identity(), None, None, None);
    assert_eq!(a, 0);
    assert_eq!(b, 1);
    assert!(scene.alive(a));
    assert!(scene.alive(b));
    assert_eq!(scene.len(), 2);
}

#[test]
fn despawn_recursive_destroys_the_whole_subtree() {
    let mut scene = Scene::new();
    let root = scene.spawn(None, Transform::identity(), None, None, None);
    let child = scene.spawn(Some(root), Transform::identity(), None, None, None);
    let grandchild = scene.spawn(Some(child), Transform::identity(), None, None, None);
    let other = scene.spawn(None, Transform::identity(), None, None, None);
    scene.despawn_recursive(root);
    assert!(!scene.alive(root));
    assert!(!scene.alive(child));
    assert!(!scene.alive(grandchild));
    assert!(scene.alive(other));
    // identifiers are never reused
    assert_eq!(scene.len(), 4);
    let fresh = scene.spawn(None, Transform::identity(), None, None, None);
    assert_eq!(fresh, 4);
}

#[test]
fn transforms_can_be_read_and_replaced() {
    let mut scene = Scene::new();
    let e = scene.spawn(None, Transform::identity(), None, None, None);
    let mut t = Transform::identity();
    t.translation = V3::new(10, 20, 30);
    scene.set_transform(e, t);
    scene.mark_transform_dirty(e);
    let got = scene.get_transform(e);
    assert_eq!((got.translation.x, got.translation.y, got.translation.z), (10, 20, 30));
}

#[test]
fn players_can_be_taken_and_restored() {
    let mut scene = Scene::new();
    let e = scene.spawn(None, Transform::identity(), None, None, Some(AnimationPlayer::new()));
    assert!(scene.has_player(e));
    let mut p = scene.take_player(e).expect("player expected");
    assert!(!scene.has_player(e));
    p.resume();
    scene.restore_player(e, p);
    assert!(scene.has_player(e));
}

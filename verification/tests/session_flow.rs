use scene_viewer::anim::Clip;
use scene_viewer::fit::FitOutcome;
use scene_viewer::import::{ImportResult, MeshData, Node, Prefab, Skin, TextureData};
use scene_viewer::scene::Scene;
use scene_viewer::session::{FbxError, FbxOutcome, ViewerSession};
use scene_viewer::transform::Transform;
use scene_viewer::vec3::{Aabb, V3};

fn cube_mesh() -> MeshData {
    MeshData {
        vertex_data: vec![1, 2, 3, 4],
        indices: vec![0, 1, 2],
        bounding: Some(Aabb::new(V3::new(-500, -500, -500), V3::new(500, 500, 500))),
    }
}

fn cube_import() -> ImportResult {
    ImportResult {
        textures: vec![(
            "base_color".to_string(),
            TextureData { rgba: vec![255, 0, 0, 255], width: 1, height: 1 },
        )],
        meshes: vec![("cube".to_string(), cube_mesh())],
        prefabs: vec![Prefab {
            name: "model".to_string(),
            nodes: vec![Node {
                parent: None,
                transform: Transform::identity(),
                mesh: Some("cube".to_string()),
            }],
        }],
        skins: vec![],
        animations: vec![],
    }
}

fn skinned_import() -> ImportResult {
    let mut import = cube_import();
    import.skins = vec![Skin { name: "rig".to_string(), joints: vec![0] }];
    import.animations = vec![Clip::new("Idle".to_string(), 1000)];
    import
}

fn clips_only_import() -> ImportResult {
    ImportResult {
        textures: vec![],
        meshes: vec![],
        prefabs: vec![],
        skins: vec![],
        animations: vec![
            Clip::new("Walk".to_string(), 2000),
            Clip::new("Run".to_string(), 1500),
        ],
    }
}

#[test]
fn import_invariant_checker() {
    assert!(cube_import().well_formed());
    let mut bad = cube_import();
    bad.meshes.push(("cube".to_string(), cube_mesh()));
    assert!(!bad.well_formed());
    let mut orphan = cube_import();
    orphan.prefabs[0].nodes.push(Node {
        parent: None,
        transform: Transform::identity(),
        mesh: None,
    });
    assert!(!orphan.well_formed());
}

#[test]
fn replace_model_spawns_one_root_per_prefab() {
    let mut scene = Scene::new();
    let mut session = ViewerSession::new();
    let import = cube_import();
    assert!(import.well_formed());
    let (outcome, missing) = session.replace_model(&mut scene, &import);
    assert!(matches!(outcome, FitOutcome::Fitted));
    assert!(missing.is_empty());
    assert!(session.loaded);
    assert_eq!(session.model_entities.len(), 1);
    assert!(scene.alive(session.model_entities[0]));
    // one texture command was queued and one mesh cached
    assert_eq!(session.texture_queue.len(), 1);
    assert_eq!(session.texture_queue[0].0, "base_color");
    assert_eq!(session.mesh_cache.entries.len(), 1);
    assert_eq!(session.mesh_cache.entries[0].0, "cube");
}

#[test]
fn replacement_destroys_the_previous_model() {
    let mut scene = Scene::new();
    let mut session = ViewerSession::new();
    session.replace_model(&mut scene, &cube_import());
    let old_roots = session.model_entities.clone();
    session.replace_model(&mut scene, &cube_import());
    // the number of live roots equals the prefab count of the last import
    assert_eq!(session.model_entities.len(), 1);
    for r in old_roots {
        assert!(!scene.alive(r));
    }
    assert!(scene.alive(session.model_entities[0]));
}

#[test]
fn recomposing_the_same_import_is_idempotent() {
    // composing the same import twice (with the intervening clear that
    // replacement performs) leaves the same number of live root entities
    // and the same mesh cache content
    let mut scene = Scene::new();
    let mut session = ViewerSession::new();
    session.replace_model(&mut scene, &cube_import());
    let roots_once = session.model_entities.len();
    let cache_once: Vec<(String, Vec<u8>)> = session
        .mesh_cache
        .entries
        .iter()
        .map(|e| (e.0.clone(), e.1.vertex_data.clone()))
        .collect();
    session.replace_model(&mut scene, &cube_import());
    assert_eq!(session.model_entities.len(), roots_once);
    let cache_twice: Vec<(String, Vec<u8>)> = session
        .mesh_cache
        .entries
        .iter()
        .map(|e| (e.0.clone(), e.1.vertex_data.clone()))
        .collect();
    assert_eq!(cache_once, cache_twice);
}

#[test]
fn unresolved_mesh_references_are_reported() {
    let mut import = cube_import();
    import.prefabs[0].nodes[0].mesh = Some("granite".to_string());
    assert!(import.well_formed());
    let mut scene = Scene::new();
    let mut session = ViewerSession::new();
    let (_, missing) = session.replace_model(&mut scene, &import);
    assert_eq!(missing, vec!["granite".to_string()]);
    // the prefab still spawned, without the missing geometry
    assert_eq!(session.model_entities.len(), 1);
}

#[test]
fn skinned_import_attaches_a_playing_player() {
    let mut scene = Scene::new();
    let mut session = ViewerSession::new();
    session.replace_model(&mut scene, &skinned_import());
    let root = session.model_entities[0];
    assert!(scene.has_player(root));
    let p = scene.take_player(root).expect("player expected");
    assert_eq!(p.clips.len(), 1);
    assert_eq!(p.current_clip, Some(0));
    assert!(p.playing);
}

#[test]
fn fbx_attach_requires_a_loaded_model() {
    // attaching clips to a session with no model entities fails and
    // leaves everything untouched
    let mut scene = Scene::new();
    let mut session = ViewerSession::new();
    let r = session.load_fbx(&mut scene, &clips_only_import());
    assert_eq!(r.unwrap_err(), FbxError::NoModelLoaded);
    assert!(!session.loaded);
    assert_eq!(session.model_entities.len(), 0);
    assert_eq!(scene.len(), 0);
}

#[test]
fn fbx_attach_requires_an_animation_player() {
    let mut scene = Scene::new();
    let mut session = ViewerSession::new();
    session.replace_model(&mut scene, &cube_import());
    let r = session.load_fbx(&mut scene, &clips_only_import());
    assert_eq!(r.unwrap_err(), FbxError::NoAnimationPlayer);
}

#[test]
fn fbx_without_content_is_rejected() {
    let mut scene = Scene::new();
    let mut session = ViewerSession::new();
    let empty = ImportResult::empty();
    let r = session.load_fbx(&mut scene, &empty);
    assert_eq!(r.unwrap_err(), FbxError::NoContent);
}

#[test]
fn fbx_clips_append_to_the_loaded_model() {
    let mut scene = Scene::new();
    let mut session = ViewerSession::new();
    session.replace_model(&mut scene, &skinned_import());
    let (outcome, _) = session.load_fbx(&mut scene, &clips_only_import()).unwrap();
    assert_eq!(outcome, FbxOutcome::ClipsAttached(2));
    let root = session.model_entities[0];
    let p = scene.take_player(root).expect("player expected");
    assert_eq!(p.clips.len(), 3);
    // the already selected clip stays selected
    assert_eq!(p.current_clip, Some(0));
    assert_eq!(p.clips[1].name, "Walk");
    assert_eq!(p.clips[2].name, "Run");
}

#[test]
fn fbx_with_meshes_replaces_the_model() {
    let mut scene = Scene::new();
    let mut session = ViewerSession::new();
    session.replace_model(&mut scene, &cube_import());
    let old_root = session.model_entities[0];
    session.camera.target_radius = 9999;
    let r = session.load_fbx(&mut scene, &cube_import()).unwrap();
    assert!(matches!(r.0, FbxOutcome::ModelReplaced(FitOutcome::Fitted)));
    // the previous model is destroyed and one root per prefab spawned
    assert!(!scene.alive(old_root));
    assert_eq!(session.model_entities.len(), 1);
    assert!(scene.alive(session.model_entities[0]));
    assert!(session.loaded);
    // the import's content reached the queue and the cache again, and
    // the successful fit reset the camera
    assert_eq!(session.texture_queue.len(), 2);
    assert_eq!(session.mesh_cache.entries.len(), 1);
    assert_eq!(session.camera.target_radius, 5000);
}

#[test]
fn clear_scene_unloads_everything() {
    let mut scene = Scene::new();
    let mut session = ViewerSession::new();
    session.replace_model(&mut scene, &cube_import());
    let root = session.model_entities[0];
    session.clear_scene(&mut scene);
    assert!(!session.loaded);
    assert_eq!(session.model_entities.len(), 0);
    assert!(!scene.alive(root));
}

#[test]
fn hover_tracking() {
    let mut session = ViewerSession::new();
    session.set_hovered("HDR");
    assert!(session.drag_file_kind.is_some());
    session.clear_hover();
    assert!(session.drag_file_kind.is_none());
}

use scene_viewer::assets::{build_asset_entry, sort_entries, AssetEntry, AssetLibrary, AssetType};
use scene_viewer::info::AssetInfo;
use scene_viewer::session::ViewerSession;

fn entry(name: &str, extension: &str, asset_type: AssetType) -> AssetEntry {
    AssetEntry {
        path: format!("assets/{}", name),
        name: name.to_string(),
        extension: extension.to_string(),
        asset_type,
        tags: vec![],
        categories: vec![],
    }
}

#[test]
fn extensions_classify_ignoring_case() {
    assert_eq!(AssetType::from_extension("gltf"), Some(AssetType::Model));
    assert_eq!(AssetType::from_extension("GLB"), Some(AssetType::Model));
    assert_eq!(AssetType::from_extension("Fbx"), Some(AssetType::Animation));
    assert_eq!(AssetType::from_extension("HDR"), Some(AssetType::Skybox));
    assert_eq!(AssetType::from_extension("png"), None);
    assert_eq!(AssetType::from_extension(""), None);
}

#[test]
fn kind_labels() {
    assert_eq!(AssetType::Model.name(), "Model");
    assert_eq!(AssetType::Animation.name(), "Animation");
    assert_eq!(AssetType::Skybox.name(), "Skybox");
}

#[test]
fn default_library_shows_everything() {
    let lib = AssetLibrary::default();
    assert!(lib.entries.is_empty());
    assert!(lib.show_glb && lib.show_gltf && lib.show_fbx && lib.show_hdr);
    assert!(lib.sort_ascending);
    assert!(!lib.show_window);
    assert_eq!(lib.selected_index, None);
}

#[test]
fn building_entries_from_scanned_paths() {
    let e = build_asset_entry("models/Rock.GLB".to_string(), None).expect("entry expected");
    assert_eq!(e.name, "Rock.glb");
    assert_eq!(e.extension, "glb");
    assert_eq!(e.asset_type, AssetType::Model);
    assert_eq!(e.path, "models/Rock.GLB");

    // a description supplies the display base name and the tag lists
    let info = AssetInfo {
        name: "Mossy Rock".to_string(),
        tags: vec!["stone".to_string()],
        categories: vec!["nature".to_string()],
    };
    let e2 = build_asset_entry("models/rock_04.glb".to_string(), Some(info)).unwrap();
    assert_eq!(e2.name, "Mossy Rock.glb");
    assert_eq!(e2.tags, vec!["stone".to_string()]);
    assert_eq!(e2.categories, vec!["nature".to_string()]);

    // unrecognized or missing extensions yield nothing
    assert!(build_asset_entry("notes.txt".to_string(), None).is_none());
    assert!(build_asset_entry("README".to_string(), None).is_none());
}

#[test]
fn search_matches_names_tags_and_categories_ignoring_case() {
    let mut lib = AssetLibrary::default();
    lib.search_query = "ROCK".to_string();
    let mut hit = entry("mossy_rock.glb", "glb", AssetType::Model);
    let miss = entry("tree.glb", "glb", AssetType::Model);
    assert!(lib.entry_visible(&hit));
    assert!(!lib.entry_visible(&miss));
    // tags match too
    hit.name = "boulder.glb".to_string();
    assert!(!lib.entry_visible(&hit));
    hit.tags = vec!["Rocky".to_string()];
    assert!(lib.entry_visible(&hit));
    hit.tags = vec![];
    hit.categories = vec!["rocks".to_string()];
    assert!(lib.entry_visible(&hit));
}

#[test]
fn extension_boxes_and_kind_filter() {
    let mut lib = AssetLibrary::default();
    let glb = entry("a.glb", "glb", AssetType::Model);
    let hdr = entry("b.hdr", "hdr", AssetType::Skybox);
    assert!(lib.entry_visible(&glb));
    lib.show_glb = false;
    assert!(!lib.entry_visible(&glb));
    assert!(lib.entry_visible(&hdr));
    lib.show_glb = true;
    lib.filter_type = Some(AssetType::Skybox);
    assert!(!lib.entry_visible(&glb));
    assert!(lib.entry_visible(&hdr));
}

#[test]
fn sorting_orders_by_folded_name() {
    let mut entries = vec![
        entry("Zebra.glb", "glb", AssetType::Model),
        entry("apple.hdr", "hdr", AssetType::Skybox),
        entry("Mango.fbx", "fbx", AssetType::Animation),
    ];
    sort_entries(&mut entries, true);
    let names: Vec<&str> = entries.iter().map(|e| e.name.as_str()).collect();
    assert_eq!(names, vec!["apple.hdr", "Mango.fbx", "Zebra.glb"]);
    sort_entries(&mut entries, false);
    let names: Vec<&str> = entries.iter().map(|e| e.name.as_str()).collect();
    assert_eq!(names, vec!["Zebra.glb", "Mango.fbx", "apple.hdr"]);
}

#[test]
fn arrow_keys_cycle_through_the_library() {
    let mut session = ViewerSession::new();
    session.asset_library.entries = vec![
        entry("a.glb", "glb", AssetType::Model),
        entry("b.hdr", "hdr", AssetType::Skybox),
    ];
    // an empty press pair does nothing
    assert!(session.asset_cycle(false, false).is_none());
    // a fresh down press selects the first entry
    let picked = session.asset_cycle(false, true).expect("selection expected");
    assert_eq!(session.asset_library.selected_index, Some(0));
    assert_eq!(picked.0, "assets/a.glb");
    assert_eq!(picked.1, AssetType::Model);
    // holding down does not move
    assert!(session.asset_cycle(false, true).is_none());
    // release, then down again wraps forward
    session.asset_cycle(false, false);
    session.asset_cycle(false, true);
    assert_eq!(session.asset_library.selected_index, Some(1));
    session.asset_cycle(false, false);
    session.asset_cycle(false, true);
    assert_eq!(session.asset_library.selected_index, Some(0));
    // a fresh up press wraps backward
    session.asset_cycle(false, false);
    let up = session.asset_cycle(true, false).expect("selection expected");
    assert_eq!(session.asset_library.selected_index, Some(1));
    assert_eq!(up.1, AssetType::Skybox);
}

#[test]
fn cycling_an_empty_library_does_nothing() {
    let mut session = ViewerSession::new();
    assert!(session.asset_cycle(true, true).is_none());
    assert_eq!(session.asset_library.selected_index, None);
}

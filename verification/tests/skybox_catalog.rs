use scene_viewer::catalog::Atmosphere;
use scene_viewer::session::{EnvSource, ViewerSession};

#[test]
fn loading_the_same_path_twice_appends_one_entry() {
    // loading "a.hdr" twice in a row appends exactly one catalog entry,
    // and both loads select the same index
    let mut session = ViewerSession::new();
    let first = session.load_skybox_path("a.hdr".to_string());
    let second = session.load_skybox_path("a.hdr".to_string());
    assert_eq!(session.skyboxes.entries.len(), 1);
    assert_eq!(first, second);
    assert_eq!(session.skyboxes.selected, Some(first));
    assert_eq!(session.atmosphere, Atmosphere::Hdr);
}

#[test]
fn skybox_names_come_from_the_file_stem() {
    let mut session = ViewerSession::new();
    session.load_skybox_path("skies/moonrise.hdr".to_string());
    assert_eq!(session.skyboxes.entries[0].name, "moonrise");
    assert_eq!(session.skyboxes.entries[0].path, "skies/moonrise.hdr");
    assert!(matches!(session.active_env, EnvSource::Path(ref p) if p == "skies/moonrise.hdr"));
}

#[test]
fn distinct_paths_append_distinct_entries() {
    let mut session = ViewerSession::new();
    let a = session.load_skybox_path("a.hdr".to_string());
    let b = session.load_skybox_path("b.hdr".to_string());
    assert_eq!(session.skyboxes.entries.len(), 2);
    assert_ne!(a, b);
    assert_eq!(session.skyboxes.selected, Some(b));
}

#[test]
fn byte_sourced_skyboxes_deduplicate_by_name() {
    let mut session = ViewerSession::new();
    let first = session.load_skybox_bytes("studio.hdr".to_string());
    let second = session.load_skybox_bytes("studio.hdr".to_string());
    assert_eq!(session.skyboxes.entries.len(), 1);
    assert_eq!(first, second);
    assert_eq!(session.skyboxes.entries[0].name, "studio");
    assert_eq!(session.skyboxes.entries[0].path, "");
    assert!(matches!(session.active_env, EnvSource::Bytes(ref n) if n == "studio"));
}

#[test]
fn empty_name_falls_back_to_a_label() {
    let mut session = ViewerSession::new();
    session.load_skybox_bytes(String::new());
    assert_eq!(session.skyboxes.entries[0].name, "Custom HDR");
}

#[test]
fn reselecting_a_catalog_entry() {
    let mut session = ViewerSession::new();
    session.load_skybox_path("a.hdr".to_string());
    session.load_skybox_path("b.hdr".to_string());
    session.select_catalog_skybox(0);
    assert_eq!(session.skyboxes.selected, Some(0));
    assert!(matches!(session.active_env, EnvSource::Path(ref p) if p == "a.hdr"));
}

#[test]
fn default_selection_clears_the_catalog_choice() {
    let mut session = ViewerSession::new();
    session.load_skybox_path("a.hdr".to_string());
    session.select_default_skybox();
    assert_eq!(session.skyboxes.selected, None);
    assert!(matches!(session.active_env, EnvSource::BuiltIn));
    assert_eq!(session.atmosphere, Atmosphere::Hdr);
    // entries stay: the catalog is append-only
    assert_eq!(session.skyboxes.entries.len(), 1);
}

#[test]
fn procedural_selection_requests_a_capture() {
    let mut session = ViewerSession::new();
    let capture = session.select_procedural(Atmosphere::Night);
    assert!(capture);
    assert_eq!(session.atmosphere, Atmosphere::Night);
    assert_eq!(session.skyboxes.selected, None);
    // selecting the same sky again needs no new capture
    let again = session.select_procedural(Atmosphere::Night);
    assert!(!again);
}

#[test]
fn atmosphere_cycle_wraps_both_ways() {
    let mut a = Atmosphere::Hdr;
    for _ in 0..5 {
        a = a.next();
    }
    assert_eq!(a, Atmosphere::Hdr);
    for _ in 0..5 {
        a = a.previous();
    }
    assert_eq!(a, Atmosphere::Hdr);
    assert_eq!(Atmosphere::Hdr.next(), Atmosphere::Dawn);
    assert_eq!(Atmosphere::Dawn.previous(), Atmosphere::Hdr);
    assert!(!Atmosphere::Hdr.is_procedural());
    assert!(Atmosphere::Day.is_procedural());
}

#[test]
fn arrow_keys_step_the_atmosphere_on_fresh_presses() {
    let mut session = ViewerSession::new();
    session.load_skybox_path("a.hdr".to_string());
    // a fresh right press steps forward and drops the catalog selection
    let capture = session.atmosphere_switch(true, false);
    assert_eq!(session.atmosphere, Atmosphere::Dawn);
    assert_eq!(session.skyboxes.selected, None);
    assert!(capture);
    // holding the key does not step again
    let capture2 = session.atmosphere_switch(true, false);
    assert_eq!(session.atmosphere, Atmosphere::Dawn);
    assert!(!capture2);
    // releasing and pressing left steps back
    session.atmosphere_switch(false, false);
    session.atmosphere_switch(false, true);
    assert_eq!(session.atmosphere, Atmosphere::Hdr);
}

use scene_viewer::session::{classify_extension, drop_indicator_message, HoverKind};
use scene_viewer::text::{
    contains_lower, ends_with_lower, eq_lower, lower_string, lt_lower, path_extension_lower,
    path_file_stem,
};

#[test]
fn case_folding() {
    assert_eq!(lower_string("MoonRise.HDR"), "moonrise.hdr");
    assert_eq!(lower_string("already"), "already");
    assert_eq!(lower_string(""), "");
}

#[test]
fn case_insensitive_equality() {
    assert!(eq_lower("GLTF", "gltf"));
    assert!(eq_lower("gltf", "gltf"));
    assert!(!eq_lower("gltf2", "gltf"));
    assert!(!eq_lower("glt", "gltf"));
}

#[test]
fn case_insensitive_suffix() {
    assert!(ends_with_lower("scene.HDR", ".hdr"));
    assert!(ends_with_lower("model.glb", ".glb"));
    assert!(!ends_with_lower("model.glb", ".gltf"));
    assert!(!ends_with_lower("b", ".hdr"));
}

#[test]
fn case_insensitive_containment() {
    assert!(contains_lower("Mossy Rock", "rock"));
    assert!(contains_lower("Mossy Rock", ""));
    assert!(!contains_lower("Mossy Rock", "tree"));
    assert!(!contains_lower("ab", "abc"));
}

#[test]
fn folded_ordering() {
    assert!(lt_lower("apple", "Banana"));
    assert!(!lt_lower("Banana", "apple"));
    assert!(!lt_lower("same", "SAME"));
    assert!(lt_lower("ab", "abc"));
}

#[test]
fn file_stems() {
    assert_eq!(path_file_stem("skies/moonrise.hdr"), "moonrise");
    assert_eq!(path_file_stem("moonrise.hdr"), "moonrise");
    assert_eq!(path_file_stem("dir\\nested\\model.glb"), "model");
    assert_eq!(path_file_stem("archive.tar.gz"), "archive.tar");
    assert_eq!(path_file_stem("no_extension"), "no_extension");
    assert_eq!(path_file_stem(".hidden"), ".hidden");
    assert_eq!(path_file_stem(""), "");
}

#[test]
fn file_extensions() {
    assert_eq!(path_extension_lower("model.GLB").as_deref(), Some("glb"));
    assert_eq!(path_extension_lower("a/b/c.gltf").as_deref(), Some("gltf"));
    assert_eq!(path_extension_lower("archive.tar.gz").as_deref(), Some("gz"));
    assert_eq!(path_extension_lower("no_extension"), None);
    assert_eq!(path_extension_lower(".hidden"), None);
}

#[test]
fn hover_classification() {
    assert_eq!(classify_extension("hdr"), HoverKind::Hdr);
    assert_eq!(classify_extension("HDR"), HoverKind::Hdr);
    assert_eq!(classify_extension("gltf"), HoverKind::Gltf);
    assert_eq!(classify_extension("glb"), HoverKind::Gltf);
    assert_eq!(classify_extension("fbx"), HoverKind::Fbx);
    assert_eq!(classify_extension("txt"), HoverKind::Unsupported);
}

#[test]
fn drop_indicator_headings() {
    assert_eq!(drop_indicator_message(HoverKind::Hdr), "Drop HDR file to use as skybox");
    assert_eq!(drop_indicator_message(HoverKind::Gltf), "Drop glTF/GLB file to load model");
    assert_eq!(drop_indicator_message(HoverKind::Fbx), "Drop FBX file to add animations");
    assert_eq!(drop_indicator_message(HoverKind::Unsupported), "Unsupported file type");
}

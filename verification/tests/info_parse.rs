use scene_viewer::info::parse_asset_info;

#[test]
fn full_description_parses() {
    let content = r#"{
        "name": "Mossy Rock",
        "tags": ["stone", "moss", "outdoor"],
        "categories": ["nature"]
    }"#;
    let info = parse_asset_info(content).expect("description expected");
    assert_eq!(info.name, "Mossy Rock");
    assert_eq!(info.tags, vec!["stone", "moss", "outdoor"]);
    assert_eq!(info.categories, vec!["nature"]);
}

#[test]
fn name_alone_is_enough() {
    let info = parse_asset_info(r#"{"name": "Plain"}"#).expect("description expected");
    assert_eq!(info.name, "Plain");
    assert!(info.tags.is_empty());
    assert!(info.categories.is_empty());
}

#[test]
fn missing_name_yields_nothing() {
    assert!(parse_asset_info(r#"{"tags": ["a"]}"#).is_none());
}

#[test]
fn non_string_name_yields_nothing() {
    assert!(parse_asset_info(r#"{"name": 7}"#).is_none());
}

#[test]
fn non_object_document_yields_nothing() {
    assert!(parse_asset_info("[1, 2, 3]").is_none());
    assert!(parse_asset_info("\"just a string\"").is_none());
}

#[test]
fn malformed_text_yields_nothing() {
    assert!(parse_asset_info("{not json").is_none());
    assert!(parse_asset_info("").is_none());
}

#[test]
fn non_array_tags_default_to_empty() {
    let info = parse_asset_info(r#"{"name": "X", "tags": "oops"}"#).unwrap();
    assert!(info.tags.is_empty());
}

#[test]
fn non_string_elements_are_skipped() {
    let info = parse_asset_info(r#"{"name": "X", "tags": ["ok", 3, null, "fine"]}"#).unwrap();
    assert_eq!(info.tags, vec!["ok", "fine"]);
}

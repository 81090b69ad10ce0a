use cctray_proxy::json::{
    has_value_by_one_key, has_value_by_three_keys, has_value_by_two_keys, string_value_by_two_keys, Json,
    JsonNumber,
};

fn document() -> Json {
    Json::parse(
        r#"{
            "state": {"name": "COMPLETED", "result": {"name": "FAILED"}},
            "build_number": 7,
            "offset": -3,
            "ratio": 0.5,
            "tags": ["a", "b"],
            "flag": true,
            "nothing": null,
            "label": "plain"
        }"#,
    )
    .unwrap()
}

#[test]
fn parse_reads_every_kind_of_value() {
    let doc = document();
    assert!(matches!(doc.get("flag"), Some(Json::Bool(true))));
    assert!(matches!(doc.get("nothing"), Some(Json::Null)));
    assert!(matches!(doc.get("build_number"), Some(Json::Number(JsonNumber::Unsigned(7)))));
    assert!(matches!(doc.get("offset"), Some(Json::Number(JsonNumber::Negative(-3)))));
    assert!(matches!(doc.get("ratio"), Some(Json::Number(JsonNumber::Fractional(_)))));
    match doc.get("tags") {
        Some(Json::Array(items)) => assert_eq!(items.len(), 2),
        _ => panic!("tags should be an array"),
    }
    assert_eq!(doc.get("label").and_then(|v| v.as_str()), Some("plain"));
}

#[test]
fn parse_refuses_malformed_text() {
    assert!(Json::parse("{\"values\": [").is_none());
    assert!(Json::parse("not json").is_none());
}

#[test]
fn get_finds_members_of_objects_only() {
    let doc = document();
    assert!(doc.get("missing").is_none());
    assert!(Json::Str(String::from("state")).get("state").is_none());
    assert!(Json::Null.get("state").is_none());
}

#[test]
fn index_gives_null_for_a_missing_member() {
    let doc = document();
    assert!(matches!(doc.index("missing"), Json::Null));
    assert!(matches!(doc.index("state").index("name"), Json::Str(_)));
}

#[test]
fn as_u64_reads_unsigned_numbers_only() {
    let doc = document();
    assert_eq!(doc.index("build_number").as_u64(), Some(7));
    assert_eq!(doc.index("offset").as_u64(), None);
    assert_eq!(doc.index("ratio").as_u64(), None);
    assert_eq!(doc.index("label").as_u64(), None);
}

#[test]
fn has_value_by_one_key_compares_the_member() {
    let doc = document();
    assert!(has_value_by_one_key(&doc, "label", "plain"));
    assert!(!has_value_by_one_key(&doc, "label", "other"));
    assert!(!has_value_by_one_key(&doc, "build_number", "7"));
    assert!(!has_value_by_one_key(&doc, "missing", "plain"));
}

#[test]
fn has_value_by_two_keys_follows_the_path() {
    let doc = document();
    assert!(has_value_by_two_keys(&doc, "state", "name", "COMPLETED"));
    assert!(!has_value_by_two_keys(&doc, "state", "name", "IN_PROGRESS"));
    assert!(!has_value_by_two_keys(&doc, "state", "result", "FAILED"));
    assert!(!has_value_by_two_keys(&doc, "label", "name", "plain"));
}

#[test]
fn has_value_by_three_keys_follows_the_path() {
    let doc = document();
    assert!(has_value_by_three_keys(&doc, "state", "result", "name", "FAILED"));
    assert!(!has_value_by_three_keys(&doc, "state", "result", "name", "SUCCESSFUL"));
    assert!(!has_value_by_three_keys(&doc, "state", "missing", "name", "FAILED"));
}

#[test]
fn string_value_by_two_keys_defaults_to_unknown() {
    let doc = document();
    assert_eq!(string_value_by_two_keys(&doc, "state", "name"), "COMPLETED");
    assert_eq!(string_value_by_two_keys(&doc, "state", "result"), "unknown");
    assert_eq!(string_value_by_two_keys(&doc, "missing", "name"), "unknown");
}

#[test]
fn has_value_agrees_with_string_value() {
    let doc = document();
    for expected in ["COMPLETED", "IN_PROGRESS", "FAILED"] {
        assert_eq!(
            has_value_by_two_keys(&doc, "state", "name", expected),
            string_value_by_two_keys(&doc, "state", "name") == expected
        );
    }
}

#[test]
fn into_member_and_into_array_take_values_out() {
    let values = document().into_member("tags").unwrap().into_array().unwrap();
    assert_eq!(values.len(), 2);
    assert_eq!(values[1].as_str(), Some("b"));
    assert!(document().into_member("missing").is_none());
    assert!(document().into_member("label").unwrap().into_array().is_none());
}

use s3_downloader::cli::{bucket_names_from, versions_from_document};
use s3_downloader::json::JsonValue;

fn text(s: &str) -> JsonValue {
    JsonValue::Str(s.to_string())
}

fn entry(key: &str, id: &str, latest: bool, modified: &str, size: Option<u64>) -> JsonValue {
    JsonValue::Object(vec![
        ("Key".to_string(), text(key)),
        ("VersionId".to_string(), text(id)),
        ("IsLatest".to_string(), JsonValue::Bool(latest)),
        ("LastModified".to_string(), text(modified)),
        ("Size".to_string(), JsonValue::Number(size)),
    ])
}

#[test]
fn reads_members_of_objects_only() {
    let value = JsonValue::Object(vec![
        ("a".to_string(), JsonValue::Bool(true)),
        ("b".to_string(), JsonValue::Null),
    ]);
    assert_eq!(value.get("a").and_then(|v| v.as_bool()), Some(true));
    assert!(value.get("c").is_none());
    assert!(JsonValue::Array(Vec::new()).get("a").is_none());
    assert_eq!(JsonValue::Number(Some(4)).as_u64(), Some(4));
    assert_eq!(JsonValue::Number(None).as_u64(), None);
    assert!(text("x").as_array().is_none());
    assert_eq!(text("x").as_str().map(|s| s.as_str()), Some("x"));
}

#[test]
fn interprets_a_decoded_listing() {
    let document = JsonValue::Object(vec![(
        "Versions".to_string(),
        JsonValue::Array(vec![
            entry("k", "old", false, "2026-01-01", Some(1)),
            entry("other", "x", true, "2026-05-01", Some(2)),
            entry("k", "new", false, "2026-02-01", Some(3)),
            entry("k", "cur", true, "2025-12-01", Some(4)),
        ]),
    )]);
    let versions = versions_from_document(Ok(document), "k").unwrap();
    let ids: Vec<&str> = versions.iter().map(|v| v.version_id.as_str()).collect();
    assert_eq!(ids, vec!["cur", "new", "old"]);

    let error = versions_from_document(Err("expected value at line 1 column 1".to_string()), "k")
        .unwrap_err();
    assert_eq!(
        error,
        "AWS CLI returned invalid object version JSON: expected value at line 1 column 1"
    );

    let negative_size = JsonValue::Object(vec![(
        "Versions".to_string(),
        JsonValue::Array(vec![entry("k", "v", true, "t", None)]),
    )]);
    assert_eq!(
        versions_from_document(Ok(negative_size), "k").unwrap_err(),
        "AWS CLI returned an object version without a valid Size."
    );
}

#[test]
fn interprets_a_decoded_bucket_list() {
    assert_eq!(
        bucket_names_from(Ok(vec!["b".to_string(), "a".to_string(), "b".to_string()])).unwrap(),
        vec!["a", "b"]
    );
    assert_eq!(
        bucket_names_from(Err("EOF".to_string())).unwrap_err(),
        "AWS CLI returned invalid bucket JSON: EOF"
    );
}

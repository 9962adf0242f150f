use pixtimize::domain::cache_entry::CacheEntry;

/// Reads a Redis value as JSON cache metadata, the way the service's JSON
/// reader does: an object with a string `s3_key` and optional `size` and
/// `content_type`.
fn decode(raw: &str) -> Option<CacheEntry> {
    let value: serde_json::Value = serde_json::from_str(raw).ok()?;
    let object = value.as_object()?;
    let s3_key = object.get("s3_key")?.as_str()?.to_owned();
    let size = match object.get("size") {
        None | Some(serde_json::Value::Null) => None,
        Some(v) => Some(v.as_u64()?),
    };
    let content_type = match object.get("content_type") {
        None | Some(serde_json::Value::Null) => None,
        Some(v) => Some(v.as_str()?.to_owned()),
    };
    Some(CacheEntry { s3_key, size, content_type })
}

fn parse(raw: &str) -> CacheEntry {
    CacheEntry::parse(raw, decode(raw))
}

#[test]
fn cache_parse_should_read_json_entry() {
    let entry = parse(r#"{"s3_key":"cached/abc","size":1234,"content_type":"image/webp"}"#);
    assert_eq!(entry.s3_key, "cached/abc");
    assert_eq!(entry.size, Some(1234));
    assert_eq!(entry.content_type.as_deref(), Some("image/webp"));
}

#[test]
fn cache_parse_should_accept_legacy_plain_s3_key() {
    let entry = parse("cached/abc");
    assert_eq!(entry.s3_key, "cached/abc");
    assert_eq!(entry.size, None);
    assert_eq!(entry.content_type, None);
}

#[test]
fn cache_new_should_populate_all_fields() {
    let entry = CacheEntry::new("cached/abc", 42, "image/jpeg");
    assert_eq!(entry.s3_key, "cached/abc");
    assert_eq!(entry.size, Some(42));
    assert_eq!(entry.content_type.as_deref(), Some("image/jpeg"));
}

#[test]
fn cache_entry_parse_should_read_json_entry() {
    let entry = parse(r#"{"s3_key":"cached/abc","size":1234,"content_type":"image/webp"}"#);
    assert_eq!(entry.s3_key, "cached/abc");
    assert_eq!(entry.size, Some(1234));
    assert_eq!(entry.content_type.as_deref(), Some("image/webp"));
}

#[test]
fn cache_entry_parse_should_accept_legacy_plain_s3_key() {
    let entry = parse("cached/abc");
    assert_eq!(entry.s3_key, "cached/abc");
    assert_eq!(entry.size, None);
    assert_eq!(entry.content_type, None);
}

#[test]
fn cache_entry_new_should_populate_all_fields() {
    let entry = CacheEntry::new("cached/abc", 42, "image/jpeg");
    assert_eq!(entry.s3_key, "cached/abc");
    assert_eq!(entry.size, Some(42));
    assert_eq!(entry.content_type.as_deref(), Some("image/jpeg"));
}

#[test]
fn parse_should_treat_empty_json_key_as_legacy_marker() {
    let raw = r#"{"s3_key":""}"#;
    let entry = parse(raw);
    assert_eq!(entry.s3_key, raw);
    assert_eq!(entry.size, None);
}

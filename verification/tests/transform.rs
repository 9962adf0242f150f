use pixtimize::config::{Config, S3Config};
use pixtimize::domain::dimension::Dimension;
use pixtimize::domain::transform::{OutputFormat, ParsedRequest};

fn test_config() -> Config {
    Config {
        port: 3000,
        s3: S3Config {
            endpoint: String::new(),
            region: String::new(),
            access_key: String::new(),
            secret_key: String::new(),
            bucket: String::new(),
        },
        redis_url: String::new(),
        default_quality: 80,
        default_format: "webp".to_owned(),
        cache_delete_cron: String::new(),
        cached_time: 604_800,
    }
}

fn value(dimension: &Option<Dimension>) -> Option<f64> {
    dimension
        .as_ref()
        .map(|d| d.to_text().parse::<f64>().expect("dimension text is a number"))
}

#[test]
fn parse_should_read_query_transforms() {
    let parsed = ParsedRequest::parse("/folder/image.png", Some("w-606,h-450,f-jpeg"), &test_config())
        .expect("valid transform");
    assert_eq!(parsed.image_path, "folder/image.png");
    assert_eq!(value(&parsed.transformations.width), Some(606.0));
    assert_eq!(value(&parsed.transformations.height), Some(450.0));
    assert_eq!(parsed.transformations.format, OutputFormat::Jpeg);
}

#[test]
fn parse_should_read_path_transforms() {
    let parsed = ParsedRequest::parse("/tr:w-300,h-300/folder/image.png", None, &test_config())
        .expect("valid transform");
    assert_eq!(parsed.image_path, "folder/image.png");
    assert_eq!(value(&parsed.transformations.width), Some(300.0));
}

#[test]
fn parse_should_default_quality_and_format() {
    let parsed = ParsedRequest::parse("/image.png", None, &test_config()).expect("valid transform");
    assert_eq!(parsed.transformations.quality, 80);
    assert_eq!(parsed.transformations.format, OutputFormat::WebP);
    assert_eq!(value(&parsed.transformations.width), None);
}

#[test]
fn parse_should_accept_fractional_dimension() {
    let parsed = ParsedRequest::parse("/image.png", Some("w-0.5"), &test_config()).expect("valid");
    assert_eq!(value(&parsed.transformations.width), Some(0.5));
}

#[test]
fn parse_should_let_query_override_path() {
    let parsed = ParsedRequest::parse("/tr:w-100/image.png", Some("w-200"), &test_config()).expect("valid");
    assert_eq!(value(&parsed.transformations.width), Some(200.0));
}

#[test]
fn parse_should_reject_invalid_pair() {
    let result = ParsedRequest::parse("/image.png", Some("w-abc"), &test_config());
    assert!(result.is_err());
}

#[test]
fn cache_key_should_be_deterministic() {
    let a = ParsedRequest::parse("/image.png", Some("w-100,f-png"), &test_config()).unwrap();
    let b = ParsedRequest::parse("/image.png", Some("w-100,f-png"), &test_config()).unwrap();
    assert_eq!(a.cache_path_key(), b.cache_path_key());
    assert!(a.cache_path_key().starts_with("cached/"));
}

#[test]
fn cache_key_should_differ_for_different_transforms() {
    let a = ParsedRequest::parse("/image.png", Some("w-100"), &test_config()).unwrap();
    let b = ParsedRequest::parse("/image.png", Some("w-200"), &test_config()).unwrap();
    assert_ne!(a.cache_path_key(), b.cache_path_key());
}

#[test]
fn parse_should_ignore_dimensions_above_imagekit_max() {
    let parsed =
        ParsedRequest::parse("/image.png", Some("w-65536,h-100,f-jpeg"), &test_config()).expect("valid");
    assert_eq!(value(&parsed.transformations.width), None);
    assert_eq!(value(&parsed.transformations.height), Some(100.0));
}

#[test]
fn parse_should_accept_dimension_at_imagekit_max() {
    let parsed = ParsedRequest::parse("/image.png", Some("w-65535,f-jpeg"), &test_config()).expect("valid");
    assert_eq!(value(&parsed.transformations.width), Some(65_535.0));
}

#[test]
fn parse_should_reject_webp_dimensions_above_imagekit_max() {
    let result = ParsedRequest::parse("/image.png", Some("w-16384,f-webp"), &test_config());
    assert!(result.is_err());
}

#[test]
fn parse_should_accept_webp_dimension_at_imagekit_max() {
    let parsed = ParsedRequest::parse("/image.png", Some("w-16383,f-webp"), &test_config()).expect("valid");
    assert_eq!(value(&parsed.transformations.width), Some(16_383.0));
}

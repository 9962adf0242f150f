use pixtimize::config::{Config, S3Config};
use pixtimize::domain::transform::{OutputFormat, ParsedRequest};
use pixtimize::error::AppError;

fn config(default_format: &str) -> Config {
    Config {
        port: 3000,
        s3: S3Config {
            endpoint: String::new(),
            region: String::new(),
            access_key: String::new(),
            secret_key: String::new(),
            bucket: String::new(),
        },
        redis_url: String::new(),
        default_quality: 80,
        default_format: default_format.to_owned(),
        cache_delete_cron: String::new(),
        cached_time: 604_800,
    }
}

fn message(result: Result<ParsedRequest, AppError>) -> String {
    match result {
        Err(AppError::InvalidTransform(m)) => m,
        _ => panic!("expected an invalid transform"),
    }
}

#[test]
fn output_format_should_parse_names_in_any_case() {
    assert_eq!(OutputFormat::parse("JPG"), Some(OutputFormat::Jpeg));
    assert_eq!(OutputFormat::parse("Jpeg"), Some(OutputFormat::Jpeg));
    assert_eq!(OutputFormat::parse("png"), Some(OutputFormat::Png));
    assert_eq!(OutputFormat::parse("WebP"), Some(OutputFormat::WebP));
    assert_eq!(OutputFormat::parse("gif"), None);
    assert_eq!(OutputFormat::parse("jpeg "), None);
}

#[test]
fn output_format_content_types_and_names_round_trip() {
    for format in [OutputFormat::Jpeg, OutputFormat::Png, OutputFormat::WebP] {
        let name: String = format.name().into_iter().collect();
        assert_eq!(OutputFormat::parse(&name), Some(format));
    }
    assert_eq!(OutputFormat::Jpeg.content_type(), "image/jpeg");
    assert_eq!(OutputFormat::Png.content_type(), "image/png");
    assert_eq!(OutputFormat::WebP.content_type(), "image/webp");
}

#[test]
fn cache_key_should_hash_path_and_canonical_transforms() {
    let parsed = ParsedRequest::parse("/image.png", Some("w-100,f-png"), &config("webp")).unwrap();
    assert_eq!(
        parsed.cache_path_key(),
        "cached/01798ec77895672d520702354513e1ef23bae15fab97ad22b54a32c5155adc3c"
    );
    let parsed =
        ParsedRequest::parse("/folder/image.png", Some("w-606,h-450,f-jpeg"), &config("webp")).unwrap();
    assert_eq!(
        parsed.cache_path_key(),
        "cached/335468d1ae5776c8d9b4570837d4a0d2363fbb6f964e33e354613c50562158a1"
    );
    let parsed = ParsedRequest::parse("/image.png", None, &config("webp")).unwrap();
    assert_eq!(
        parsed.cache_path_key(),
        "cached/0bb0c40720bdb5ad116a91841ad7fa142537094b29f41d7e0a6f69abad7534f1"
    );
    let parsed = ParsedRequest::parse("/image.png", Some("w-0.0000001"), &config("webp")).unwrap();
    assert_eq!(
        parsed.cache_path_key(),
        "cached/dbfc8b21da09ca6b42c5686e83170d56a556fa15636ae44fe42864d611a62215"
    );
    let parsed = ParsedRequest::parse("/image.png", Some("w-1.5e-7"), &config("webp")).unwrap();
    assert_eq!(
        parsed.cache_path_key(),
        "cached/a3df44f5f3360fdbe7da381475b285ae2f1db3d723b48db90d7502290ee09c00"
    );
    let parsed = ParsedRequest::parse("/image.png", Some("w-0.00001"), &config("webp")).unwrap();
    assert_eq!(
        parsed.cache_path_key(),
        "cached/a8b629e1bb6499643af4fefaa3fb747c0607f7b4a32bd389eff570482820ed0f"
    );
    let parsed = ParsedRequest::parse("/image.png", Some("w-65535.0000000000001,f-jpeg"), &config("webp")).unwrap();
    assert_eq!(
        parsed.cache_path_key(),
        "cached/32ce7dd693343d166dc8faa9c72d65e1fc0d9775b695bf1cb7f0b01caad82b57"
    );
    let parsed = ParsedRequest::parse("/image.png", Some("w-0.99999999999999999"), &config("webp")).unwrap();
    assert_eq!(
        parsed.cache_path_key(),
        "cached/4408eeba2417b7fcec2ec808044993e82f1b0f3218230f10f50766a6cfeb7aec"
    );
    for raw in ["w-0.3", "w-0.30000000000000001", "w-0.29999999999999999", "w-3e-1"] {
        let parsed = ParsedRequest::parse("/image.png", Some(raw), &config("webp")).unwrap();
        assert_eq!(
            parsed.cache_path_key(),
            "cached/235a78367541ad17ca99dc9a60fe4d23a4603dfbb0fc86da2f2b6e5c8bd12fe6",
            "value {raw}"
        );
    }
    assert!(ParsedRequest::parse("/image.png", Some("w-16383.0000000000001,f-webp"), &config("webp")).is_ok());
    assert!(ParsedRequest::parse("/", Some("w-2e-324"), &config("webp")).is_err());
    let parsed = ParsedRequest::parse("/image.png", Some("w-0.50"), &config("webp")).unwrap();
    assert_eq!(
        parsed.cache_path_key(),
        "cached/9b663020193e78d360a91efc38e18c07d7b894535f0a90a17aa6611d0bebedd2"
    );
}

#[test]
fn parse_should_report_the_refused_pair() {
    assert_eq!(message(ParsedRequest::parse("/a.png", Some("w-abc"), &config("webp"))), "w-abc");
    assert_eq!(message(ParsedRequest::parse("/a.png", Some("w100"), &config("webp"))), "w100");
    assert_eq!(message(ParsedRequest::parse("/a.png", Some("q-0"), &config("webp"))), "q-0");
    assert_eq!(message(ParsedRequest::parse("/a.png", Some("q-101"), &config("webp"))), "q-101");
    assert_eq!(message(ParsedRequest::parse("/a.png", Some("q-300"), &config("webp"))), "q-300");
    assert_eq!(message(ParsedRequest::parse("/a.png", Some("f-gif"), &config("webp"))), "f-gif");
    assert_eq!(message(ParsedRequest::parse("/tr:h-0/a.png", None, &config("webp"))), "h-0");
}

#[test]
fn parse_should_report_webp_limit_and_bad_default_format() {
    assert_eq!(
        message(ParsedRequest::parse("/a.png", Some("h-20000"), &config("webp"))),
        "h exceeds WebP max of 16383px"
    );
    assert_eq!(
        message(ParsedRequest::parse("/a.png", Some("w-16383.5"), &config("webp"))),
        "w exceeds WebP max of 16383px"
    );
    assert_eq!(
        message(ParsedRequest::parse("/a.png", Some("f-png"), &config("gif"))),
        "invalid DEFAULT_FORMAT"
    );
}

#[test]
fn parse_should_skip_empty_and_unknown_pairs() {
    let parsed = ParsedRequest::parse("/a.png", Some(",,x-1,q-55,,"), &config("webp")).unwrap();
    assert_eq!(parsed.transformations.quality, 55);
    assert_eq!(parsed.transformations.width, None);
}

#[test]
fn parse_should_split_the_source_key_from_the_path() {
    let parsed = ParsedRequest::parse("/tr:tr:w-10/a/b/c.png", None, &config("webp")).unwrap();
    assert_eq!(parsed.image_path, "a/b/c.png");
    assert_eq!(parsed.transformations.width.unwrap().to_text(), "10");
    let parsed = ParsedRequest::parse("/trx/a.png", None, &config("webp")).unwrap();
    assert_eq!(parsed.image_path, "trx/a.png");
    let parsed = ParsedRequest::parse("", None, &config("webp")).unwrap();
    assert_eq!(parsed.image_path, "");
    let parsed = ParsedRequest::parse("/tr:w-10", None, &config("webp")).unwrap();
    assert_eq!(parsed.image_path, "");
}

#[test]
fn query_should_apply_after_path_like_a_joined_string() {
    let both = ParsedRequest::parse("/tr:w-100,q-50/a.png", Some("h-20,w-30"), &config("webp")).unwrap();
    let joined = ParsedRequest::parse("/a.png", Some("w-100,q-50,h-20,w-30"), &config("webp")).unwrap();
    assert_eq!(both.transformations, joined.transformations);
    assert_eq!(both.transformations.width.unwrap().to_text(), "30");
}

use std::sync::Arc;

use pixtimize::api::images::TransformQuery;
use pixtimize::api::response::{cache_control, image_response};
use pixtimize::application::cache_cleanup::{storage_key, CleanupProgress};
use pixtimize::application::render_image::{
    after_lock_attempt, cached_step, check_source_size, fetched, head_from_object, lock_owner_id,
    plan_request, rendered_from_shared, shared_built, shared_loaded, stored_entry, wait_timeout_error,
    CachedStep, RenderImageRequest, RenderedImage, WaitAction,
};
use pixtimize::application::single_flight::{FlightRegistry, SharedValue};
use pixtimize::config::{Config, S3Config};
use pixtimize::domain::cache_entry::CacheEntry;
use pixtimize::domain::transform::OutputFormat;
use pixtimize::error::AppError;
use pixtimize::infrastructure::redis::{cache_key, lock_key, scan_pattern};
use pixtimize::infrastructure::s3::{content_length_from, storage_error, ObjectMeta};

fn config() -> Config {
    Config {
        port: 3000,
        s3: S3Config {
            endpoint: String::new(),
            region: String::new(),
            access_key: String::new(),
            secret_key: String::new(),
            bucket: String::new(),
        },
        redis_url: String::new(),
        default_quality: 80,
        default_format: "webp".to_owned(),
        cache_delete_cron: String::new(),
        cached_time: 604_800,
    }
}

#[test]
fn errors_should_map_to_status_and_public_body() {
    let cases = [
        (AppError::InvalidTransform("w-abc".to_owned()), 400, "invalid transform: w-abc", "invalid transform: w-abc"),
        (AppError::PayloadTooLarge("too big".to_owned()), 400, "too big", "too big"),
        (AppError::NotFound, 404, "image not found", "Image not found"),
        (AppError::ImageProcessing("boom".to_owned()), 500, "failed to process image: boom", "Internal server error"),
        (AppError::Storage("s3".to_owned()), 500, "storage error: s3", "Internal server error"),
        (AppError::Cache("redis".to_owned()), 500, "cache error: redis", "Internal server error"),
    ];
    for (error, status, message, body) in cases {
        assert_eq!(error.status_code(), status);
        assert_eq!(error.message(), message);
        assert_eq!(error.response_body(), body);
        assert_eq!(error.is_server_error(), status >= 500);
        assert_eq!(error.is_not_found(), status == 404);
    }
}

#[test]
fn plan_should_derive_keys_and_wrap_parse_errors() {
    let request = RenderImageRequest { image_path: "/image.png", transform_query: Some("w-100,f-png"), head_only: false };
    let plan = plan_request(&request, &config()).ok().expect("valid request");
    let key = "cached/01798ec77895672d520702354513e1ef23bae15fab97ad22b54a32c5155adc3c";
    assert_eq!(plan.cache_path_key, key);
    assert_eq!(plan.cache_key, format!("cache:{key}"));
    assert_eq!(plan.lock_key, format!("lock:{key}"));
    assert_eq!(plan.format, OutputFormat::Png);
    assert_eq!(plan.image_path, "image.png");
    assert_eq!(plan.transformations.quality, 80);
    assert_eq!(plan.duplicate().cache_key, plan.cache_key);

    let bad = RenderImageRequest { image_path: "/image.png", transform_query: Some("w-abc"), head_only: false };
    match plan_request(&bad, &config()) {
        Err(AppError::InvalidTransform(m)) => assert_eq!(m, "invalid transform: w-abc"),
        _ => panic!("expected an invalid transform"),
    }
}

#[test]
fn cached_head_should_use_stored_metadata() {
    let entry = CacheEntry::new("cached/abc", 42, "image/jpeg");
    match cached_step(true, &entry, OutputFormat::WebP) {
        CachedStep::Respond(image) => {
            assert_eq!(image.body, None);
            assert_eq!(image.content_length, 42);
            assert_eq!(image.content_type, "image/jpeg");
        }
        _ => panic!("HEAD with a stored size is answered from metadata"),
    }
    let legacy = CacheEntry { s3_key: "cached/abc".to_owned(), size: None, content_type: None };
    match cached_step(true, &legacy, OutputFormat::WebP) {
        CachedStep::HeadObject(key) => assert_eq!(key, "cached/abc"),
        _ => panic!("HEAD without a size reads object metadata"),
    }
    match cached_step(false, &entry, OutputFormat::WebP) {
        CachedStep::Fetch(key) => assert_eq!(key, "cached/abc"),
        _ => panic!("GET downloads the object"),
    }
}

#[test]
fn head_from_object_should_prefer_object_then_entry_then_format() {
    let legacy = CacheEntry { s3_key: "cached/abc".to_owned(), size: None, content_type: Some("image/png".to_owned()) };
    let meta = ObjectMeta { content_length: 7, content_type: None };
    let (image, refreshed) = head_from_object(&legacy, &meta, OutputFormat::WebP);
    assert_eq!((image.content_length, image.content_type.as_str()), (7, "image/png"));
    assert_eq!(refreshed, CacheEntry::new("cached/abc", 7, "image/png"));
    let meta = ObjectMeta { content_length: 9, content_type: Some("image/jpeg".to_owned()) };
    let (image, _) = head_from_object(&legacy, &meta, OutputFormat::WebP);
    assert_eq!(image.content_type, "image/jpeg");
    let bare = CacheEntry { s3_key: "cached/abc".to_owned(), size: None, content_type: None };
    let meta = ObjectMeta { content_length: 9, content_type: None };
    let (image, _) = head_from_object(&bare, &meta, OutputFormat::WebP);
    assert_eq!(image.content_type, "image/webp");
}

#[test]
fn fetched_should_backfill_only_legacy_entries() {
    let legacy = CacheEntry { s3_key: "cached/abc".to_owned(), size: None, content_type: None };
    let (image, backfill) = fetched(&legacy, vec![1, 2, 3], OutputFormat::Png);
    assert_eq!(image.body, Some(vec![1, 2, 3]));
    assert_eq!(image.content_length, 3);
    assert_eq!(image.content_type, "image/png");
    assert_eq!(backfill, Some(CacheEntry::new("cached/abc", 3, "image/png")));
    let full = CacheEntry::new("cached/abc", 3, "image/jpeg");
    let (image, backfill) = fetched(&full, vec![1, 2, 3], OutputFormat::Png);
    assert_eq!(image.content_type, "image/jpeg");
    assert_eq!(backfill, None);
}

#[test]
fn source_size_should_be_limited() {
    assert!(check_source_size(20 * 1024 * 1024).is_ok());
    match check_source_size(20 * 1024 * 1024 + 1) {
        Err(AppError::PayloadTooLarge(m)) => assert_eq!(m, "image exceeds max file size of 20971520 bytes"),
        _ => panic!("expected a payload error"),
    }
}

#[test]
fn build_results_should_carry_bytes_and_content_type() {
    let entry = stored_entry("cached/k", 5, OutputFormat::WebP);
    assert_eq!(entry, CacheEntry::new("cached/k", 5, "image/webp"));
    let shared = shared_built(vec![4, 5], OutputFormat::Jpeg);
    assert_eq!(shared.bytes.as_slice(), [4, 5]);
    assert_eq!(shared.content_type, "image/jpeg");
    let legacy = CacheEntry { s3_key: "cached/abc".to_owned(), size: None, content_type: None };
    let loaded = shared_loaded(&legacy, vec![6], OutputFormat::Png);
    assert_eq!(loaded.content_type, "image/png");
    let get = rendered_from_shared(&loaded, false);
    assert_eq!((get.body, get.content_length), (Some(vec![6]), 1));
    let head = rendered_from_shared(&loaded, true);
    assert_eq!((head.body, head.content_length), (None, 1));
}

#[test]
fn waiters_should_build_sleep_or_give_up() {
    assert_eq!(after_lock_attempt(true, true), WaitAction::Build);
    assert_eq!(after_lock_attempt(false, true), WaitAction::GiveUp);
    assert_eq!(after_lock_attempt(false, false), WaitAction::Sleep);
    assert_eq!(wait_timeout_error().message(), "failed to process image: timed out waiting for in-flight transform");
    assert_eq!(lock_owner_id(4242, 7), "4242-7");
}

#[test]
fn registry_should_coalesce_and_allow_retry() {
    let mut registry: FlightRegistry<u32> = FlightRegistry::new();
    let key = "same".to_owned();
    assert_eq!(registry.lookup(&key), None);
    registry.insert(key.clone(), 1);
    assert_eq!(registry.lookup(&key), Some(&1));
    registry.insert("other".to_owned(), 2);
    registry.remove(&key);
    assert_eq!(registry.lookup(&key), None);
    assert_eq!(registry.lookup(&"other".to_owned()), Some(&2));
    registry.insert(key.clone(), 3);
    assert_eq!(registry.lookup(&key), Some(&3));
}

#[test]
fn cleanup_should_count_pages_and_strip_prefixes() {
    let mut progress = CleanupProgress::new();
    let keys = vec!["cache:cached/a".to_owned(), "cache:cache:cached/b".to_owned(), "cached/c".to_owned()];
    let plan = progress.record_page(17, &keys);
    assert!(plan.delete);
    assert_eq!(plan.storage_keys, vec!["cached/a", "cached/b", "cached/c"]);
    assert_eq!(plan.next_cursor, Some(17));
    let plan = progress.record_page(0, &Vec::new());
    assert!(!plan.delete);
    assert_eq!(plan.next_cursor, None);
    assert_eq!(progress.deleted, 3);
    assert_eq!(storage_key(&"cache:x".to_owned()), "x");
}

#[test]
fn redis_and_storage_rules() {
    assert_eq!(cache_key("cached/a"), "cache:cached/a");
    assert_eq!(lock_key("cached/a"), "lock:cached/a");
    assert_eq!(scan_pattern(), "cache:*");
    assert_eq!(content_length_from(Some(12)), 12);
    assert_eq!(content_length_from(Some(-3)), 0);
    assert_eq!(content_length_from(None), 0);
    assert!(storage_error(true, "gone".to_owned()).is_not_found());
    assert_eq!(storage_error(false, "down".to_owned()).message(), "storage error: down");
}

#[test]
fn responses_should_carry_cache_headers() {
    assert_eq!(cache_control(604_800), "public, max-age=604800, must-revalidate");
    let image = RenderedImage { body: Some(vec![1, 2]), content_length: 2, content_type: "image/png".to_owned() };
    let response = image_response(image, false, 60, 784_111_717);
    assert_eq!(response.expires, "Sun, 06 Nov 1994 08:49:37 GMT");
    assert_eq!(response.body, vec![1, 2]);
    assert_eq!(response.content_length, None);
    assert_eq!(response.cache_control, "public, max-age=60, must-revalidate");
    let image = RenderedImage { body: None, content_length: 2, content_type: "image/png".to_owned() };
    let response = image_response(image, true, 60, 0);
    assert_eq!(response.expires, "Thu, 01 Jan 1970 00:01:00 GMT");
    assert!(response.body.is_empty());
    assert_eq!(response.content_length, Some(2));
    assert_eq!(response.content_type, "image/png");
    let query = TransformQuery { tr: Some("w-10".to_owned()) };
    assert_eq!(query.transform(), Some("w-10"));
    let _ = SharedValue { bytes: Arc::new(vec![]), content_type: String::new() };
}

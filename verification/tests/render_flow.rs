use std::sync::Arc;

use pixtimize::application::render_flow::{BuildAction, BuildFlow, FlowEvent, ServeAction, ServeFlow};
use pixtimize::application::render_image::{BuildOrder, RenderImageRequest};
use pixtimize::application::single_flight::SharedValue;
use pixtimize::config::{Config, S3Config};
use pixtimize::domain::cache_entry::CacheEntry;
use pixtimize::domain::transform::OutputFormat;
use pixtimize::error::AppError;
use pixtimize::infrastructure::s3::ObjectMeta;

const KEY: &str = "cached/01798ec77895672d520702354513e1ef23bae15fab97ad22b54a32c5155adc3c";

fn config() -> Config {
    Config {
        port: 3000,
        s3: S3Config {
            endpoint: String::new(),
            region: String::new(),
            access_key: String::new(),
            secret_key: String::new(),
            bucket: String::new(),
        },
        redis_url: String::new(),
        default_quality: 80,
        default_format: "webp".to_owned(),
        cache_delete_cron: String::new(),
        cached_time: 604_800,
    }
}

fn request(head_only: bool) -> RenderImageRequest<'static> {
    RenderImageRequest { image_path: "/image.png", transform_query: Some("w-100,f-png"), head_only }
}

fn serve(head_only: bool) -> ServeFlow {
    let (flow, action) = ServeFlow::start(&request(head_only), &config()).ok().expect("valid request");
    match action {
        ServeAction::CacheGet(key) => assert_eq!(key, format!("cache:{KEY}")),
        _ => panic!("serving starts with a cache lookup"),
    }
    flow
}

fn order() -> BuildOrder {
    match serve(false).step(FlowEvent::CacheRead(Ok(None))) {
        ServeAction::Coalesce(order) => order,
        _ => panic!("a miss joins the build"),
    }
}

fn step(flow: &mut BuildFlow, event: FlowEvent) -> BuildAction {
    assert!(flow.accepts(&event));
    flow.step(event)
}

fn finish(action: BuildAction) -> Result<SharedValue, AppError> {
    match action {
        BuildAction::Finish(result) => result,
        _ => panic!("expected the build to finish"),
    }
}

fn expect_release(action: BuildAction) {
    match action {
        BuildAction::ReleaseLock { key, owner } => {
            assert_eq!(key, format!("lock:{KEY}"));
            assert_eq!(owner, "7-1");
        }
        _ => panic!("expected the lock to be released"),
    }
}

/// Starts a build and takes the lock after an empty poll.
fn locked_build() -> BuildFlow {
    let (mut flow, action) = BuildFlow::new(order(), "7-1".to_owned());
    assert!(matches!(action, BuildAction::CacheGet(ref k) if k == &format!("cache:{KEY}")));
    match step(&mut flow, FlowEvent::CacheRead(Ok(None))) {
        BuildAction::TryLock { key, owner, ttl_secs } => {
            assert_eq!(key, format!("lock:{KEY}"));
            assert_eq!(owner, "7-1");
            assert_eq!(ttl_secs, 60);
        }
        _ => panic!("an empty poll tries the lock"),
    }
    let action = step(&mut flow, FlowEvent::LockAttempt { acquired: Ok(true), deadline_reached: false });
    assert!(matches!(action, BuildAction::CacheGet(ref k) if k == &format!("cache:{KEY}")));
    flow
}

#[test]
fn start_should_refuse_an_invalid_transform() {
    let bad = RenderImageRequest { image_path: "/image.png", transform_query: Some("w-abc"), head_only: false };
    match ServeFlow::start(&bad, &config()) {
        Err(AppError::InvalidTransform(m)) => assert_eq!(m, "invalid transform: w-abc"),
        _ => panic!("expected an invalid transform"),
    }
}

#[test]
fn head_hit_with_size_should_answer_without_storage() {
    let mut flow = serve(true);
    let entry = CacheEntry::new(KEY, 42, "image/png");
    match flow.step(FlowEvent::CacheRead(Ok(Some(entry)))) {
        ServeAction::Finish(Ok(image)) => {
            assert_eq!(image.body, None);
            assert_eq!(image.content_length, 42);
            assert_eq!(image.content_type, "image/png");
        }
        _ => panic!("a HEAD hit with a size is answered from metadata"),
    }
}

#[test]
fn head_hit_without_size_should_read_metadata_and_refresh() {
    let mut flow = serve(true);
    let legacy = CacheEntry { s3_key: KEY.to_owned(), size: None, content_type: None };
    match flow.step(FlowEvent::CacheRead(Ok(Some(legacy)))) {
        ServeAction::StorageHead(key) => assert_eq!(key, KEY),
        _ => panic!("a legacy HEAD reads the object's metadata"),
    }
    let meta = ObjectMeta { content_length: 11, content_type: None };
    match flow.step(FlowEvent::ObjectHead(Ok(meta))) {
        ServeAction::CacheSet { key, entry } => {
            assert_eq!(key, format!("cache:{KEY}"));
            assert_eq!(entry, CacheEntry::new(KEY, 11, "image/png"));
        }
        _ => panic!("the completed entry is stored back"),
    }
    match flow.step(FlowEvent::CacheWritten(Err(AppError::Cache("down".to_owned())))) {
        ServeAction::Finish(Ok(image)) => {
            assert_eq!((image.body, image.content_length), (None, 11));
            assert_eq!(image.content_type, "image/png");
        }
        _ => panic!("a failed refresh does not change the answer"),
    }
}

#[test]
fn get_hit_should_download_and_backfill_legacy_entries() {
    let mut flow = serve(false);
    let legacy = CacheEntry { s3_key: KEY.to_owned(), size: None, content_type: None };
    match flow.step(FlowEvent::CacheRead(Ok(Some(legacy)))) {
        ServeAction::StorageGet(key) => assert_eq!(key, KEY),
        _ => panic!("a GET hit downloads the object"),
    }
    match flow.step(FlowEvent::ObjectRead(Ok(vec![1, 2, 3]))) {
        ServeAction::CacheSet { entry, .. } => assert_eq!(entry, CacheEntry::new(KEY, 3, "image/png")),
        _ => panic!("a legacy entry is completed"),
    }
    match flow.step(FlowEvent::CacheWritten(Ok(()))) {
        ServeAction::Finish(Ok(image)) => {
            assert_eq!(image.body, Some(vec![1, 2, 3]));
            assert_eq!(image.content_length, 3);
        }
        _ => panic!("the downloaded object answers"),
    }

    let mut flow = serve(false);
    let full = CacheEntry::new(KEY, 3, "image/jpeg");
    let _ = flow.step(FlowEvent::CacheRead(Ok(Some(full))));
    match flow.step(FlowEvent::ObjectRead(Ok(vec![9]))) {
        ServeAction::Finish(Ok(image)) => assert_eq!(image.content_type, "image/jpeg"),
        _ => panic!("a complete entry is served without a refresh"),
    }
}

#[test]
fn stale_marker_should_join_the_build() {
    let mut flow = serve(false);
    let _ = flow.step(FlowEvent::CacheRead(Ok(Some(CacheEntry::new(KEY, 3, "image/png")))));
    match flow.step(FlowEvent::ObjectRead(Err(AppError::NotFound))) {
        ServeAction::Coalesce(order) => assert_eq!(order.cache_path_key, KEY),
        _ => panic!("a missing object is rebuilt"),
    }
    let shared = SharedValue { bytes: Arc::new(vec![5, 6]), content_type: "image/png".to_owned() };
    match flow.step(FlowEvent::Shared(Ok(shared))) {
        ServeAction::Finish(Ok(image)) => assert_eq!((image.body, image.content_length), (Some(vec![5, 6]), 2)),
        _ => panic!("the build result answers"),
    }

    let mut flow = serve(true);
    let _ = flow.step(FlowEvent::CacheRead(Ok(None)));
    let shared = SharedValue { bytes: Arc::new(vec![5, 6]), content_type: "image/png".to_owned() };
    match flow.step(FlowEvent::Shared(Ok(shared))) {
        ServeAction::Finish(Ok(image)) => assert_eq!((image.body, image.content_length), (None, 2)),
        _ => panic!("a HEAD answer carries no body"),
    }
}

#[test]
fn serve_errors_should_answer_the_request() {
    let mut flow = serve(false);
    match flow.step(FlowEvent::CacheRead(Err(AppError::Cache("down".to_owned())))) {
        ServeAction::Finish(Err(AppError::Cache(m))) => assert_eq!(m, "down"),
        _ => panic!("a cache failure answers the request"),
    }
    let mut flow = serve(false);
    let _ = flow.step(FlowEvent::CacheRead(Ok(None)));
    match flow.step(FlowEvent::Shared(Err(AppError::NotFound))) {
        ServeAction::Finish(Err(AppError::NotFound)) => {}
        _ => panic!("the build failure answers the request"),
    }
}

#[test]
fn build_should_process_upload_record_and_release() {
    let mut flow = locked_build();
    match step(&mut flow, FlowEvent::CacheRead(Ok(None))) {
        BuildAction::StorageGet(key) => assert_eq!(key, "image.png"),
        _ => panic!("the source is downloaded"),
    }
    match step(&mut flow, FlowEvent::ObjectRead(Ok(vec![0; 16]))) {
        BuildAction::Process { source, transformations } => {
            assert_eq!(source.len(), 16);
            assert_eq!(transformations.format, OutputFormat::Png);
            assert_eq!(transformations.width.expect("width").whole, 100);
        }
        _ => panic!("the source is processed"),
    }
    match step(&mut flow, FlowEvent::Processed(Ok(vec![7, 8, 9]))) {
        BuildAction::Upload { key, bytes, content_type } => {
            assert_eq!(key, KEY);
            assert_eq!(bytes, vec![7, 8, 9]);
            assert_eq!(content_type, "image/png");
        }
        _ => panic!("the output is uploaded"),
    }
    match step(&mut flow, FlowEvent::Uploaded(Ok(()))) {
        BuildAction::CacheSet { key, entry } => {
            assert_eq!(key, format!("cache:{KEY}"));
            assert_eq!(entry, CacheEntry::new(KEY, 3, "image/png"));
        }
        _ => panic!("the metadata is recorded"),
    }
    expect_release(step(&mut flow, FlowEvent::CacheWritten(Ok(()))));
    let value = finish(step(&mut flow, FlowEvent::Released)).ok().expect("built");
    assert_eq!(value.bytes.as_slice(), [7, 8, 9]);
    assert_eq!(value.content_type, "image/png");
    assert!(!flow.accepts(&FlowEvent::Released));
}

#[test]
fn build_should_release_the_lock_on_every_failure() {
    let mut flow = locked_build();
    let _ = step(&mut flow, FlowEvent::CacheRead(Ok(None)));
    expect_release(step(&mut flow, FlowEvent::ObjectRead(Err(AppError::NotFound))));
    assert!(matches!(finish(step(&mut flow, FlowEvent::Released)), Err(AppError::NotFound)));

    let mut flow = locked_build();
    let _ = step(&mut flow, FlowEvent::CacheRead(Ok(None)));
    expect_release(step(&mut flow, FlowEvent::ObjectRead(Ok(vec![0; 20 * 1024 * 1024 + 1]))));
    match finish(step(&mut flow, FlowEvent::Released)) {
        Err(AppError::PayloadTooLarge(m)) => assert_eq!(m, "image exceeds max file size of 20971520 bytes"),
        _ => panic!("an oversized source is refused"),
    }

    let mut flow = locked_build();
    let _ = step(&mut flow, FlowEvent::CacheRead(Ok(None)));
    let _ = step(&mut flow, FlowEvent::ObjectRead(Ok(vec![1])));
    expect_release(step(&mut flow, FlowEvent::Processed(Err(AppError::ImageProcessing("bad".to_owned())))));
    assert!(matches!(finish(step(&mut flow, FlowEvent::Released)), Err(AppError::ImageProcessing(_))));

    let mut flow = locked_build();
    let _ = step(&mut flow, FlowEvent::CacheRead(Ok(None)));
    let _ = step(&mut flow, FlowEvent::ObjectRead(Ok(vec![1])));
    let _ = step(&mut flow, FlowEvent::Processed(Ok(vec![2])));
    expect_release(step(&mut flow, FlowEvent::Uploaded(Err(AppError::Storage("s3".to_owned())))));
    assert!(matches!(finish(step(&mut flow, FlowEvent::Released)), Err(AppError::Storage(_))));
}

#[test]
fn build_should_reuse_a_transform_stored_meanwhile() {
    let mut flow = locked_build();
    let stored = CacheEntry { s3_key: KEY.to_owned(), size: None, content_type: None };
    match step(&mut flow, FlowEvent::CacheRead(Ok(Some(stored)))) {
        BuildAction::StorageGet(key) => assert_eq!(key, KEY),
        _ => panic!("the stored transform is downloaded"),
    }
    expect_release(step(&mut flow, FlowEvent::ObjectRead(Ok(vec![4]))));
    let value = finish(step(&mut flow, FlowEvent::Released)).ok().expect("loaded");
    assert_eq!(value.bytes.as_slice(), [4]);
    assert_eq!(value.content_type, "image/png");

    let (mut flow, _) = BuildFlow::new(order(), "7-1".to_owned());
    let _ = step(&mut flow, FlowEvent::CacheRead(Ok(Some(CacheEntry::new(KEY, 1, "image/jpeg")))));
    let value = finish(step(&mut flow, FlowEvent::ObjectRead(Ok(vec![3])))).ok().expect("polled");
    assert_eq!(value.content_type, "image/jpeg");
}

#[test]
fn waiter_should_sleep_poll_and_time_out() {
    let (mut flow, _) = BuildFlow::new(order(), "7-1".to_owned());
    let _ = step(&mut flow, FlowEvent::CacheRead(Ok(None)));
    match step(&mut flow, FlowEvent::LockAttempt { acquired: Ok(false), deadline_reached: false }) {
        BuildAction::Sleep(millis) => assert_eq!(millis, 50),
        _ => panic!("a busy lock means waiting"),
    }
    assert!(matches!(step(&mut flow, FlowEvent::Slept), BuildAction::CacheGet(_)));
    let _ = step(&mut flow, FlowEvent::CacheRead(Ok(Some(CacheEntry::new(KEY, 1, "image/png")))));
    assert!(matches!(step(&mut flow, FlowEvent::ObjectRead(Err(AppError::NotFound))), BuildAction::TryLock { .. }));
    match finish(step(&mut flow, FlowEvent::LockAttempt { acquired: Ok(false), deadline_reached: true })) {
        Err(error) => {
            assert_eq!(error.message(), "failed to process image: timed out waiting for in-flight transform");
        }
        Ok(_) => panic!("the wait is over"),
    }
}

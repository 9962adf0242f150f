//! Render-image use case: the decisions taken while serving a cached
//! transform or building a new one. The caller performs the cache, storage
//! and image-processing work these decisions call for.

use std::sync::Arc;

use vstd::prelude::*;

use crate::application::single_flight::{SharedValue, SharedValueView};
use crate::config::Config;
use crate::domain::cache_entry::{CacheEntry, CacheEntryView, copy_string};
use crate::domain::limits::MAX_IMAGE_FILE_SIZE;
use crate::domain::transform::{
    OutputFormat, ParsedRequest, Transformations, TransformationsView, cache_path_key_of, content_type_of,
    opt_str_view, parse_request,
};
use crate::error::{AppError, AppErrorView};
use crate::infrastructure::redis::{CACHE_PREFIX, LOCK_PREFIX, cache_key, lock_key};
use crate::infrastructure::s3::{ObjectMeta, ObjectMetaView};
use crate::text::{chars_of, decimal, push_decimal, push_str, string_from_chars};

verus! {

/// How long a build lock may be held before Redis expires it, in seconds.
pub const BUILD_LOCK_TTL_SECS: u64 = 60;

/// How long a waiter polls for another instance's build to finish, in
/// milliseconds.
pub const BUILD_WAIT_TIMEOUT_MS: u64 = 45_000;

/// Interval between waiter cache polls, in milliseconds.
pub const BUILD_WAIT_POLL_INTERVAL_MS: u64 = 50;

/// Technology-neutral input required to render an image.
pub struct RenderImageRequest<'a> {
    pub image_path: &'a str,
    pub transform_query: Option<&'a str>,
    pub head_only: bool,
}

/// Rendered image data and metadata returned to the transport layer.
pub struct RenderedImage {
    pub body: Option<Vec<u8>>,
    pub content_length: u64,
    pub content_type: String,
}

/// The mathematical content of a [`RenderedImage`].
pub struct RenderedImageView {
    pub body: Option<Seq<u8>>,
    pub content_length: u64,
    pub content_type: Seq<char>,
}

impl View for RenderedImage {
    type V = RenderedImageView;

    open spec fn view(&self) -> RenderedImageView {
        RenderedImageView {
            body: match self.body {
                Some(b) => Some(b@),
                None => None,
            },
            content_length: self.content_length,
            content_type: self.content_type@,
        }
    }
}

/// What a request resolves to before any cache or storage work: all that a
/// build of the transform needs.
pub struct BuildOrder {
    /// S3 key of the source image.
    pub image_path: String,
    /// S3 key of the transformed image; also the key builds coalesce on.
    pub cache_path_key: String,
    /// Redis key of its metadata.
    pub cache_key: String,
    /// Redis key of its build lock.
    pub lock_key: String,
    pub transformations: Transformations,
    pub format: OutputFormat,
}

/// The mathematical content of a [`BuildOrder`].
pub struct BuildOrderView {
    pub image_path: Seq<char>,
    pub cache_path_key: Seq<char>,
    pub cache_key: Seq<char>,
    pub lock_key: Seq<char>,
    pub transformations: TransformationsView,
    pub format: OutputFormat,
}

impl View for BuildOrder {
    type V = BuildOrderView;

    open spec fn view(&self) -> BuildOrderView {
        BuildOrderView {
            image_path: self.image_path@,
            cache_path_key: self.cache_path_key@,
            cache_key: self.cache_key@,
            lock_key: self.lock_key@,
            transformations: self.transformations@,
            format: self.format,
        }
    }
}

impl BuildOrder {
    /// A copy of this order.
    pub fn duplicate(&self) -> (o: Self)
        ensures
            o@ == self@,
    {
        BuildOrder {
            image_path: copy_string(&self.image_path),
            cache_path_key: copy_string(&self.cache_path_key),
            cache_key: copy_string(&self.cache_key),
            lock_key: copy_string(&self.lock_key),
            transformations: self.transformations.duplicate(),
            format: self.format,
        }
    }
}

/// The order a parsed request `(image_path, transformations)` resolves to.
pub open spec fn order_of(image_path: Seq<char>, t: TransformationsView) -> BuildOrderView {
    BuildOrderView {
        image_path,
        cache_path_key: cache_path_key_of(image_path, t),
        cache_key: CACHE_PREFIX@ + cache_path_key_of(image_path, t),
        lock_key: LOCK_PREFIX@ + cache_path_key_of(image_path, t),
        transformations: t,
        format: t.format,
    }
}

/// What planning a request gives: its order, or the refusal of its
/// transform, reported as [`AppError::InvalidTransform`] carrying the parse
/// error's whole text.
pub open spec fn planned(request_path: Seq<char>, query: Option<Seq<char>>, config: Config) -> Result<BuildOrderView, AppErrorView> {
    match parse_request(request_path, query, config.default_quality, config.default_format@) {
        Err(m) => Err(AppErrorView::InvalidTransform("invalid transform: "@ + m)),
        Ok((p, t)) => Ok(order_of(p, t)),
    }
}

/// Parses the request and derives its cache keys.
pub fn plan_request(request: &RenderImageRequest, config: &Config) -> (r: Result<BuildOrder, AppError>)
    ensures
        match r {
            Ok(o) => planned(request.image_path@, opt_str_view(request.transform_query), *config) == Ok::<
                BuildOrderView,
                AppErrorView,
            >(o@),
            Err(e) => planned(request.image_path@, opt_str_view(request.transform_query), *config) == Err::<
                BuildOrderView,
                AppErrorView,
            >(e@),
        },
{
    let parsed = match ParsedRequest::parse(request.image_path, request.transform_query, config) {
        Ok(p) => p,
        Err(error) => return Err(AppError::InvalidTransform(error.message())),
    };
    let cache_path_key = parsed.cache_path_key();
    let cache_key = cache_key(cache_path_key.as_str());
    let lock_key = lock_key(cache_path_key.as_str());
    let ParsedRequest { image_path, transformations } = parsed;
    let format = transformations.format;
    Ok(BuildOrder { image_path, cache_path_key, cache_key, lock_key, transformations, format })
}

/// The content type of a cached entry, falling back on the format's.
pub open spec fn entry_content_type(entry: CacheEntryView, format: OutputFormat) -> Seq<char> {
    match entry.content_type {
        Some(ct) => ct,
        None => content_type_of(format),
    }
}

/// The answer to a `HEAD` hit that the stored metadata alone gives, if any:
/// only an entry that records its size can answer without storage.
pub open spec fn head_from_metadata(entry: CacheEntryView, format: OutputFormat) -> Option<RenderedImageView> {
    match entry.size {
        Some(n) => Some(
            RenderedImageView { body: None, content_length: n, content_type: entry_content_type(entry, format) },
        ),
        None => None,
    }
}

/// The metadata recorded for a freshly built transform.
pub open spec fn fresh_entry(cache_path_key: Seq<char>, output_len: u64, format: OutputFormat) -> CacheEntryView {
    CacheEntryView {
        s3_key: cache_path_key,
        size: Some(output_len),
        content_type: Some(content_type_of(format)),
    }
}

/// The content type a `HEAD` answered from the object's metadata reports:
/// the object's, else the entry's, else the format's.
pub open spec fn head_content_type(entry: CacheEntryView, meta: ObjectMetaView, format: OutputFormat) -> Seq<char> {
    match meta.content_type {
        Some(c) => c,
        None => entry_content_type(entry, format),
    }
}

/// A `HEAD` answered from the object's metadata.
pub open spec fn head_answer(entry: CacheEntryView, meta: ObjectMetaView, format: OutputFormat) -> RenderedImageView {
    RenderedImageView {
        body: None,
        content_length: meta.content_length,
        content_type: head_content_type(entry, meta, format),
    }
}

/// The entry stored back after a `HEAD` read the object's metadata: now
/// with its size and content type.
pub open spec fn head_refresh(entry: CacheEntryView, meta: ObjectMetaView, format: OutputFormat) -> CacheEntryView {
    CacheEntryView {
        s3_key: entry.s3_key,
        size: Some(meta.content_length),
        content_type: Some(head_content_type(entry, meta, format)),
    }
}

/// A `GET` answered with the downloaded object.
pub open spec fn fetched_answer(entry: CacheEntryView, bytes: Seq<u8>, format: OutputFormat) -> RenderedImageView {
    RenderedImageView {
        body: Some(bytes),
        content_length: bytes.len() as u64,
        content_type: entry_content_type(entry, format),
    }
}

/// Whether a stored entry lacks its size or content type, so that serving
/// it stores a completed one back.
pub open spec fn needs_backfill(entry: CacheEntryView) -> bool {
    entry.size is None || entry.content_type is None
}

/// The completed entry stored back after a `GET` of an incomplete one.
pub open spec fn backfilled(entry: CacheEntryView, bytes: Seq<u8>, format: OutputFormat) -> CacheEntryView {
    CacheEntryView {
        s3_key: entry.s3_key,
        size: Some(bytes.len() as u64),
        content_type: Some(entry_content_type(entry, format)),
    }
}

/// The shared result of a transform that an earlier build stored.
pub open spec fn loaded_value(entry: CacheEntryView, bytes: Seq<u8>, format: OutputFormat) -> SharedValueView {
    SharedValueView { bytes, content_type: entry_content_type(entry, format) }
}

/// The shared result of a fresh build.
pub open spec fn built_value(output: Seq<u8>, format: OutputFormat) -> SharedValueView {
    SharedValueView { bytes: output, content_type: content_type_of(format) }
}

/// The response made of a shared build result: `HEAD` carries no body.
pub open spec fn answer_of_shared(v: SharedValueView, head_only: bool) -> RenderedImageView {
    RenderedImageView {
        body: if head_only { None } else { Some(v.bytes) },
        content_length: v.bytes.len() as u64,
        content_type: v.content_type,
    }
}

/// The next step in serving a cache hit.
pub enum CachedStep {
    /// A `HEAD` answered from the stored metadata, without touching storage.
    Respond(RenderedImage),
    /// A `HEAD` whose size is not stored: read the object's metadata.
    HeadObject(String),
    /// A `GET`: download the object.
    Fetch(String),
}

/// What a cache hit calls for: `HEAD` never downloads the object.
pub fn cached_step(head_only: bool, entry: &CacheEntry, format: OutputFormat) -> (step: CachedStep)
    ensures
        head_only && entry.size is Some ==> (step matches CachedStep::Respond(image) && Some(image@)
            == head_from_metadata(entry@, format)),
        head_only && entry.size is None ==> (step matches CachedStep::HeadObject(k) && k@ == entry.s3_key@),
        !head_only ==> (step matches CachedStep::Fetch(k) && k@ == entry.s3_key@),
{
    if head_only {
        match entry.size {
            Some(size) => {
                let content_type = content_type_or(entry, format);
                CachedStep::Respond(RenderedImage { body: None, content_length: size, content_type })
            },
            None => CachedStep::HeadObject(copy_string(&entry.s3_key)),
        }
    } else {
        CachedStep::Fetch(copy_string(&entry.s3_key))
    }
}

/// The content type of a cached entry, falling back on the format's.
fn content_type_or(entry: &CacheEntry, format: OutputFormat) -> (ct: String)
    ensures
        ct@ == entry_content_type(entry@, format),
{
    match &entry.content_type {
        Some(ct) => copy_string(ct),
        None => {
            let chars = chars_of(format.content_type());
            string_from_chars(chars.as_slice())
        },
    }
}

/// A `HEAD` answered from the object's metadata, and the refreshed entry to
/// store.
pub fn head_from_object(entry: &CacheEntry, meta: &ObjectMeta, format: OutputFormat) -> (r: (
    RenderedImage,
    CacheEntry,
))
    ensures
        r.0@ == head_answer(entry@, meta@, format),
        r.1@ == head_refresh(entry@, meta@, format),
{
    let content_type = match &meta.content_type {
        Some(ct) => copy_string(ct),
        None => content_type_or(entry, format),
    };
    let refreshed = CacheEntry::new(entry.s3_key.as_str(), meta.content_length, content_type.as_str());
    (RenderedImage { body: None, content_length: meta.content_length, content_type }, refreshed)
}

/// A `GET` answered with the downloaded object, and the entry to store back
/// when the stored one lacked its size or content type.
pub fn fetched(entry: &CacheEntry, bytes: Vec<u8>, format: OutputFormat) -> (r: (RenderedImage, Option<CacheEntry>))
    ensures
        r.0@ == fetched_answer(entry@, bytes@, format),
        needs_backfill(entry@) ==> (r.1 matches Some(e) && e@ == backfilled(entry@, bytes@, format)),
        !needs_backfill(entry@) ==> r.1 is None,
{
    let content_type = content_type_or(entry, format);
    let length = bytes.len() as u64;
    let backfill = if entry.size.is_none() || entry.content_type.is_none() {
        Some(CacheEntry::new(entry.s3_key.as_str(), length, content_type.as_str()))
    } else {
        None
    };
    (RenderedImage { body: Some(bytes), content_length: length, content_type }, backfill)
}

/// The message of a source image above [`MAX_IMAGE_FILE_SIZE`].
pub open spec fn file_too_large_message() -> Seq<char> {
    "image exceeds max file size of "@ + decimal(MAX_IMAGE_FILE_SIZE as nat) + " bytes"@
}

/// Source images above [`MAX_IMAGE_FILE_SIZE`] bytes are refused.
pub fn check_source_size(len: usize) -> (r: Result<(), AppError>)
    ensures
        len <= MAX_IMAGE_FILE_SIZE ==> r is Ok,
        len > MAX_IMAGE_FILE_SIZE ==> (r matches Err(AppError::PayloadTooLarge(m)) && m@
            == file_too_large_message()),
{
    if len > MAX_IMAGE_FILE_SIZE {
        let mut out = chars_of("image exceeds max file size of ");
        push_decimal(&mut out, MAX_IMAGE_FILE_SIZE as u64);
        push_str(&mut out, " bytes");
        return Err(AppError::PayloadTooLarge(string_from_chars(out.as_slice())));
    }
    Ok(())
}

/// The metadata stored for a freshly built transform: fully populated.
pub fn stored_entry(cache_path_key: &str, output_len: u64, format: OutputFormat) -> (e: CacheEntry)
    ensures
        e@ == fresh_entry(cache_path_key@, output_len, format),
{
    CacheEntry::new(cache_path_key, output_len, format.content_type())
}

/// The shared result of a fresh build.
pub fn shared_built(output: Vec<u8>, format: OutputFormat) -> (v: SharedValue)
    ensures
        v@ == built_value(output@, format),
{
    let chars = chars_of(format.content_type());
    SharedValue { bytes: Arc::new(output), content_type: string_from_chars(chars.as_slice()) }
}

/// The shared result of a transform another build already stored.
pub fn shared_loaded(entry: &CacheEntry, bytes: Vec<u8>, format: OutputFormat) -> (v: SharedValue)
    ensures
        v@ == loaded_value(entry@, bytes@, format),
{
    let content_type = content_type_or(entry, format);
    SharedValue { bytes: Arc::new(bytes), content_type }
}

/// A copy of a byte vector.
pub fn copy_bytes(bytes: &Vec<u8>) -> (copy: Vec<u8>)
    ensures
        copy@ == bytes@,
{
    let mut copy: Vec<u8> = Vec::new();
    let mut i: usize = 0;
    while i < bytes.len()
        invariant
            i <= bytes@.len(),
            copy@ == bytes@.take(i as int),
        decreases bytes@.len() - i,
    {
        copy.push(bytes[i]);
        i = i + 1;
        assert(copy@ =~= bytes@.take(i as int));
    }
    assert(bytes@.take(bytes@.len() as int) =~= bytes@);
    copy
}

/// The response made of a shared build result: `HEAD` carries no body.
pub fn rendered_from_shared(shared: &SharedValue, head_only: bool) -> (image: RenderedImage)
    ensures
        image@ == answer_of_shared(shared@, head_only),
{
    let bytes: &Vec<u8> = &shared.bytes;
    let length = bytes.len() as u64;
    let body = if head_only {
        None
    } else {
        Some(copy_bytes(bytes))
    };
    RenderedImage { body, content_length: length, content_type: copy_string(&shared.content_type) }
}

/// What a waiter does after trying to take the build lock.
#[derive(Debug, Clone, Copy, PartialEq, Eq, Structural)]
pub enum WaitAction {
    /// The lock is ours: build the transform.
    Build,
    /// Another build holds the lock and the wait is over: give up.
    GiveUp,
    /// Another build holds the lock: poll the cache again later.
    Sleep,
}

/// After a cache miss, a waiter builds when it took the lock; otherwise it
/// gives up once the deadline has passed and sleeps before polling again.
pub fn after_lock_attempt(acquired: bool, deadline_reached: bool) -> (a: WaitAction)
    ensures
        acquired ==> a == WaitAction::Build,
        !acquired && deadline_reached ==> a == WaitAction::GiveUp,
        !acquired && !deadline_reached ==> a == WaitAction::Sleep,
{
    if acquired {
        WaitAction::Build
    } else if deadline_reached {
        WaitAction::GiveUp
    } else {
        WaitAction::Sleep
    }
}

/// The error of a waiter that gave up.
pub fn wait_timeout_error() -> (e: AppError)
    ensures
        e matches AppError::ImageProcessing(m) && m@ == "timed out waiting for in-flight transform"@,
{
    let chars = chars_of("timed out waiting for in-flight transform");
    AppError::ImageProcessing(string_from_chars(chars.as_slice()))
}

/// The owner id of a build lock: the process id and a per-process sequence
/// number, `{pid}-{sequence}`.
pub fn lock_owner_id(process_id: u32, sequence: u64) -> (id: String)
    ensures
        id@ == decimal(process_id as nat) + seq!['-'] + decimal(sequence as nat),
{
    let mut out: Vec<char> = Vec::new();
    push_decimal(&mut out, process_id as u64);
    out.push('-');
    push_decimal(&mut out, sequence);
    assert(out@ =~= decimal(process_id as nat) + seq!['-'] + decimal(sequence as nat));
    string_from_chars(out.as_slice())
}


/// A `HEAD` for a transform this service built is answered from its stored
/// metadata, with the built length and the format's content type, without
/// reading storage.
pub proof fn lemma_fresh_entry_answers_head(cache_path_key: Seq<char>, output_len: u64, format: OutputFormat)
    ensures
        head_from_metadata(fresh_entry(cache_path_key, output_len, format), format) == Some(
            RenderedImageView { body: None, content_length: output_len, content_type: content_type_of(format) },
        ),
{
}

} // verus!

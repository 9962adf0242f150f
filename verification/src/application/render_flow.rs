//! The render pipeline as two state machines.
//!
//! [`ServeFlow`] answers one request: it looks the transform up in the
//! cache, serves a hit (a `HEAD` from the stored metadata when it can), and
//! otherwise joins the coalesced build of the transform. [`BuildFlow`] is
//! that build: it polls the cache, takes the build lock, re-checks the
//! cache, fetches and processes the source, uploads the result, records its
//! metadata and releases the lock.
//!
//! Each machine says which action to perform next; the caller performs it
//! (a cache or storage request, image processing, a sleep, joining the
//! build) and hands the outcome back as a [`FlowEvent`].

use vstd::prelude::*;

use crate::application::render_image::{
    BUILD_LOCK_TTL_SECS, BUILD_WAIT_POLL_INTERVAL_MS, BuildOrder, BuildOrderView, CachedStep, RenderImageRequest,
    RenderedImage, RenderedImageView, WaitAction, after_lock_attempt, answer_of_shared, backfilled,
    built_value, cached_step, check_source_size, copy_bytes, fetched, fetched_answer, file_too_large_message,
    fresh_entry, head_answer, head_from_metadata, head_from_object, head_refresh, loaded_value, needs_backfill,
    plan_request, planned, rendered_from_shared, shared_built, shared_loaded, stored_entry, wait_timeout_error,
};
use crate::application::single_flight::{SharedValue, SharedValueView};
use crate::config::Config;
use crate::domain::cache_entry::{CacheEntry, CacheEntryView, copy_string};
use crate::domain::limits::MAX_IMAGE_FILE_SIZE;
use crate::domain::transform::{Transformations, TransformationsView, content_type_of, opt_str_view};
use crate::error::{AppError, AppErrorView};
use crate::infrastructure::s3::{ObjectMeta, ObjectMetaView};
use crate::text::{chars_of, string_from_chars};

verus! {

/// The outcome of an action, handed back to the machine that asked for it.
pub enum FlowEvent {
    /// The metadata read from the cache, if any.
    CacheRead(Result<Option<CacheEntry>, AppError>),
    /// The bytes of a downloaded object.
    ObjectRead(Result<Vec<u8>, AppError>),
    /// The metadata of an object.
    ObjectHead(Result<ObjectMeta, AppError>),
    /// Whether the build lock was taken, and whether the wait for another
    /// build is over.
    LockAttempt { acquired: Result<bool, AppError>, deadline_reached: bool },
    /// The pause between two polls is over.
    Slept,
    /// The encoded output of the image processing.
    Processed(Result<Vec<u8>, AppError>),
    /// The result of an upload.
    Uploaded(Result<(), AppError>),
    /// The result of storing metadata.
    CacheWritten(Result<(), AppError>),
    /// The build lock was released (whether or not the cache confirmed it).
    Released,
    /// The result of the coalesced build.
    Shared(Result<SharedValue, AppError>),
}

/// The mathematical content of a [`FlowEvent`].
pub enum FlowEventView {
    CacheRead(Result<Option<CacheEntryView>, AppErrorView>),
    ObjectRead(Result<Seq<u8>, AppErrorView>),
    ObjectHead(Result<ObjectMetaView, AppErrorView>),
    LockAttempt { acquired: Result<bool, AppErrorView>, deadline_reached: bool },
    Slept,
    Processed(Result<Seq<u8>, AppErrorView>),
    Uploaded(Result<(), AppErrorView>),
    CacheWritten(Result<(), AppErrorView>),
    Released,
    Shared(Result<SharedValueView, AppErrorView>),
}

/// The view of the outcome of a request that gives bytes.
pub open spec fn bytes_result(r: Result<Vec<u8>, AppError>) -> Result<Seq<u8>, AppErrorView> {
    match r {
        Ok(b) => Ok(b@),
        Err(e) => Err(e@),
    }
}

/// The view of the outcome of a request that gives nothing.
pub open spec fn unit_result(r: Result<(), AppError>) -> Result<(), AppErrorView> {
    match r {
        Ok(_) => Ok(()),
        Err(e) => Err(e@),
    }
}

impl View for FlowEvent {
    type V = FlowEventView;

    open spec fn view(&self) -> FlowEventView {
        match self {
            FlowEvent::CacheRead(r) => FlowEventView::CacheRead(
                match r {
                    Ok(Some(e)) => Ok(Some(e@)),
                    Ok(None) => Ok(None),
                    Err(e) => Err(e@),
                },
            ),
            FlowEvent::ObjectRead(r) => FlowEventView::ObjectRead(bytes_result(*r)),
            FlowEvent::ObjectHead(r) => FlowEventView::ObjectHead(
                match r {
                    Ok(m) => Ok(m@),
                    Err(e) => Err(e@),
                },
            ),
            FlowEvent::LockAttempt { acquired, deadline_reached } => FlowEventView::LockAttempt {
                acquired: match acquired {
                    Ok(b) => Ok(*b),
                    Err(e) => Err(e@),
                },
                deadline_reached: *deadline_reached,
            },
            FlowEvent::Slept => FlowEventView::Slept,
            FlowEvent::Processed(r) => FlowEventView::Processed(bytes_result(*r)),
            FlowEvent::Uploaded(r) => FlowEventView::Uploaded(unit_result(*r)),
            FlowEvent::CacheWritten(r) => FlowEventView::CacheWritten(unit_result(*r)),
            FlowEvent::Released => FlowEventView::Released,
            FlowEvent::Shared(r) => FlowEventView::Shared(
                match r {
                    Ok(v) => Ok(v@),
                    Err(e) => Err(e@),
                },
            ),
        }
    }
}

// ---------------------------------------------------------------------------
// The coalesced build
// ---------------------------------------------------------------------------

/// Where a build stands: what it waits for, and what it holds meanwhile.
pub enum BuildPhase {
    /// Polling the cache for a transform another build stored.
    AwaitPoll,
    /// Downloading the transform that a poll found.
    AwaitPollObject(CacheEntry),
    /// Trying to take the build lock.
    AwaitLock,
    /// Waiting before the next poll.
    AwaitSleep,
    /// Lock held: checking the cache once more.
    AwaitRecheck,
    /// Lock held: downloading the transform that the re-check found.
    AwaitRecheckObject(CacheEntry),
    /// Lock held: downloading the source image.
    AwaitSource,
    /// Lock held: processing the source.
    AwaitProcessed,
    /// Lock held: uploading the output.
    AwaitUpload(Vec<u8>),
    /// Lock held: recording the output's metadata.
    AwaitRecord(Vec<u8>),
    /// Releasing the lock; the result follows.
    AwaitRelease(Result<SharedValue, AppError>),
    /// Finished.
    Done,
}

/// The mathematical content of a [`BuildPhase`].
pub enum BuildPhaseView {
    AwaitPoll,
    AwaitPollObject(CacheEntryView),
    AwaitLock,
    AwaitSleep,
    AwaitRecheck,
    AwaitRecheckObject(CacheEntryView),
    AwaitSource,
    AwaitProcessed,
    AwaitUpload(Seq<u8>),
    AwaitRecord(Seq<u8>),
    AwaitRelease(Result<SharedValueView, AppErrorView>),
    Done,
}

impl View for BuildPhase {
    type V = BuildPhaseView;

    open spec fn view(&self) -> BuildPhaseView {
        match self {
            BuildPhase::AwaitPoll => BuildPhaseView::AwaitPoll,
            BuildPhase::AwaitPollObject(e) => BuildPhaseView::AwaitPollObject(e@),
            BuildPhase::AwaitLock => BuildPhaseView::AwaitLock,
            BuildPhase::AwaitSleep => BuildPhaseView::AwaitSleep,
            BuildPhase::AwaitRecheck => BuildPhaseView::AwaitRecheck,
            BuildPhase::AwaitRecheckObject(e) => BuildPhaseView::AwaitRecheckObject(e@),
            BuildPhase::AwaitSource => BuildPhaseView::AwaitSource,
            BuildPhase::AwaitProcessed => BuildPhaseView::AwaitProcessed,
            BuildPhase::AwaitUpload(o) => BuildPhaseView::AwaitUpload(o@),
            BuildPhase::AwaitRecord(o) => BuildPhaseView::AwaitRecord(o@),
            BuildPhase::AwaitRelease(r) => BuildPhaseView::AwaitRelease(
                match r {
                    Ok(v) => Ok(v@),
                    Err(e) => Err(e@),
                },
            ),
            BuildPhase::Done => BuildPhaseView::Done,
        }
    }
}

/// What a build asks its caller to do.
pub enum BuildAction {
    /// Read the metadata stored under a Redis key.
    CacheGet(String),
    /// Download an S3 object.
    StorageGet(String),
    /// Try to take the lock `key` for `owner`, expiring after `ttl_secs`.
    TryLock { key: String, owner: String, ttl_secs: u64 },
    /// Wait this many milliseconds.
    Sleep(u64),
    /// Decode the source, apply the transformations and encode the output.
    Process { source: Vec<u8>, transformations: Transformations },
    /// Upload bytes under an S3 key with a content type.
    Upload { key: String, bytes: Vec<u8>, content_type: String },
    /// Store metadata under a Redis key.
    CacheSet { key: String, entry: CacheEntry },
    /// Release the lock `key` if `owner` still holds it.
    ReleaseLock { key: String, owner: String },
    /// The build is over, with this result.
    Finish(Result<SharedValue, AppError>),
}

/// The mathematical content of a [`BuildAction`].
pub enum BuildActionView {
    CacheGet(Seq<char>),
    StorageGet(Seq<char>),
    TryLock { key: Seq<char>, owner: Seq<char>, ttl_secs: u64 },
    Sleep(u64),
    Process { source: Seq<u8>, transformations: TransformationsView },
    Upload { key: Seq<char>, bytes: Seq<u8>, content_type: Seq<char> },
    CacheSet { key: Seq<char>, entry: CacheEntryView },
    ReleaseLock { key: Seq<char>, owner: Seq<char> },
    Finish(Result<SharedValueView, AppErrorView>),
}

impl View for BuildAction {
    type V = BuildActionView;

    open spec fn view(&self) -> BuildActionView {
        match self {
            BuildAction::CacheGet(k) => BuildActionView::CacheGet(k@),
            BuildAction::StorageGet(k) => BuildActionView::StorageGet(k@),
            BuildAction::TryLock { key, owner, ttl_secs } => BuildActionView::TryLock {
                key: key@,
                owner: owner@,
                ttl_secs: *ttl_secs,
            },
            BuildAction::Sleep(ms) => BuildActionView::Sleep(*ms),
            BuildAction::Process { source, transformations } => BuildActionView::Process {
                source: source@,
                transformations: transformations@,
            },
            BuildAction::Upload { key, bytes, content_type } => BuildActionView::Upload {
                key: key@,
                bytes: bytes@,
                content_type: content_type@,
            },
            BuildAction::CacheSet { key, entry } => BuildActionView::CacheSet { key: key@, entry: entry@ },
            BuildAction::ReleaseLock { key, owner } => BuildActionView::ReleaseLock { key: key@, owner: owner@ },
            BuildAction::Finish(r) => BuildActionView::Finish(
                match r {
                    Ok(v) => Ok(v@),
                    Err(e) => Err(e@),
                },
            ),
        }
    }
}

/// A coalesced build of one transform, run under the lock owner id `owner`.
pub struct BuildFlow {
    order: BuildOrder,
    owner: String,
    phase: BuildPhase,
}

/// The mathematical content of a [`BuildFlow`].
pub struct BuildView {
    pub order: BuildOrderView,
    pub owner: Seq<char>,
    pub phase: BuildPhaseView,
}

impl View for BuildFlow {
    type V = BuildView;

    closed spec fn view(&self) -> BuildView {
        BuildView { order: self.order@, owner: self.owner@, phase: self.phase@ }
    }
}

/// Whether a build in `phase` expects the event `e`.
pub open spec fn build_accepts(phase: BuildPhaseView, e: FlowEventView) -> bool {
    match phase {
        BuildPhaseView::AwaitPoll | BuildPhaseView::AwaitRecheck => e is CacheRead,
        BuildPhaseView::AwaitPollObject(_) | BuildPhaseView::AwaitRecheckObject(_)
        | BuildPhaseView::AwaitSource => e is ObjectRead,
        BuildPhaseView::AwaitLock => e is LockAttempt,
        BuildPhaseView::AwaitSleep => e is Slept,
        BuildPhaseView::AwaitProcessed => e is Processed,
        BuildPhaseView::AwaitUpload(_) => e is Uploaded,
        BuildPhaseView::AwaitRecord(_) => e is CacheWritten,
        BuildPhaseView::AwaitRelease(_) => e is Released,
        BuildPhaseView::Done => false,
    }
}

/// Whether a build in `phase` holds the build lock (and has not begun to
/// release it).
pub open spec fn holds_lock(phase: BuildPhaseView) -> bool {
    match phase {
        BuildPhaseView::AwaitRecheck | BuildPhaseView::AwaitRecheckObject(_) | BuildPhaseView::AwaitSource
        | BuildPhaseView::AwaitProcessed | BuildPhaseView::AwaitUpload(_) | BuildPhaseView::AwaitRecord(_) => true,
        _ => false,
    }
}

/// The error of a waiter that gave up on another build.
pub open spec fn timeout_error() -> AppErrorView {
    AppErrorView::ImageProcessing("timed out waiting for in-flight transform"@)
}

/// Trying to take the build lock.
pub open spec fn try_lock(s: BuildView) -> (BuildPhaseView, BuildActionView) {
    (
        BuildPhaseView::AwaitLock,
        BuildActionView::TryLock { key: s.order.lock_key, owner: s.owner, ttl_secs: BUILD_LOCK_TTL_SECS },
    )
}

/// Releasing the build lock before finishing with `r`.
pub open spec fn release(s: BuildView, r: Result<SharedValueView, AppErrorView>) -> (BuildPhaseView, BuildActionView) {
    (BuildPhaseView::AwaitRelease(r), BuildActionView::ReleaseLock { key: s.order.lock_key, owner: s.owner })
}

/// Downloading the source image, lock held.
pub open spec fn fetch_source(s: BuildView) -> (BuildPhaseView, BuildActionView) {
    (BuildPhaseView::AwaitSource, BuildActionView::StorageGet(s.order.image_path))
}

/// The next phase and action of a build in state `s` receiving `e`.
///
/// A poll that finds the transform downloads and returns it; one that finds
/// nothing, or a marker whose object is gone, tries the lock. With the lock
/// the build checks the cache once more, then downloads the source, refuses
/// one above the size limit, processes it, uploads the output and records
/// its metadata; every outcome with the lock held releases it before
/// finishing. Without the lock the build gives up once the wait is over and
/// sleeps before polling again otherwise.
pub open spec fn build_next(s: BuildView, e: FlowEventView) -> (BuildPhaseView, BuildActionView) {
    let format = s.order.format;
    match (s.phase, e) {
        (BuildPhaseView::AwaitPoll, FlowEventView::CacheRead(Err(err))) => (
            BuildPhaseView::Done,
            BuildActionView::Finish(Err(err)),
        ),
        (BuildPhaseView::AwaitPoll, FlowEventView::CacheRead(Ok(Some(entry)))) => (
            BuildPhaseView::AwaitPollObject(entry),
            BuildActionView::StorageGet(entry.s3_key),
        ),
        (BuildPhaseView::AwaitPoll, FlowEventView::CacheRead(Ok(None))) => try_lock(s),
        (BuildPhaseView::AwaitPollObject(entry), FlowEventView::ObjectRead(Ok(bytes))) => (
            BuildPhaseView::Done,
            BuildActionView::Finish(Ok(loaded_value(entry, bytes, format))),
        ),
        (BuildPhaseView::AwaitPollObject(_), FlowEventView::ObjectRead(Err(err))) => if err is NotFound {
            try_lock(s)
        } else {
            (BuildPhaseView::Done, BuildActionView::Finish(Err(err)))
        },
        (BuildPhaseView::AwaitLock, FlowEventView::LockAttempt { acquired, deadline_reached }) => match acquired {
            Err(err) => (BuildPhaseView::Done, BuildActionView::Finish(Err(err))),
            Ok(true) => (BuildPhaseView::AwaitRecheck, BuildActionView::CacheGet(s.order.cache_key)),
            Ok(false) => if deadline_reached {
                (BuildPhaseView::Done, BuildActionView::Finish(Err(timeout_error())))
            } else {
                (BuildPhaseView::AwaitSleep, BuildActionView::Sleep(BUILD_WAIT_POLL_INTERVAL_MS))
            },
        },
        (BuildPhaseView::AwaitSleep, FlowEventView::Slept) => (
            BuildPhaseView::AwaitPoll,
            BuildActionView::CacheGet(s.order.cache_key),
        ),
        (BuildPhaseView::AwaitRecheck, FlowEventView::CacheRead(Err(err))) => release(s, Err(err)),
        (BuildPhaseView::AwaitRecheck, FlowEventView::CacheRead(Ok(Some(entry)))) => (
            BuildPhaseView::AwaitRecheckObject(entry),
            BuildActionView::StorageGet(entry.s3_key),
        ),
        (BuildPhaseView::AwaitRecheck, FlowEventView::CacheRead(Ok(None))) => fetch_source(s),
        (BuildPhaseView::AwaitRecheckObject(entry), FlowEventView::ObjectRead(Ok(bytes))) => release(
            s,
            Ok(loaded_value(entry, bytes, format)),
        ),
        (BuildPhaseView::AwaitRecheckObject(_), FlowEventView::ObjectRead(Err(err))) => if err is NotFound {
            fetch_source(s)
        } else {
            release(s, Err(err))
        },
        (BuildPhaseView::AwaitSource, FlowEventView::ObjectRead(Err(err))) => release(s, Err(err)),
        (BuildPhaseView::AwaitSource, FlowEventView::ObjectRead(Ok(source))) => if source.len() > MAX_IMAGE_FILE_SIZE {
            release(s, Err(AppErrorView::PayloadTooLarge(file_too_large_message())))
        } else {
            (
                BuildPhaseView::AwaitProcessed,
                BuildActionView::Process { source, transformations: s.order.transformations },
            )
        },
        (BuildPhaseView::AwaitProcessed, FlowEventView::Processed(Err(err))) => release(s, Err(err)),
        (BuildPhaseView::AwaitProcessed, FlowEventView::Processed(Ok(output))) => (
            BuildPhaseView::AwaitUpload(output),
            BuildActionView::Upload { key: s.order.cache_path_key, bytes: output, content_type: content_type_of(format) },
        ),
        (BuildPhaseView::AwaitUpload(_), FlowEventView::Uploaded(Err(err))) => release(s, Err(err)),
        (BuildPhaseView::AwaitUpload(output), FlowEventView::Uploaded(Ok(_))) => (
            BuildPhaseView::AwaitRecord(output),
            BuildActionView::CacheSet {
                key: s.order.cache_key,
                entry: fresh_entry(s.order.cache_path_key, output.len() as u64, format),
            },
        ),
        (BuildPhaseView::AwaitRecord(_), FlowEventView::CacheWritten(Err(err))) => release(s, Err(err)),
        (BuildPhaseView::AwaitRecord(output), FlowEventView::CacheWritten(Ok(_))) => release(
            s,
            Ok(built_value(output, format)),
        ),
        (BuildPhaseView::AwaitRelease(r), FlowEventView::Released) => (
            BuildPhaseView::Done,
            BuildActionView::Finish(r),
        ),
        _ => (s.phase, arbitrary()),
    }
}

impl BuildFlow {
    /// Starts the build of `order` under the lock owner id `owner`: its
    /// first action polls the cache.
    pub fn new(order: BuildOrder, owner: String) -> (r: (BuildFlow, BuildAction))
        ensures
            r.0@ == (BuildView { order: order@, owner: owner@, phase: BuildPhaseView::AwaitPoll }),
            r.1@ == BuildActionView::CacheGet(order.cache_key@),
    {
        let action = BuildAction::CacheGet(copy_string(&order.cache_key));
        (BuildFlow { order, owner, phase: BuildPhase::AwaitPoll }, action)
    }

    /// Whether the build expects the event `e`.
    pub fn accepts(&self, e: &FlowEvent) -> (b: bool)
        ensures
            b == build_accepts(self@.phase, e@),
    {
        match (&self.phase, e) {
            (BuildPhase::AwaitPoll, FlowEvent::CacheRead(_)) => true,
            (BuildPhase::AwaitRecheck, FlowEvent::CacheRead(_)) => true,
            (BuildPhase::AwaitPollObject(_), FlowEvent::ObjectRead(_)) => true,
            (BuildPhase::AwaitRecheckObject(_), FlowEvent::ObjectRead(_)) => true,
            (BuildPhase::AwaitSource, FlowEvent::ObjectRead(_)) => true,
            (BuildPhase::AwaitLock, FlowEvent::LockAttempt { .. }) => true,
            (BuildPhase::AwaitSleep, FlowEvent::Slept) => true,
            (BuildPhase::AwaitProcessed, FlowEvent::Processed(_)) => true,
            (BuildPhase::AwaitUpload(_), FlowEvent::Uploaded(_)) => true,
            (BuildPhase::AwaitRecord(_), FlowEvent::CacheWritten(_)) => true,
            (BuildPhase::AwaitRelease(_), FlowEvent::Released) => true,
            _ => false,
        }
    }

    /// Takes the outcome of the last action and says what to do next.
    pub fn step(&mut self, event: FlowEvent) -> (a: BuildAction)
        requires
            build_accepts(old(self)@.phase, event@),
        ensures
            final(self)@.order == old(self)@.order,
            final(self)@.owner == old(self)@.owner,
            final(self)@.phase == build_next(old(self)@, event@).0,
            a@ == build_next(old(self)@, event@).1,
    {
        let ghost before = self@;
        let mut phase = BuildPhase::Done;
        std::mem::swap(&mut phase, &mut self.phase);
        assert(before.phase == phase@);
        let (next, action) = self.advance(phase, event);
        self.phase = next;
        action
    }

    /// Releasing the lock before finishing with `result`.
    fn release(&self, result: Result<SharedValue, AppError>) -> (r: (BuildPhase, BuildAction))
        ensures
            (r.0@, r.1@) == release(
                self@,
                match result {
                    Ok(v) => Ok(v@),
                    Err(e) => Err(e@),
                },
            ),
    {
        let action = BuildAction::ReleaseLock { key: copy_string(&self.order.lock_key), owner: copy_string(&self.owner) };
        (BuildPhase::AwaitRelease(result), action)
    }

    /// Trying to take the build lock.
    fn try_lock(&self) -> (r: (BuildPhase, BuildAction))
        ensures
            (r.0@, r.1@) == try_lock(self@),
    {
        let action = BuildAction::TryLock {
            key: copy_string(&self.order.lock_key),
            owner: copy_string(&self.owner),
            ttl_secs: BUILD_LOCK_TTL_SECS,
        };
        (BuildPhase::AwaitLock, action)
    }

    /// Downloading the source image.
    fn fetch_source(&self) -> (r: (BuildPhase, BuildAction))
        ensures
            (r.0@, r.1@) == fetch_source(self@),
    {
        (BuildPhase::AwaitSource, BuildAction::StorageGet(copy_string(&self.order.image_path)))
    }

    /// The transition out of `phase` on `event`; `self.phase` is not read.
    #[verifier::rlimit(40)]
    fn advance(&self, phase: BuildPhase, event: FlowEvent) -> (r: (BuildPhase, BuildAction))
        requires
            build_accepts(phase@, event@),
        ensures
            (r.0@, r.1@) == build_next(BuildView { phase: phase@, ..self@ }, event@),
    {
        let ghost s = BuildView { phase: phase@, ..self@ };
        let format = self.order.format;
        match phase {
            BuildPhase::AwaitPoll => match event {
                FlowEvent::CacheRead(Err(err)) => (BuildPhase::Done, BuildAction::Finish(Err(err))),
                FlowEvent::CacheRead(Ok(Some(entry))) => {
                    let key = copy_string(&entry.s3_key);
                    (BuildPhase::AwaitPollObject(entry), BuildAction::StorageGet(key))
                },
                FlowEvent::CacheRead(Ok(None)) => self.try_lock(),
                _ => {
                    assert(false);
                    (BuildPhase::Done, BuildAction::Finish(Err(AppError::NotFound)))
                },
            },
            BuildPhase::AwaitRecheck => match event {
                FlowEvent::CacheRead(Err(err)) => self.release(Err(err)),
                FlowEvent::CacheRead(Ok(Some(entry))) => {
                    let key = copy_string(&entry.s3_key);
                    (BuildPhase::AwaitRecheckObject(entry), BuildAction::StorageGet(key))
                },
                FlowEvent::CacheRead(Ok(None)) => self.fetch_source(),
                _ => {
                    assert(false);
                    (BuildPhase::Done, BuildAction::Finish(Err(AppError::NotFound)))
                },
            },
            BuildPhase::AwaitPollObject(entry) => match event {
                FlowEvent::ObjectRead(Ok(bytes)) => (
                    BuildPhase::Done,
                    BuildAction::Finish(Ok(shared_loaded(&entry, bytes, format))),
                ),
                FlowEvent::ObjectRead(Err(err)) => {
                    if err.is_not_found() {
                        self.try_lock()
                    } else {
                        (BuildPhase::Done, BuildAction::Finish(Err(err)))
                    }
                },
                _ => {
                    assert(false);
                    (BuildPhase::Done, BuildAction::Finish(Err(AppError::NotFound)))
                },
            },
            BuildPhase::AwaitRecheckObject(entry) => match event {
                FlowEvent::ObjectRead(Ok(bytes)) => self.release(Ok(shared_loaded(&entry, bytes, format))),
                FlowEvent::ObjectRead(Err(err)) => {
                    if err.is_not_found() {
                        self.fetch_source()
                    } else {
                        self.release(Err(err))
                    }
                },
                _ => {
                    assert(false);
                    (BuildPhase::Done, BuildAction::Finish(Err(AppError::NotFound)))
                },
            },
            BuildPhase::AwaitLock => match event {
                FlowEvent::LockAttempt { acquired: Err(err), .. } => (
                    BuildPhase::Done,
                    BuildAction::Finish(Err(err)),
                ),
                FlowEvent::LockAttempt { acquired: Ok(acquired), deadline_reached } => {
                    match after_lock_attempt(acquired, deadline_reached) {
                        WaitAction::Build => (
                            BuildPhase::AwaitRecheck,
                            BuildAction::CacheGet(copy_string(&self.order.cache_key)),
                        ),
                        WaitAction::GiveUp => (BuildPhase::Done, BuildAction::Finish(Err(wait_timeout_error()))),
                        WaitAction::Sleep => (BuildPhase::AwaitSleep, BuildAction::Sleep(BUILD_WAIT_POLL_INTERVAL_MS)),
                    }
                },
                _ => {
                    assert(false);
                    (BuildPhase::Done, BuildAction::Finish(Err(AppError::NotFound)))
                },
            },
            BuildPhase::AwaitSleep => (BuildPhase::AwaitPoll, BuildAction::CacheGet(copy_string(&self.order.cache_key))),
            BuildPhase::AwaitSource => match event {
                FlowEvent::ObjectRead(Err(err)) => self.release(Err(err)),
                FlowEvent::ObjectRead(Ok(source)) => match check_source_size(source.len()) {
                    Err(err) => self.release(Err(err)),
                    Ok(()) => (
                        BuildPhase::AwaitProcessed,
                        BuildAction::Process { source, transformations: self.order.transformations.duplicate() },
                    ),
                },
                _ => {
                    assert(false);
                    (BuildPhase::Done, BuildAction::Finish(Err(AppError::NotFound)))
                },
            },
            BuildPhase::AwaitProcessed => match event {
                FlowEvent::Processed(Err(err)) => self.release(Err(err)),
                FlowEvent::Processed(Ok(output)) => {
                    let chars = chars_of(format.content_type());
                    let action = BuildAction::Upload {
                        key: copy_string(&self.order.cache_path_key),
                        bytes: copy_bytes(&output),
                        content_type: string_from_chars(chars.as_slice()),
                    };
                    (BuildPhase::AwaitUpload(output), action)
                },
                _ => {
                    assert(false);
                    (BuildPhase::Done, BuildAction::Finish(Err(AppError::NotFound)))
                },
            },
            BuildPhase::AwaitUpload(output) => match event {
                FlowEvent::Uploaded(Err(err)) => self.release(Err(err)),
                FlowEvent::Uploaded(Ok(())) => {
                    let entry = stored_entry(self.order.cache_path_key.as_str(), output.len() as u64, format);
                    let action = BuildAction::CacheSet { key: copy_string(&self.order.cache_key), entry };
                    (BuildPhase::AwaitRecord(output), action)
                },
                _ => {
                    assert(false);
                    (BuildPhase::Done, BuildAction::Finish(Err(AppError::NotFound)))
                },
            },
            BuildPhase::AwaitRecord(output) => match event {
                FlowEvent::CacheWritten(Err(err)) => self.release(Err(err)),
                FlowEvent::CacheWritten(Ok(())) => self.release(Ok(shared_built(output, format))),
                _ => {
                    assert(false);
                    (BuildPhase::Done, BuildAction::Finish(Err(AppError::NotFound)))
                },
            },
            BuildPhase::AwaitRelease(result) => (BuildPhase::Done, BuildAction::Finish(result)),
            BuildPhase::Done => {
                assert(false);
                (BuildPhase::Done, BuildAction::Finish(Err(AppError::NotFound)))
            },
        }
    }
}

// ---------------------------------------------------------------------------
// Serving a request
// ---------------------------------------------------------------------------

/// Where the serving of a request stands.
pub enum ServePhase {
    /// Looking the transform up in the cache.
    AwaitLookup,
    /// A `HEAD` hit without a stored size: reading the object's metadata.
    AwaitHead(CacheEntry),
    /// A `GET` hit: downloading the object.
    AwaitFetch(CacheEntry),
    /// Storing completed metadata back; the answer follows.
    AwaitRefresh(RenderedImage),
    /// Waiting for the coalesced build.
    AwaitShared,
    /// Finished.
    Done,
}

/// The mathematical content of a [`ServePhase`].
pub enum ServePhaseView {
    AwaitLookup,
    AwaitHead(CacheEntryView),
    AwaitFetch(CacheEntryView),
    AwaitRefresh(RenderedImageView),
    AwaitShared,
    Done,
}

impl View for ServePhase {
    type V = ServePhaseView;

    open spec fn view(&self) -> ServePhaseView {
        match self {
            ServePhase::AwaitLookup => ServePhaseView::AwaitLookup,
            ServePhase::AwaitHead(e) => ServePhaseView::AwaitHead(e@),
            ServePhase::AwaitFetch(e) => ServePhaseView::AwaitFetch(e@),
            ServePhase::AwaitRefresh(i) => ServePhaseView::AwaitRefresh(i@),
            ServePhase::AwaitShared => ServePhaseView::AwaitShared,
            ServePhase::Done => ServePhaseView::Done,
        }
    }
}

/// What serving a request asks its caller to do.
pub enum ServeAction {
    /// Read the metadata stored under a Redis key.
    CacheGet(String),
    /// Read the metadata of an S3 object, without its body.
    StorageHead(String),
    /// Download an S3 object.
    StorageGet(String),
    /// Store metadata under a Redis key; the outcome does not change the
    /// answer.
    CacheSet { key: String, entry: CacheEntry },
    /// Join the build of this order, coalesced on its `cache_path_key`.
    Coalesce(BuildOrder),
    /// The request is answered.
    Finish(Result<RenderedImage, AppError>),
}

/// The mathematical content of a [`ServeAction`].
pub enum ServeActionView {
    CacheGet(Seq<char>),
    StorageHead(Seq<char>),
    StorageGet(Seq<char>),
    CacheSet { key: Seq<char>, entry: CacheEntryView },
    Coalesce(BuildOrderView),
    Finish(Result<RenderedImageView, AppErrorView>),
}

impl View for ServeAction {
    type V = ServeActionView;

    open spec fn view(&self) -> ServeActionView {
        match self {
            ServeAction::CacheGet(k) => ServeActionView::CacheGet(k@),
            ServeAction::StorageHead(k) => ServeActionView::StorageHead(k@),
            ServeAction::StorageGet(k) => ServeActionView::StorageGet(k@),
            ServeAction::CacheSet { key, entry } => ServeActionView::CacheSet { key: key@, entry: entry@ },
            ServeAction::Coalesce(o) => ServeActionView::Coalesce(o@),
            ServeAction::Finish(r) => ServeActionView::Finish(
                match r {
                    Ok(i) => Ok(i@),
                    Err(e) => Err(e@),
                },
            ),
        }
    }
}

/// The serving of one request.
pub struct ServeFlow {
    head_only: bool,
    order: BuildOrder,
    phase: ServePhase,
}

/// The mathematical content of a [`ServeFlow`].
pub struct ServeView {
    pub head_only: bool,
    pub order: BuildOrderView,
    pub phase: ServePhaseView,
}

impl View for ServeFlow {
    type V = ServeView;

    closed spec fn view(&self) -> ServeView {
        ServeView { head_only: self.head_only, order: self.order@, phase: self.phase@ }
    }
}

/// Whether serving in `phase` expects the event `e`.
pub open spec fn serve_accepts(phase: ServePhaseView, e: FlowEventView) -> bool {
    match phase {
        ServePhaseView::AwaitLookup => e is CacheRead,
        ServePhaseView::AwaitHead(_) => e is ObjectHead,
        ServePhaseView::AwaitFetch(_) => e is ObjectRead,
        ServePhaseView::AwaitRefresh(_) => e is CacheWritten,
        ServePhaseView::AwaitShared => e is Shared,
        ServePhaseView::Done => false,
    }
}

/// Joining the coalesced build.
pub open spec fn coalesce(s: ServeView) -> (ServePhaseView, ServeActionView) {
    (ServePhaseView::AwaitShared, ServeActionView::Coalesce(s.order))
}

/// Answering the request.
pub open spec fn answer(r: Result<RenderedImageView, AppErrorView>) -> (ServePhaseView, ServeActionView) {
    (ServePhaseView::Done, ServeActionView::Finish(r))
}

/// The next phase and action of serving in state `s` on `e`.
///
/// A cache hit is served from storage: a `HEAD` from the stored metadata
/// when it records the size, else from the object's metadata (storing the
/// completed entry back), never by downloading the object; a `GET` by
/// downloading it (storing back an entry that lacked its size or content
/// type). A miss, or a marker whose object is gone, joins the coalesced
/// build, whose result answers the request (without a body for `HEAD`).
/// Any other failure answers the request with that error.
pub open spec fn serve_next(s: ServeView, e: FlowEventView) -> (ServePhaseView, ServeActionView) {
    let format = s.order.format;
    match (s.phase, e) {
        (ServePhaseView::AwaitLookup, FlowEventView::CacheRead(Err(err))) => answer(Err(err)),
        (ServePhaseView::AwaitLookup, FlowEventView::CacheRead(Ok(None))) => coalesce(s),
        (ServePhaseView::AwaitLookup, FlowEventView::CacheRead(Ok(Some(entry)))) => if s.head_only {
            match head_from_metadata(entry, format) {
                Some(image) => answer(Ok(image)),
                None => (ServePhaseView::AwaitHead(entry), ServeActionView::StorageHead(entry.s3_key)),
            }
        } else {
            (ServePhaseView::AwaitFetch(entry), ServeActionView::StorageGet(entry.s3_key))
        },
        (ServePhaseView::AwaitHead(entry), FlowEventView::ObjectHead(Ok(meta))) => (
            ServePhaseView::AwaitRefresh(head_answer(entry, meta, format)),
            ServeActionView::CacheSet { key: s.order.cache_key, entry: head_refresh(entry, meta, format) },
        ),
        (ServePhaseView::AwaitHead(_), FlowEventView::ObjectHead(Err(err))) => if err is NotFound {
            coalesce(s)
        } else {
            answer(Err(err))
        },
        (ServePhaseView::AwaitFetch(entry), FlowEventView::ObjectRead(Ok(bytes))) => if needs_backfill(entry) {
            (
                ServePhaseView::AwaitRefresh(fetched_answer(entry, bytes, format)),
                ServeActionView::CacheSet { key: s.order.cache_key, entry: backfilled(entry, bytes, format) },
            )
        } else {
            answer(Ok(fetched_answer(entry, bytes, format)))
        },
        (ServePhaseView::AwaitFetch(_), FlowEventView::ObjectRead(Err(err))) => if err is NotFound {
            coalesce(s)
        } else {
            answer(Err(err))
        },
        (ServePhaseView::AwaitRefresh(image), FlowEventView::CacheWritten(_)) => answer(Ok(image)),
        (ServePhaseView::AwaitShared, FlowEventView::Shared(Err(err))) => answer(Err(err)),
        (ServePhaseView::AwaitShared, FlowEventView::Shared(Ok(v))) => answer(Ok(answer_of_shared(v, s.head_only))),
        _ => (s.phase, arbitrary()),
    }
}

impl ServeFlow {
    /// Starts serving `request`: a refused transform is answered at once
    /// (as the `Err`), anything else first looks the transform up in the
    /// cache.
    pub fn start(request: &RenderImageRequest, config: &Config) -> (r: Result<(ServeFlow, ServeAction), AppError>)
        ensures
            match planned(request.image_path@, opt_str_view(request.transform_query), *config) {
                Err(e) => r matches Err(err) && err@ == e,
                Ok(order) => r matches Ok((flow, action)) && flow@ == (ServeView {
                    head_only: request.head_only,
                    order,
                    phase: ServePhaseView::AwaitLookup,
                }) && action@ == ServeActionView::CacheGet(order.cache_key),
            },
    {
        let order = match plan_request(request, config) {
            Ok(o) => o,
            Err(e) => return Err(e),
        };
        let action = ServeAction::CacheGet(copy_string(&order.cache_key));
        Ok((ServeFlow { head_only: request.head_only, order, phase: ServePhase::AwaitLookup }, action))
    }

    /// Whether serving expects the event `e`.
    pub fn accepts(&self, e: &FlowEvent) -> (b: bool)
        ensures
            b == serve_accepts(self@.phase, e@),
    {
        match (&self.phase, e) {
            (ServePhase::AwaitLookup, FlowEvent::CacheRead(_)) => true,
            (ServePhase::AwaitHead(_), FlowEvent::ObjectHead(_)) => true,
            (ServePhase::AwaitFetch(_), FlowEvent::ObjectRead(_)) => true,
            (ServePhase::AwaitRefresh(_), FlowEvent::CacheWritten(_)) => true,
            (ServePhase::AwaitShared, FlowEvent::Shared(_)) => true,
            _ => false,
        }
    }

    /// Takes the outcome of the last action and says what to do next.
    pub fn step(&mut self, event: FlowEvent) -> (a: ServeAction)
        requires
            serve_accepts(old(self)@.phase, event@),
        ensures
            final(self)@.head_only == old(self)@.head_only,
            final(self)@.order == old(self)@.order,
            final(self)@.phase == serve_next(old(self)@, event@).0,
            a@ == serve_next(old(self)@, event@).1,
    {
        let ghost before = self@;
        let mut phase = ServePhase::Done;
        std::mem::swap(&mut phase, &mut self.phase);
        assert(before.phase == phase@);
        let (next, action) = self.advance(phase, event);
        self.phase = next;
        action
    }

    /// Joining the coalesced build.
    fn coalesce(&self) -> (r: (ServePhase, ServeAction))
        ensures
            (r.0@, r.1@) == coalesce(self@),
    {
        (ServePhase::AwaitShared, ServeAction::Coalesce(self.order.duplicate()))
    }

    /// The transition out of `phase` on `event`; `self.phase` is not read.
    #[verifier::rlimit(40)]
    fn advance(&self, phase: ServePhase, event: FlowEvent) -> (r: (ServePhase, ServeAction))
        requires
            serve_accepts(phase@, event@),
        ensures
            (r.0@, r.1@) == serve_next(ServeView { phase: phase@, ..self@ }, event@),
    {
        let format = self.order.format;
        match phase {
            ServePhase::AwaitLookup => match event {
                FlowEvent::CacheRead(Err(err)) => (ServePhase::Done, ServeAction::Finish(Err(err))),
                FlowEvent::CacheRead(Ok(None)) => self.coalesce(),
                FlowEvent::CacheRead(Ok(Some(entry))) => match cached_step(self.head_only, &entry, format) {
                    CachedStep::Respond(image) => (ServePhase::Done, ServeAction::Finish(Ok(image))),
                    CachedStep::HeadObject(key) => (ServePhase::AwaitHead(entry), ServeAction::StorageHead(key)),
                    CachedStep::Fetch(key) => (ServePhase::AwaitFetch(entry), ServeAction::StorageGet(key)),
                },
                _ => {
                    assert(false);
                    (ServePhase::Done, ServeAction::Finish(Err(AppError::NotFound)))
                },
            },
            ServePhase::AwaitHead(entry) => match event {
                FlowEvent::ObjectHead(Ok(meta)) => {
                    let (image, refreshed) = head_from_object(&entry, &meta, format);
                    (
                        ServePhase::AwaitRefresh(image),
                        ServeAction::CacheSet { key: copy_string(&self.order.cache_key), entry: refreshed },
                    )
                },
                FlowEvent::ObjectHead(Err(err)) => {
                    if err.is_not_found() {
                        self.coalesce()
                    } else {
                        (ServePhase::Done, ServeAction::Finish(Err(err)))
                    }
                },
                _ => {
                    assert(false);
                    (ServePhase::Done, ServeAction::Finish(Err(AppError::NotFound)))
                },
            },
            ServePhase::AwaitFetch(entry) => match event {
                FlowEvent::ObjectRead(Ok(bytes)) => {
                    let (image, backfill) = fetched(&entry, bytes, format);
                    match backfill {
                        Some(refreshed) => (
                            ServePhase::AwaitRefresh(image),
                            ServeAction::CacheSet { key: copy_string(&self.order.cache_key), entry: refreshed },
                        ),
                        None => (ServePhase::Done, ServeAction::Finish(Ok(image))),
                    }
                },
                FlowEvent::ObjectRead(Err(err)) => {
                    if err.is_not_found() {
                        self.coalesce()
                    } else {
                        (ServePhase::Done, ServeAction::Finish(Err(err)))
                    }
                },
                _ => {
                    assert(false);
                    (ServePhase::Done, ServeAction::Finish(Err(AppError::NotFound)))
                },
            },
            ServePhase::AwaitRefresh(image) => (ServePhase::Done, ServeAction::Finish(Ok(image))),
            ServePhase::AwaitShared => match event {
                FlowEvent::Shared(Err(err)) => (ServePhase::Done, ServeAction::Finish(Err(err))),
                FlowEvent::Shared(Ok(v)) => (
                    ServePhase::Done,
                    ServeAction::Finish(Ok(rendered_from_shared(&v, self.head_only))),
                ),
                _ => {
                    assert(false);
                    (ServePhase::Done, ServeAction::Finish(Err(AppError::NotFound)))
                },
            },
            ServePhase::Done => {
                assert(false);
                (ServePhase::Done, ServeAction::Finish(Err(AppError::NotFound)))
            },
        }
    }
}

// ---------------------------------------------------------------------------
// Laws
// ---------------------------------------------------------------------------

/// The build lock is held from the moment it is taken until the build asks
/// to release it, and a build never finishes while holding it: every
/// outcome after taking the lock, failures included, releases the lock
/// (under the lock's key and the build's owner id) before the result is
/// returned.
pub proof fn lemma_build_lock_discipline(s: BuildView, e: FlowEventView)
    requires
        build_accepts(s.phase, e),
    ensures
        ({
            let (p, a) = build_next(s, e);
            &&& a is Finish ==> !holds_lock(s.phase)
            &&& holds_lock(s.phase) ==> (holds_lock(p) || (p is AwaitRelease && a == BuildActionView::ReleaseLock {
                key: s.order.lock_key,
                owner: s.owner,
            }))
            &&& (!holds_lock(s.phase) && holds_lock(p)) ==> (s.phase is AwaitLock && e matches FlowEventView::LockAttempt {
                acquired: Ok(true),
                ..
            })
            &&& a is ReleaseLock ==> holds_lock(s.phase)
            &&& s.phase is AwaitRelease ==> p is Done
        }),
{
}

/// Processing, uploading and recording a transform happen only while the
/// build holds the lock, so two instances never build the same transform
/// at once.
pub proof fn lemma_build_work_under_lock(s: BuildView, e: FlowEventView)
    requires
        build_accepts(s.phase, e),
    ensures
        ({
            let (p, a) = build_next(s, e);
            (a is Process || a is Upload || a is CacheSet) ==> holds_lock(s.phase) && holds_lock(p)
        }),
{
}

/// A source above [`MAX_IMAGE_FILE_SIZE`] bytes is never processed, and
/// what is processed is the downloaded source with the order's
/// transformations.
pub proof fn lemma_build_source_limit(s: BuildView, e: FlowEventView)
    requires
        build_accepts(s.phase, e),
    ensures
        ({
            let (p, a) = build_next(s, e);
            a matches BuildActionView::Process { source, transformations } ==> {
                &&& source.len() <= MAX_IMAGE_FILE_SIZE
                &&& transformations == s.order.transformations
                &&& e == FlowEventView::ObjectRead(Ok(source))
                &&& s.phase is AwaitSource
            }
        }),
{
}

/// The output is uploaded under the transform's S3 key before its metadata
/// is recorded; the metadata names that key with the output's length and
/// the format's content type, and the bytes handed to the waiters are the
/// uploaded ones.
pub proof fn lemma_build_records_after_upload(s: BuildView, e: FlowEventView)
    requires
        build_accepts(s.phase, e),
    ensures
        ({
            let (p, a) = build_next(s, e);
            &&& a matches BuildActionView::Upload { key, bytes, content_type } ==> {
                &&& key == s.order.cache_path_key
                &&& content_type == content_type_of(s.order.format)
                &&& p == BuildPhaseView::AwaitUpload(bytes)
            }
            &&& a matches BuildActionView::CacheSet { key, entry } ==> {
                &&& e matches FlowEventView::Uploaded(Ok(_))
                &&& key == s.order.cache_key
                &&& s.phase matches BuildPhaseView::AwaitUpload(output) && p == BuildPhaseView::AwaitRecord(output)
                    && entry == fresh_entry(s.order.cache_path_key, output.len() as u64, s.order.format)
            }
            &&& s.phase matches BuildPhaseView::AwaitRecord(output) ==> (e is CacheWritten && e->CacheWritten_0 is Ok
                ==> p == BuildPhaseView::AwaitRelease(Ok(built_value(output, s.order.format))))
        }),
{
}

/// A waiter without the lock sleeps and polls again until the wait is
/// over, and only then gives up.
pub proof fn lemma_build_waits_until_deadline(s: BuildView, e: FlowEventView)
    requires
        build_accepts(s.phase, e),
    ensures
        ({
            let (p, a) = build_next(s, e);
            &&& a is Sleep ==> a == BuildActionView::Sleep(BUILD_WAIT_POLL_INTERVAL_MS) && e
                == FlowEventView::LockAttempt { acquired: Ok(false), deadline_reached: false }
            &&& e matches FlowEventView::LockAttempt { acquired: Ok(false), deadline_reached } ==> (if deadline_reached {
                a == BuildActionView::Finish(Err(timeout_error()))
            } else {
                p is AwaitSleep
            })
            &&& s.phase is AwaitSleep ==> p is AwaitPoll && a == BuildActionView::CacheGet(s.order.cache_key)
        }),
{
}

/// A source of at most 20 MiB is processed as downloaded, with the order's
/// transformations; only a larger one is refused (and then as too large,
/// releasing the lock first).
pub proof fn lemma_build_processes_sources_within_limit(s: BuildView, source: Seq<u8>)
    requires
        s.phase == BuildPhaseView::AwaitSource,
    ensures
        ({
            let (p, a) = build_next(s, FlowEventView::ObjectRead(Ok(source)));
            &&& source.len() <= 20 * 1024 * 1024 ==> p == BuildPhaseView::AwaitProcessed && a
                == (BuildActionView::Process { source, transformations: s.order.transformations })
            &&& source.len() > 20 * 1024 * 1024 ==> (a == (BuildActionView::ReleaseLock {
                key: s.order.lock_key,
                owner: s.owner,
            }) && p matches BuildPhaseView::AwaitRelease(Err(AppErrorView::PayloadTooLarge(_))))
        }),
{
}

/// A `GET` served from a downloaded object answers with exactly the
/// downloaded bytes and their length, whether or not the stored entry was
/// complete; only the content type comes from the entry (or the format).
pub proof fn lemma_get_hit_serves_downloaded_bytes(s: ServeView, entry: CacheEntryView, bytes: Seq<u8>)
    requires
        s.phase == ServePhaseView::AwaitFetch(entry),
        bytes.len() <= u64::MAX,
    ensures
        ({
            let (p, a) = serve_next(s, FlowEventView::ObjectRead(Ok(bytes)));
            let image = match (p, a) {
                (ServePhaseView::AwaitRefresh(i), _) => i,
                (_, ServeActionView::Finish(Ok(i))) => i,
                _ => arbitrary(),
            };
            &&& (p is AwaitRefresh || a matches ServeActionView::Finish(Ok(_)))
            &&& image.body == Some(bytes)
            &&& image.content_length as int == bytes.len()
            &&& image.content_type == match entry.content_type {
                Some(ct) => ct,
                None => content_type_of(s.order.format),
            }
        }),
{
}

/// Whether `image` answers a request of the given method: a `HEAD` answer
/// carries no body, a `GET` answer carries one whose length it reports.
pub open spec fn answer_fits(head_only: bool, image: RenderedImageView) -> bool {
    if head_only {
        image.body is None
    } else {
        image.body matches Some(b) && image.content_length == b.len() as u64
    }
}

/// What holds of every state of a serving: a pending answer fits the
/// method, a `HEAD` never waits for a download and a `GET` never for an
/// object's metadata alone.
pub open spec fn serve_wf(s: ServeView) -> bool {
    &&& s.phase matches ServePhaseView::AwaitRefresh(image) ==> answer_fits(s.head_only, image)
    &&& s.head_only ==> !(s.phase is AwaitFetch)
    &&& !s.head_only ==> !(s.phase is AwaitHead)
}

/// Serving keeps [`serve_wf`]; a `HEAD` never downloads a cached object,
/// and reads an object's metadata only for a marker that lacks its size;
/// every successful answer fits the method.
pub proof fn lemma_serve_answers_fit(s: ServeView, e: FlowEventView)
    requires
        serve_wf(s),
        serve_accepts(s.phase, e),
    ensures
        ({
            let (p, a) = serve_next(s, e);
            &&& serve_wf(ServeView { phase: p, ..s })
            &&& s.head_only ==> !(a is StorageGet)
            &&& a matches ServeActionView::StorageHead(key) ==> {
                &&& s.head_only
                &&& e matches FlowEventView::CacheRead(Ok(Some(entry))) && entry.size is None && key == entry.s3_key
            }
            &&& a matches ServeActionView::Finish(Ok(image)) ==> answer_fits(s.head_only, image)
        }),
{
}

/// A cached marker whose object is gone is answered by joining a build of
/// the transform, as a cache miss is.
pub proof fn lemma_missing_object_rebuilds(s: ServeView, e: FlowEventView)
    requires
        serve_accepts(s.phase, e),
        e == FlowEventView::ObjectRead(Err(AppErrorView::NotFound)) || e == FlowEventView::ObjectHead(
            Err(AppErrorView::NotFound),
        ) || e == FlowEventView::CacheRead(Ok(None)),
    ensures
        serve_next(s, e) == coalesce(s),
{
}

} // verus!

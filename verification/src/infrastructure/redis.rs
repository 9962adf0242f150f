//! Redis key layout for transformed-image metadata and build locks.

use vstd::prelude::*;

use crate::text::{chars_of, push_str, string_from_chars};

verus! {

/// Prefix applied to transformed-image metadata keys.
pub const CACHE_PREFIX: &'static str = "cache:";

/// Prefix applied to single-flight build locks.
pub const LOCK_PREFIX: &'static str = "lock:";

/// The Redis key of the metadata of a cached transform.
pub fn cache_key(cache_path_key: &str) -> (k: String)
    ensures
        k@ == CACHE_PREFIX@ + cache_path_key@,
{
    let mut out = chars_of(CACHE_PREFIX);
    push_str(&mut out, cache_path_key);
    string_from_chars(out.as_slice())
}

/// The Redis key of the build lock of a cached transform.
pub fn lock_key(cache_path_key: &str) -> (k: String)
    ensures
        k@ == LOCK_PREFIX@ + cache_path_key@,
{
    let mut out = chars_of(LOCK_PREFIX);
    push_str(&mut out, cache_path_key);
    string_from_chars(out.as_slice())
}

/// The `SCAN` pattern matching every metadata key.
pub fn scan_pattern() -> (p: String)
    ensures
        p@ == CACHE_PREFIX@ + seq!['*'],
{
    let mut out = chars_of(CACHE_PREFIX);
    out.push('*');
    string_from_chars(out.as_slice())
}

} // verus!

//! Metadata associated with a transformed image in the cache.

use vstd::prelude::*;

use crate::text::{chars_of, string_from_chars};

verus! {

/// Metadata for a cached transform stored in Redis.
///
/// Older deployments stored only the S3 key as a plain string; [`Self::parse`]
/// accepts both representations.
#[derive(Debug, PartialEq, Eq)]
pub struct CacheEntry {
    /// S3 object key of the transformed image.
    pub s3_key: String,
    /// Byte length of the transformed object, when known.
    pub size: Option<u64>,
    /// Content type of the transformed object, when known.
    pub content_type: Option<String>,
}

/// The mathematical content of a [`CacheEntry`].
pub struct CacheEntryView {
    pub s3_key: Seq<char>,
    pub size: Option<u64>,
    pub content_type: Option<Seq<char>>,
}

impl View for CacheEntry {
    type V = CacheEntryView;

    open spec fn view(&self) -> CacheEntryView {
        CacheEntryView {
            s3_key: self.s3_key@,
            size: self.size,
            content_type: opt_string_view(self.content_type),
        }
    }
}

/// The view of an optional string.
pub open spec fn opt_string_view(s: Option<String>) -> Option<Seq<char>> {
    match s {
        Some(s) => Some(s@),
        None => None,
    }
}

/// Copies a string.
pub fn copy_string(s: &String) -> (r: String)
    ensures
        r@ == s@,
{
    let chars = chars_of(s.as_str());
    string_from_chars(chars.as_slice())
}

impl CacheEntry {
    /// Builds a fully populated entry for a freshly written transform.
    pub fn new(s3_key: &str, size: u64, content_type: &str) -> (e: Self)
        ensures
            e.s3_key@ == s3_key@,
            e.size == Some(size),
            opt_string_view(e.content_type) == Some(content_type@),
    {
        let key = chars_of(s3_key);
        let ct = chars_of(content_type);
        CacheEntry {
            s3_key: string_from_chars(key.as_slice()),
            size: Some(size),
            content_type: Some(string_from_chars(ct.as_slice())),
        }
    }

    /// A copy of this entry.
    pub fn duplicate(&self) -> (e: Self)
        ensures
            e@ == self@,
    {
        CacheEntry {
            s3_key: copy_string(&self.s3_key),
            size: self.size,
            content_type: match &self.content_type {
                Some(ct) => Some(copy_string(ct)),
                None => None,
            },
        }
    }

    /// Interprets a Redis value: `decoded` is what the JSON reader made of
    /// `raw` (`None` when `raw` is not a JSON cache entry). A decoded entry
    /// with a non-empty S3 key is taken as is; anything else is a legacy
    /// marker whose whole text is the S3 key.
    pub fn parse(raw: &str, decoded: Option<CacheEntry>) -> (e: Self)
        ensures
            match decoded {
                Some(d) if d.s3_key@.len() > 0 => e == d,
                _ => e.s3_key@ == raw@ && e.size is None && e.content_type is None,
            },
    {
        if let Some(entry) = decoded {
            if entry.s3_key.as_str().unicode_len() > 0 {
                return entry;
            }
        }
        let chars = chars_of(raw);
        CacheEntry { s3_key: string_from_chars(chars.as_slice()), size: None, content_type: None }
    }
}

} // verus!

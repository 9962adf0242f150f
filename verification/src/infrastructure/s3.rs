//! Object-storage rules: object metadata and how storage failures are
//! reported.

use vstd::prelude::*;

use crate::domain::cache_entry::opt_string_view;
use crate::error::AppError;

verus! {

/// Object metadata returned without downloading its body.
#[derive(Debug, PartialEq, Eq)]
pub struct ObjectMeta {
    pub content_length: u64,
    pub content_type: Option<String>,
}

/// The mathematical content of an [`ObjectMeta`].
pub struct ObjectMetaView {
    pub content_length: u64,
    pub content_type: Option<Seq<char>>,
}

impl View for ObjectMeta {
    type V = ObjectMetaView;

    open spec fn view(&self) -> ObjectMetaView {
        ObjectMetaView { content_length: self.content_length, content_type: opt_string_view(self.content_type) }
    }
}

/// The byte length reported for an object: an absent or negative
/// `Content-Length` counts as zero.
pub fn content_length_from(raw: Option<i64>) -> (n: u64)
    ensures
        n == match raw {
            Some(v) => if v > 0 { v as u64 } else { 0 },
            None => 0,
        },
{
    match raw {
        Some(v) => {
            if v > 0 {
                v as u64
            } else {
                0
            }
        },
        None => 0,
    }
}

/// The error answering a failed storage request: a missing object is
/// [`AppError::NotFound`], anything else a storage failure with its message.
pub fn storage_error(missing: bool, message: String) -> (e: AppError)
    ensures
        missing ==> e is NotFound,
        !missing ==> (e matches AppError::Storage(m) && m@ == message@),
{
    if missing {
        AppError::NotFound
    } else {
        AppError::Storage(message)
    }
}

} // verus!

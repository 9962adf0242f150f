//! Image request parameters.

use vstd::prelude::*;

verus! {

/// Query parameters accepted on image requests.
pub struct TransformQuery {
    /// ImageKit transform string, e.g. `w-606,h-450,f-jpeg`.
    pub tr: Option<String>,
}

impl TransformQuery {
    /// The transform string, when one was given.
    pub fn transform(&self) -> (r: Option<&str>)
        ensures
            match self.tr {
                Some(t) => r matches Some(s) && s@ == t@,
                None => r is None,
            },
    {
        match &self.tr {
            Some(t) => Some(t.as_str()),
            None => None,
        }
    }
}

} // verus!

//! Periodic transformed-image cache cleanup.
//!
//! The cleanup walks the metadata keys page by page (`SCAN`); for each page
//! it deletes the keys and the S3 objects they name, and counts them. The
//! walk ends when the cursor returns to zero. [`CleanupProgress`] decides
//! each step; the caller performs the deletions.

use vstd::prelude::*;

use crate::infrastructure::redis::CACHE_PREFIX;
use crate::text::{chars_of, string_from_chars, trim_start_all, trim_start_matches, starts_with};

verus! {

/// The S3 key named by a metadata key: the key with every leading
/// `cache:` removed.
pub open spec fn storage_key_of(marker: Seq<char>) -> Seq<char> {
    trim_start_all(marker, CACHE_PREFIX@)
}

/// What to do with one page of metadata keys.
pub struct PagePlan {
    /// Whether the page holds keys to delete (from Redis and, as
    /// `storage_keys`, from S3).
    pub delete: bool,
    /// The S3 keys named by the page's metadata keys, in order.
    pub storage_keys: Vec<String>,
    /// The cursor of the next page, or `None` when the walk is over.
    pub next_cursor: Option<u64>,
}

/// The number of metadata keys deleted so far.
pub struct CleanupProgress {
    pub deleted: u64,
}

/// The S3 key named by a metadata key.
pub fn storage_key(marker: &String) -> (k: String)
    ensures
        k@ == storage_key_of(marker@),
{
    let chars = chars_of(marker.as_str());
    let prefix = chars_of(CACHE_PREFIX);
    let trimmed = trim_start_matches(chars.as_slice(), prefix.as_slice());
    string_from_chars(trimmed.as_slice())
}

impl CleanupProgress {
    /// A walk that has deleted nothing yet.
    pub fn new() -> (p: Self)
        ensures
            p.deleted == 0,
    {
        CleanupProgress { deleted: 0 }
    }

    /// Records the page `keys`, returned with the cursor `next`, and says
    /// what to do with it.
    pub fn record_page(&mut self, next: u64, keys: &Vec<String>) -> (plan: PagePlan)
        requires
            old(self).deleted + keys@.len() <= u64::MAX,
        ensures
            final(self).deleted == old(self).deleted + keys@.len(),
            plan.delete == (keys@.len() > 0),
            plan.storage_keys@.len() == keys@.len(),
            forall|i: int|
                0 <= i < keys@.len() ==> #[trigger] plan.storage_keys@[i]@ == storage_key_of(keys@[i]@),
            plan.next_cursor == (if next == 0 { None } else { Some(next) }),
    {
        let mut storage_keys: Vec<String> = Vec::new();
        let mut i: usize = 0;
        while i < keys.len()
            invariant
                i <= keys@.len(),
                storage_keys@.len() == i,
                forall|j: int| 0 <= j < i ==> #[trigger] storage_keys@[j]@ == storage_key_of(keys@[j]@),
            decreases keys@.len() - i,
        {
            storage_keys.push(storage_key(&keys[i]));
            i = i + 1;
        }
        self.deleted = self.deleted + keys.len() as u64;
        PagePlan {
            delete: keys.len() > 0,
            storage_keys,
            next_cursor: if next == 0 { None } else { Some(next) },
        }
    }
}

/// A metadata key written for an S3 key names that S3 key again, unless the
/// S3 key itself starts with the prefix.
pub proof fn lemma_storage_key_of_marker(key: Seq<char>)
    requires
        !starts_with(key, CACHE_PREFIX@),
    ensures
        storage_key_of(CACHE_PREFIX@ + key) == key,
{
    let p = CACHE_PREFIX@;
    let m = p + key;
    reveal_strlit("cache:");
    assert(m.take(p.len() as int) =~= p);
    assert(m.skip(p.len() as int) =~= key);
    assert(trim_start_all(m, p) == trim_start_all(key, p));
}

} // verus!

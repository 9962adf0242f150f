//! In-process request coalescing for concurrent identical work.
//!
//! While a build for a key is in flight, every further caller for that key
//! joins it instead of starting another; once the build has finished, its
//! entry is dropped so that a later caller (after a failure, for instance)
//! starts a fresh one. [`FlightRegistry`] keeps that table.

use std::sync::Arc;

use vstd::prelude::*;

verus! {

/// Cloneable payload shared with coalesced waiters.
#[derive(Clone)]
pub struct SharedValue {
    pub bytes: Arc<Vec<u8>>,
    pub content_type: String,
}

/// The mathematical content of a [`SharedValue`].
pub struct SharedValueView {
    pub bytes: Seq<u8>,
    pub content_type: Seq<char>,
}

impl View for SharedValue {
    type V = SharedValueView;

    open spec fn view(&self) -> SharedValueView {
        SharedValueView { bytes: self.bytes@, content_type: self.content_type@ }
    }
}


/// The flight registered under `key` in `entries`, if any (the most recent
/// one, should a key occur twice).
pub open spec fn find<T>(entries: Seq<(String, T)>, key: Seq<char>) -> Option<T>
    decreases entries.len(),
{
    if entries.len() == 0 {
        None
    } else if entries.last().0@ == key {
        Some(entries.last().1)
    } else {
        find(entries.drop_last(), key)
    }
}

/// Whether no key occurs twice in `entries`.
pub open spec fn distinct_keys<T>(entries: Seq<(String, T)>) -> bool {
    forall|i: int, j: int| 0 <= i < j < entries.len() ==> (#[trigger] entries[i]).0@ != (#[trigger] entries[j]).0@
}

/// The builds in flight, by key.
///
/// The table is a vector of entries under the invariant that no key occurs
/// twice, rather than a hash map: vstd's hash-map specification proves
/// little for `String` keys, while this form lets every operation state
/// exactly what it does to the flight of each key.
pub struct FlightRegistry<T> {
    entries: Vec<(String, T)>,
}

impl<T> FlightRegistry<T> {
    /// The flight registered under `key`, if any.
    pub closed spec fn flight(&self, key: Seq<char>) -> Option<T> {
        find(self.entries@, key)
    }

    /// Every key is registered at most once.
    pub closed spec fn wf(&self) -> bool {
        distinct_keys(self.entries@)
    }

    /// A registry with no flight.
    pub fn new() -> (r: Self)
        ensures
            r.wf(),
            forall|k: Seq<char>| #[trigger] r.flight(k) is None,
    {
        FlightRegistry { entries: Vec::new() }
    }

    /// The position of `key` in the entries, if registered.
    fn position(&self, key: &String) -> (r: Option<usize>)
        requires
            self.wf(),
        ensures
            match r {
                Some(i) => i < self.entries@.len() && self.entries@[i as int].0@ == key@
                    && self.flight(key@) == Some(self.entries@[i as int].1),
                None => self.flight(key@) is None,
            },
    {
        let mut i: usize = self.entries.len();
        assert(self.entries@.take(i as int) == self.entries@);
        while i > 0
            invariant
                i <= self.entries@.len(),
                distinct_keys(self.entries@),
                find(self.entries@, key@) == find(self.entries@.take(i as int), key@),
            decreases i,
        {
            let ghost t = self.entries@.take(i as int);
            assert(t.drop_last() == self.entries@.take(i - 1));
            if self.entries[i - 1].0 == *key {
                return Some(i - 1);
            }
            i = i - 1;
        }
        None
    }

    /// The flight registered under `key`, if any.
    pub fn lookup(&self, key: &String) -> (r: Option<&T>)
        requires
            self.wf(),
        ensures
            match self.flight(key@) {
                Some(v) => r matches Some(x) && *x == v,
                None => r is None,
            },
    {
        match self.position(key) {
            Some(i) => Some(&self.entries[i].1),
            None => None,
        }
    }

    /// Registers a flight for a key that has none.
    pub fn insert(&mut self, key: String, value: T)
        requires
            old(self).wf(),
            old(self).flight(key@) is None,
        ensures
            final(self).wf(),
            final(self).flight(key@) == Some(value),
            forall|k: Seq<char>| k != key@ ==> #[trigger] final(self).flight(k) == old(self).flight(k),
    {
        let ghost before = self.entries@;
        let ghost k0 = key@;
        proof { lemma_find_none(before, k0); }
        self.entries.push((key, value));
        assert(self.entries@.drop_last() == before);
        assert forall|k: Seq<char>| k != k0 implies #[trigger] find(self.entries@, k) == find(before, k) by {}
    }

    /// Drops the flight registered under `key`, if any.
    pub fn remove(&mut self, key: &String)
        requires
            old(self).wf(),
        ensures
            final(self).wf(),
            final(self).flight(key@) is None,
            forall|k: Seq<char>| k != key@ ==> #[trigger] final(self).flight(k) == old(self).flight(k),
    {
        match self.position(key) {
            Some(i) => {
                let ghost before = self.entries@;
                let _ = self.entries.remove(i);
                proof { lemma_find_remove(before, i as int); }
            },
            None => {},
        }
    }
}

/// A key that `find` does not reach occurs nowhere.
proof fn lemma_find_none<T>(entries: Seq<(String, T)>, key: Seq<char>)
    requires
        find(entries, key) is None,
    ensures
        forall|i: int| 0 <= i < entries.len() ==> (#[trigger] entries[i]).0@ != key,
    decreases entries.len(),
{
    if entries.len() > 0 {
        lemma_find_none(entries.drop_last(), key);
        assert forall|i: int| 0 <= i < entries.len() implies (#[trigger] entries[i]).0@ != key by {
            if i < entries.len() - 1 {
                assert(entries.drop_last()[i] == entries[i]);
            }
        }
    }
}

/// Without the unique entry of a key, `find` misses that key and is
/// unchanged for every other key.
proof fn lemma_find_remove<T>(entries: Seq<(String, T)>, i: int)
    requires
        distinct_keys(entries),
        0 <= i < entries.len(),
    ensures
        distinct_keys(entries.remove(i)),
        find(entries.remove(i), entries[i].0@) is None,
        forall|k: Seq<char>| k != entries[i].0@ ==> #[trigger] find(entries.remove(i), k) == find(entries, k),
    decreases entries.len(),
{
    let r = entries.remove(i);
    let key = entries[i].0@;
    assert forall|a: int, b: int| 0 <= a < b < r.len() implies (#[trigger] r[a]).0@ != (#[trigger] r[b]).0@ by {
        let a2 = if a < i { a } else { a + 1 };
        let b2 = if b < i { b } else { b + 1 };
        assert(r[a] == entries[a2]);
        assert(r[b] == entries[b2]);
    }
    assert forall|k: Seq<char>| #[trigger] find(r, k) == (if k == key { None } else { find(entries, k) }) by {
        lemma_find_remove_key(entries, i, k);
    }
}

proof fn lemma_find_remove_key<T>(entries: Seq<(String, T)>, i: int, k: Seq<char>)
    requires
        distinct_keys(entries),
        0 <= i < entries.len(),
    ensures
        find(entries.remove(i), k) == (if k == entries[i].0@ { None } else { find(entries, k) }),
    decreases entries.len(),
{
    let r = entries.remove(i);
    let n = entries.len();
    if i == n - 1 {
        assert(r == entries.drop_last());
        if k == entries[i].0@ {
            assert forall|j: int| 0 <= j < r.len() implies (#[trigger] r[j]).0@ != k by {
                assert(r[j] == entries[j]);
            }
            lemma_find_absent(r, k);
        }
    } else {
        assert(r.last() == entries.last());
        assert(r.drop_last() == entries.drop_last().remove(i));
        assert forall|a: int, b: int| 0 <= a < b < entries.drop_last().len() implies (#[trigger] entries.drop_last()[a]).0@
            != (#[trigger] entries.drop_last()[b]).0@ by {
            assert(entries.drop_last()[a] == entries[a]);
            assert(entries.drop_last()[b] == entries[b]);
        }
        assert(entries.drop_last()[i] == entries[i]);
        lemma_find_remove_key(entries.drop_last(), i, k);
        if k == entries[i].0@ {
            assert(entries.last().0@ != k);
        }
    }
}

/// A key that occurs nowhere is not found.
proof fn lemma_find_absent<T>(entries: Seq<(String, T)>, key: Seq<char>)
    requires
        forall|j: int| 0 <= j < entries.len() ==> (#[trigger] entries[j]).0@ != key,
    ensures
        find(entries, key) is None,
    decreases entries.len(),
{
    if entries.len() > 0 {
        assert(entries.last() == entries[entries.len() - 1]);
        assert forall|j: int| 0 <= j < entries.drop_last().len() implies (#[trigger] entries.drop_last()[j]).0@ != key by {
            assert(entries.drop_last()[j] == entries[j]);
        }
        lemma_find_absent(entries.drop_last(), key);
    }
}

} // verus!

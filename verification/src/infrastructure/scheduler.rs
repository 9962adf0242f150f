//! Cron schedule handling for the periodic cache cleanup.

use vstd::prelude::*;

use crate::text::{chars_of, count_words, lemma_word_count_prepend, string_from_chars, word_count, push_chars};

verus! {

/// A standard 5-field cron expression gets a leading seconds field `0`;
/// any other expression is kept as it is.
pub open spec fn normalized_cron(cron: Seq<char>) -> Seq<char> {
    if word_count(cron) == 5 {
        seq!['0', ' '] + cron
    } else {
        cron
    }
}

/// Turns a 5-field cron expression into the 6-field form the scheduler
/// reads, by adding a seconds field `0`.
pub fn normalize_cron(cron: &str) -> (s: String)
    ensures
        s@ == normalized_cron(cron@),
{
    let chars = chars_of(cron);
    if count_words(chars.as_slice()) == 5 {
        let mut out: Vec<char> = Vec::new();
        out.push('0');
        out.push(' ');
        push_chars(&mut out, chars.as_slice());
        assert(out@ =~= seq!['0', ' '] + cron@);
        string_from_chars(out.as_slice())
    } else {
        string_from_chars(chars.as_slice())
    }
}

/// Normalizing a schedule twice gives what normalizing it once gives.
pub proof fn lemma_normalize_cron_idempotent(cron: Seq<char>)
    ensures
        normalized_cron(normalized_cron(cron)) == normalized_cron(cron),
{
    lemma_word_count_prepend(cron);
}

} // verus!

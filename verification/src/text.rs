//! Character-level helpers shared by the parsers and formatters: decimal
//! digits, unsigned integer literals, splitting and joining.

use vstd::prelude::*;

verus! {

/// Copies the characters of `s` into a vector.
pub fn chars_of(s: &str) -> (out: Vec<char>)
    ensures
        out@ == s@,
{
    let mut out: Vec<char> = Vec::new();
    for c in it: s.chars()
        invariant
            out@ == it.seq().take(it.index() as int),
            it.seq() == s@,
    {
        out.push(c);
    }
    out
}

/// Builds a `String` holding exactly the characters of `chars`
/// (std's `FromIterator<char>` for `String` appends each character in order).
#[verifier::external_body]
pub(crate) fn string_from_chars(chars: &[char]) -> (out: String)
    ensures
        out@ == chars@,
{
    chars.iter().collect()
}

/// Appends every character of `s` to `out`.
pub fn push_str(out: &mut Vec<char>, s: &str)
    ensures
        final(out)@ == old(out)@ + s@,
{
    let ghost start = out@;
    for c in it: s.chars()
        invariant
            out@ == start + it.seq().take(it.index() as int),
            it.seq() == s@,
    {
        out.push(c);
        assert(out@ == start + it.seq().take(it.index() + 1));
    }
}

/// Appends every character of `s` to `out`.
pub fn push_chars(out: &mut Vec<char>, s: &[char])
    ensures
        final(out)@ == old(out)@ + s@,
{
    let ghost start = out@;
    let mut i: usize = 0;
    while i < s.len()
        invariant
            i <= s@.len(),
            out@ == start + s@.take(i as int),
        decreases s@.len() - i,
    {
        out.push(s[i]);
        i = i + 1;
        assert(out@ == start + s@.take(i as int));
    }
    assert(s@.take(s@.len() as int) == s@);
}

/// Whether `c` is an ASCII decimal digit.
pub open spec fn is_digit(c: char) -> bool {
    '0' <= c && c <= '9'
}

/// The value of an ASCII decimal digit.
pub open spec fn digit_value(c: char) -> nat {
    (c as int - '0' as int) as nat
}

/// The ASCII character of a decimal digit.
pub open spec fn digit_char(d: nat) -> char {
    ((d + 48) as u8) as char
}

/// Whether every character of `s` is an ASCII decimal digit.
pub open spec fn all_digits(s: Seq<char>) -> bool {
    forall|i: int| 0 <= i < s.len() ==> is_digit(#[trigger] s[i])
}

/// The number written by the decimal digits `s` (most significant first).
pub open spec fn digits_value(s: Seq<char>) -> nat
    decreases s.len(),
{
    if s.len() == 0 {
        0
    } else {
        digits_value(s.drop_last()) * 10 + digit_value(s.last())
    }
}

/// The shortest decimal notation of `n`, without sign or leading zeros.
pub open spec fn decimal(n: nat) -> Seq<char>
    decreases n,
{
    if n < 10 {
        seq![digit_char(n)]
    } else {
        decimal(n / 10).push(digit_char(n % 10))
    }
}

/// The value accepted by `str::parse` for an unsigned integer type, before
/// the type's range is checked: an optional `+`, then one or more ASCII digits.
pub open spec fn unsigned_literal(s: Seq<char>) -> Option<nat> {
    let body = if s.len() > 0 && s[0] == '+' {
        s.drop_first()
    } else {
        s
    };
    if body.len() > 0 && all_digits(body) {
        Some(digits_value(body))
    } else {
        None
    }
}

/// Whether `c` is an ASCII decimal digit.
pub fn is_digit_char(c: char) -> (b: bool)
    ensures
        b == is_digit(c),
{
    '0' <= c && c <= '9'
}

/// The value of the ASCII digit `c`.
pub fn digit_of(c: char) -> (d: u8)
    requires
        is_digit(c),
    ensures
        d as nat == digit_value(c),
        d < 10,
{
    ((c as u32) - ('0' as u32)) as u8
}

/// The ASCII character of the digit `d`.
pub fn char_of_digit(d: u8) -> (c: char)
    requires
        d < 10,
    ensures
        c == digit_char(d as nat),
        is_digit(c),
        digit_value(c) == d,
{
    let c = (d + 48) as char;
    c
}

/// Appends the decimal notation of `n` to `out`.
pub fn push_decimal(out: &mut Vec<char>, n: u64)
    ensures
        final(out)@ == old(out)@ + decimal(n as nat),
    decreases n,
{
    if n >= 10 {
        push_decimal(out, n / 10);
    }
    let d = (n % 10) as u8;
    let c = char_of_digit(d);
    out.push(c);
}

/// The decimal notation of `n` as a `String`.
pub fn decimal_string(n: u64) -> (s: String)
    ensures
        s@ == decimal(n as nat),
{
    let mut out: Vec<char> = Vec::new();
    push_decimal(&mut out, n);
    assert(out@ == decimal(n as nat));
    string_from_chars(out.as_slice())
}

/// The value of a digit prefix never exceeds the value of the whole.
pub proof fn lemma_digits_value_prefix(s: Seq<char>, i: int)
    requires
        0 <= i <= s.len(),
    ensures
        digits_value(s.take(i)) <= digits_value(s),
    decreases s.len() - i,
{
    if i < s.len() {
        lemma_digits_value_prefix(s, i + 1);
        assert(s.take(i + 1).drop_last() == s.take(i));
    } else {
        assert(s.take(i) == s);
    }
}

/// The digit characters and their values correspond.
pub proof fn lemma_digit_char(d: nat)
    requires
        d < 10,
    ensures
        is_digit(digit_char(d)),
        digit_value(digit_char(d)) == d,
{
    assert(((d + 48) as u8) as char as int == d + 48);
}

/// Every character of a decimal notation is a digit and it never starts with
/// a zero unless it is the single digit `0`.
pub proof fn lemma_decimal_digits(n: nat)
    ensures
        all_digits(decimal(n)),
        decimal(n).len() >= 1,
        digits_value(decimal(n)) == n,
    decreases n,
{
    lemma_digit_char(n % 10);
    if n < 10 {
        assert(decimal(n).drop_last() =~= Seq::<char>::empty());
        assert(digits_value(decimal(n)) == digits_value(decimal(n).drop_last()) * 10 + digit_value(decimal(n).last()));
    }
    if n >= 10 {
        lemma_decimal_digits(n / 10);
        let d = decimal(n / 10).push(digit_char(n % 10));
        assert(d.drop_last() == decimal(n / 10));
        assert(d.last() == digit_char(n % 10));
        assert(digits_value(d) == digits_value(decimal(n / 10)) * 10 + digit_value(d.last()));
        assert(decimal(n) == d);
        assert(n == (n / 10) * 10 + n % 10);
        assert forall|i: int| 0 <= i < d.len() implies is_digit(#[trigger] d[i]) by {
            if i < d.len() - 1 {
                assert(d[i] == decimal(n / 10)[i]);
            }
        }
    }
}

/// Parses an unsigned integer as `str::parse` does for a type whose largest
/// value is `max`: `None` when the text is not an unsigned literal or its value
/// is larger than `max`.
pub fn parse_unsigned(s: &[char], max: u64) -> (r: Option<u64>)
    ensures
        r is Some <==> (unsigned_literal(s@) is Some && unsigned_literal(s@)->0 <= max),
        r is Some ==> r->0 as nat == unsigned_literal(s@)->0,
{
    let start: usize = if s.len() > 0 && s[0] == '+' { 1 } else { 0 };
    let ghost body = if s@.len() > 0 && s@[0] == '+' { s@.drop_first() } else { s@ };
    assert(body == s@.skip(start as int));
    if start >= s.len() {
        return None;
    }
    let mut value: u64 = 0;
    let mut i: usize = start;
    while i < s.len()
        invariant
            start <= i <= s@.len(),
            body == s@.skip(start as int),
            body == (if s@.len() > 0 && s@[0] == '+' { s@.drop_first() } else { s@ }),
            body.len() > 0,
            all_digits(body.take(i - start)),
            value as nat == digits_value(body.take(i - start)),
            value <= max,
        decreases s@.len() - i,
    {
        let c = s[i];
        if !is_digit_char(c) {
            assert(body[i - start] == c);
            assert(!all_digits(body));
            return None;
        }
        let d = digit_of(c);
        let ghost prefix = body.take(i - start + 1);
        assert(prefix.drop_last() == body.take(i - start));
        assert(prefix.last() == c);
        assert(digits_value(prefix) == digits_value(body.take(i - start)) * 10 + digit_value(c));
        let next = match value.checked_mul(10) {
            Some(v) => v.checked_add(d as u64),
            None => None,
        };
        match next {
            Some(v) => {
                if v > max {
                    proof { lemma_digits_value_prefix(body, i - start + 1); }
                    return None;
                }
                value = v;
            },
            None => {
                proof { lemma_digits_value_prefix(body, i - start + 1); }
                return None;
            },
        }
        i = i + 1;
    }
    assert(body.take(i - start) == body);
    Some(value)
}

/// Reading back the decimal notation of a number gives that number.
pub proof fn lemma_unsigned_literal_of_decimal(n: nat)
    ensures
        unsigned_literal(decimal(n)) == Some(n),
{
    lemma_decimal_digits(n);
    assert(decimal(n)[0] != '+');
}


/// The pieces of `s` between occurrences of `sep`, as `str::split` with a
/// character pattern yields them: always at least one piece.
pub open spec fn split(s: Seq<char>, sep: char) -> Seq<Seq<char>>
    decreases s.len(),
{
    if s.len() == 0 {
        seq![Seq::<char>::empty()]
    } else {
        let init = split(s.drop_last(), sep);
        if s.last() == sep {
            init.push(Seq::<char>::empty())
        } else {
            init.update(init.len() - 1, init.last().push(s.last()))
        }
    }
}

/// The pieces joined back together with `sep` between neighbours.
pub open spec fn join(pieces: Seq<Seq<char>>, sep: char) -> Seq<char>
    decreases pieces.len(),
{
    if pieces.len() == 0 {
        Seq::<char>::empty()
    } else if pieces.len() == 1 {
        pieces[0]
    } else {
        join(pieces.drop_last(), sep).push(sep) + pieces.last()
    }
}

/// The character sequences held by a vector of character vectors.
pub open spec fn pieces_view(v: Seq<Vec<char>>) -> Seq<Seq<char>> {
    v.map_values(|p: Vec<char>| p@)
}

/// Whether `s` begins with `prefix`.
pub open spec fn starts_with(s: Seq<char>, prefix: Seq<char>) -> bool {
    prefix.len() <= s.len() && s.take(prefix.len() as int) == prefix
}

/// `s` with every leading repetition of `prefix` removed, as
/// `str::trim_start_matches` with a string pattern does.
pub open spec fn trim_start_all(s: Seq<char>, prefix: Seq<char>) -> Seq<char>
    decreases s.len(),
{
    if prefix.len() > 0 && starts_with(s, prefix) {
        trim_start_all(s.skip(prefix.len() as int), prefix)
    } else {
        s
    }
}

/// Whether `c` occurs nowhere in `s`.
pub open spec fn lacks(s: Seq<char>, c: char) -> bool {
    forall|i: int| 0 <= i < s.len() ==> s[i] != c
}

/// Whether `k` is the position of the first `c` in `s`.
pub open spec fn is_first_index(s: Seq<char>, c: char, k: int) -> bool {
    0 <= k < s.len() && s[k] == c && lacks(s.take(k), c)
}

/// The text before and after the first `c` in `s`, as `str::split_once`
/// with a character pattern gives them; `None` when `c` does not occur.
pub open spec fn split_once(s: Seq<char>, c: char) -> Option<(Seq<char>, Seq<char>)> {
    if exists|k: int| is_first_index(s, c, k) {
        let k = choose|k: int| is_first_index(s, c, k);
        Some((s.take(k), s.skip(k + 1)))
    } else {
        None
    }
}

/// Joining pieces: the first, the separator, then the rest joined.
pub proof fn lemma_join_first(p: Seq<Seq<char>>, sep: char)
    requires
        p.len() >= 2,
    ensures
        join(p, sep) == p[0] + seq![sep] + join(p.skip(1), sep),
    decreases p.len(),
{
    if p.len() == 2 {
        assert(p.drop_last() =~= seq![p[0]]);
        assert(p.skip(1) =~= seq![p[1]]);
        assert(join(p.drop_last(), sep) == p[0]);
        assert(join(p.skip(1), sep) == p[1]);
        assert(join(p, sep) == join(p.drop_last(), sep).push(sep) + p.last());
        assert(join(p, sep) =~= p[0] + seq![sep] + join(p.skip(1), sep));
    } else {
        lemma_join_first(p.drop_last(), sep);
        assert(p.drop_last().skip(1) =~= p.skip(1).drop_last());
        assert(p.skip(1).last() == p.last());
        assert(join(p, sep) =~= p[0] + seq![sep] + join(p.skip(1), sep));
    }
}

/// A text that starts with the separator splits into an empty first piece
/// and at least one more.
pub proof fn lemma_split_leading(s: Seq<char>, sep: char)
    requires
        s.len() > 0,
        s[0] == sep,
    ensures
        split(s, sep).len() >= 2,
        split(s, sep)[0] == Seq::<char>::empty(),
    decreases s.len(),
{
    if s.len() == 1 {
        assert(s.drop_last() =~= Seq::<char>::empty());
    } else {
        assert(s.drop_last()[0] == sep);
        lemma_split_leading(s.drop_last(), sep);
    }
}

/// Joining the pieces of a split with its separator gives the text back.
pub proof fn lemma_join_split(s: Seq<char>, sep: char)
    ensures
        join(split(s, sep), sep) == s,
    decreases s.len(),
{
    if s.len() > 0 {
        lemma_join_split(s.drop_last(), sep);
        lemma_split_nonempty(s.drop_last(), sep);
        let init = split(s.drop_last(), sep);
        if s.last() == sep {
            assert(init.push(Seq::<char>::empty()).drop_last() =~= init);
            assert(join(split(s, sep), sep) =~= s);
        } else {
            let up = init.update(init.len() - 1, init.last().push(s.last()));
            if init.len() == 1 {
                assert(join(up, sep) =~= s);
            } else {
                assert(up.drop_last() =~= init.drop_last());
                assert(up.last() == init.last().push(s.last()));
                assert(join(init, sep) == join(init.drop_last(), sep).push(sep) + init.last());
                assert(join(up, sep) == join(init.drop_last(), sep).push(sep) + init.last().push(s.last()));
                assert(s =~= s.drop_last().push(s.last()));
                assert(join(up, sep) =~= s);
            }
        }
    }
}

/// `split` always yields at least one piece.
pub proof fn lemma_split_nonempty(s: Seq<char>, sep: char)
    ensures
        split(s, sep).len() >= 1,
    decreases s.len(),
{
    if s.len() > 0 {
        lemma_split_nonempty(s.drop_last(), sep);
    }
}

/// Splits `s` at every `sep`.
pub fn split_chars(s: &[char], sep: char) -> (pieces: Vec<Vec<char>>)
    ensures
        pieces_view(pieces@) == split(s@, sep),
{
    let mut pieces: Vec<Vec<char>> = Vec::new();
    let mut cur: Vec<char> = Vec::new();
    let mut i: usize = 0;
    assert(s@.take(0) =~= Seq::<char>::empty());
    assert(pieces_view(pieces@).push(cur@) =~= split(s@.take(0), sep));
    while i < s.len()
        invariant
            i <= s@.len(),
            pieces_view(pieces@).push(cur@) == split(s@.take(i as int), sep),
        decreases s@.len() - i,
    {
        let c = s[i];
        let ghost before = split(s@.take(i as int), sep);
        assert(s@.take(i + 1).drop_last() == s@.take(i as int));
        assert(s@.take(i + 1).last() == c);
        proof { lemma_split_nonempty(s@.take(i as int), sep); }
        if c == sep {
            let done = cur;
            pieces.push(done);
            cur = Vec::new();
            assert(pieces_view(pieces@) =~= pieces_view(pieces@).drop_last().push(done@));
            assert(pieces_view(pieces@).push(cur@) =~= before.push(Seq::<char>::empty()));
        } else {
            cur.push(c);
            assert(pieces_view(pieces@).push(cur@) =~= before.update(
                before.len() - 1,
                before.last().push(c),
            ));
        }
        i = i + 1;
    }
    assert(s@.take(s@.len() as int) == s@);
    let ghost last = cur@;
    pieces.push(cur);
    assert(pieces_view(pieces@) =~= split(s@, sep)) by {
        assert(pieces_view(pieces@) =~= pieces_view(pieces@).drop_last().push(last));
    }
    pieces
}

/// Joins `pieces[start..]` with `sep` between neighbours.
pub fn join_from(pieces: &Vec<Vec<char>>, start: usize, sep: char) -> (out: Vec<char>)
    requires
        start <= pieces@.len(),
    ensures
        out@ == join(pieces_view(pieces@).skip(start as int), sep),
{
    let mut out: Vec<char> = Vec::new();
    if start >= pieces.len() {
        assert(pieces_view(pieces@).skip(start as int) =~= Seq::<Seq<char>>::empty());
        return out;
    }
    let ghost all = pieces_view(pieces@);
    push_chars(&mut out, pieces[start].as_slice());
    let mut j: usize = start + 1;
    assert(all.skip(start as int).take(1) =~= seq![all[start as int]]);
    while j < pieces.len()
        invariant
            start < j <= pieces@.len(),
            all == pieces_view(pieces@),
            out@ == join(all.skip(start as int).take(j - start), sep),
        decreases pieces@.len() - j,
    {
        out.push(sep);
        push_chars(&mut out, pieces[j].as_slice());
        let ghost taken = all.skip(start as int).take(j + 1 - start);
        assert(taken.drop_last() =~= all.skip(start as int).take(j - start));
        assert(taken.last() == pieces@[j as int]@);
        j = j + 1;
    }
    assert(all.skip(start as int).take(j - start) =~= all.skip(start as int));
    out
}

/// Whether `s` begins with `prefix`.
pub fn starts_with_chars(s: &[char], prefix: &[char]) -> (b: bool)
    ensures
        b == starts_with(s@, prefix@),
{
    if prefix.len() > s.len() {
        return false;
    }
    let mut i: usize = 0;
    while i < prefix.len()
        invariant
            prefix@.len() <= s@.len(),
            i <= prefix@.len(),
            forall|j: int| 0 <= j < i ==> s@[j] == prefix@[j],
        decreases prefix@.len() - i,
    {
        if s[i] != prefix[i] {
            assert(s@.take(prefix@.len() as int)[i as int] != prefix@[i as int]);
            return false;
        }
        i = i + 1;
    }
    assert(s@.take(prefix@.len() as int) =~= prefix@);
    true
}

/// `s[from..]` as a vector.
pub fn slice_from(s: &[char], from: usize) -> (out: Vec<char>)
    requires
        from <= s@.len(),
    ensures
        out@ == s@.skip(from as int),
{
    let mut out: Vec<char> = Vec::new();
    let mut i: usize = from;
    while i < s.len()
        invariant
            from <= i <= s@.len(),
            out@ == s@.subrange(from as int, i as int),
        decreases s@.len() - i,
    {
        out.push(s[i]);
        i = i + 1;
        assert(out@ =~= s@.subrange(from as int, i as int));
    }
    assert(out@ =~= s@.skip(from as int));
    out
}

/// `s[..to]` as a vector.
pub fn slice_to(s: &[char], to: usize) -> (out: Vec<char>)
    requires
        to <= s@.len(),
    ensures
        out@ == s@.take(to as int),
{
    let mut out: Vec<char> = Vec::new();
    let mut i: usize = 0;
    while i < to
        invariant
            i <= to <= s@.len(),
            out@ == s@.take(i as int),
        decreases to - i,
    {
        out.push(s[i]);
        i = i + 1;
        assert(out@ =~= s@.take(i as int));
    }
    out
}

/// `s` with every leading repetition of `prefix` removed.
pub fn trim_start_matches(s: &[char], prefix: &[char]) -> (out: Vec<char>)
    ensures
        out@ == trim_start_all(s@, prefix@),
{
    let mut from: usize = 0;
    if prefix.len() == 0 {
        return slice_from(s, 0);
    }
    assert(s@.skip(0) == s@);
    loop
        invariant
            prefix@.len() > 0,
            from <= s@.len(),
            trim_start_all(s@, prefix@) == trim_start_all(s@.skip(from as int), prefix@),
        decreases s@.len() - from,
    {
        let rest = slice_from(s, from);
        if starts_with_chars(rest.as_slice(), prefix) {
            assert(prefix@.len() <= rest@.len());
            let total = s.len();
            assert(from + prefix@.len() <= total);
            assert(rest@.skip(prefix@.len() as int) =~= s@.skip(from + prefix@.len()));
            from = from + prefix.len();
        } else {
            return rest;
        }
    }
}

/// Finds the first `c` in `s` and returns the text before and after it.
pub fn split_once_chars(s: &[char], c: char) -> (r: Option<(Vec<char>, Vec<char>)>)
    ensures
        match split_once(s@, c) {
            Some((a, b)) => r is Some && (r->0).0@ == a && (r->0).1@ == b,
            None => r is None,
        },
{
    let mut i: usize = 0;
    while i < s.len()
        invariant
            i <= s@.len(),
            lacks(s@.take(i as int), c),
        decreases s@.len() - i,
    {
        if s[i] == c {
            assert(is_first_index(s@, c, i as int));
            proof {
                let k = choose|k: int| is_first_index(s@, c, k);
                assert(k == i) by {
                    if k < i {
                        assert(s@.take(i as int)[k] == c);
                    } else if k > i {
                        assert(s@.take(k)[i as int] == c);
                    }
                }
            }
            let before = slice_to(s, i);
            let after = slice_from(s, i + 1);
            return Some((before, after));
        }
        assert(s@.take(i + 1) =~= s@.take(i as int).push(s@[i as int]));
        i = i + 1;
    }
    assert(s@.take(s@.len() as int) =~= s@);
    assert(!exists|k: int| is_first_index(s@, c, k));
    None
}


/// Whether `c` has the Unicode `White_Space` property, as `char::is_whitespace`.
pub open spec fn is_whitespace(c: char) -> bool {
    ('\u{9}' <= c && c <= '\u{d}') || c == ' ' || c == '\u{85}' || c == '\u{a0}' || c == '\u{1680}'
        || ('\u{2000}' <= c && c <= '\u{200a}') || c == '\u{2028}' || c == '\u{2029}' || c == '\u{202f}'
        || c == '\u{205f}' || c == '\u{3000}'
}

/// Whether `c` has the Unicode `White_Space` property.
pub fn is_whitespace_char(c: char) -> (b: bool)
    ensures
        b == is_whitespace(c),
{
    ('\u{9}' <= c && c <= '\u{d}') || c == ' ' || c == '\u{85}' || c == '\u{a0}' || c == '\u{1680}'
        || ('\u{2000}' <= c && c <= '\u{200a}') || c == '\u{2028}' || c == '\u{2029}' || c == '\u{202f}'
        || c == '\u{205f}' || c == '\u{3000}'
}

/// The number of maximal runs of non-whitespace characters in `s`, as
/// `str::split_whitespace().count()`.
pub open spec fn word_count(s: Seq<char>) -> nat
    decreases s.len(),
{
    if s.len() == 0 {
        0
    } else if is_whitespace(s.last()) {
        word_count(s.drop_last())
    } else if s.len() == 1 || is_whitespace(s[s.len() - 2]) {
        word_count(s.drop_last()) + 1
    } else {
        word_count(s.drop_last())
    }
}

/// Whether every character of `s` is whitespace (so `str::trim` leaves
/// nothing).
pub open spec fn is_blank(s: Seq<char>) -> bool {
    forall|i: int| 0 <= i < s.len() ==> is_whitespace(#[trigger] s[i])
}

/// Counts the whitespace-separated words of `s`.
pub fn count_words(s: &[char]) -> (n: usize)
    ensures
        n as nat == word_count(s@),
{
    let mut n: usize = 0;
    let mut i: usize = 0;
    assert(s@.take(0) =~= Seq::<char>::empty());
    while i < s.len()
        invariant
            i <= s@.len(),
            n as nat == word_count(s@.take(i as int)),
            n <= i,
        decreases s@.len() - i,
    {
        let ghost t = s@.take(i + 1);
        assert(t.drop_last() == s@.take(i as int));
        assert(t.last() == s@[i as int]);
        if !is_whitespace_char(s[i]) && (i == 0 || is_whitespace_char(s[i - 1])) {
            assert(i > 0 ==> t[t.len() - 2] == s@[i - 1]);
            n = n + 1;
        } else {
            assert(i > 0 ==> t[t.len() - 2] == s@[i - 1]);
        }
        i = i + 1;
    }
    assert(s@.take(s@.len() as int) == s@);
    n
}

/// Whether every character of `s` is whitespace.
pub fn blank(s: &[char]) -> (b: bool)
    ensures
        b == is_blank(s@),
{
    let mut i: usize = 0;
    while i < s.len()
        invariant
            i <= s@.len(),
            forall|j: int| 0 <= j < i ==> is_whitespace(#[trigger] s@[j]),
        decreases s@.len() - i,
    {
        if !is_whitespace_char(s[i]) {
            return false;
        }
        i = i + 1;
    }
    true
}

/// Putting a word and a space before a text adds exactly one word.
pub proof fn lemma_word_count_prepend(c: Seq<char>)
    ensures
        word_count(seq!['0', ' '] + c) == word_count(c) + 1,
    decreases c.len(),
{
    let s = seq!['0', ' '] + c;
    assert(is_whitespace(' '));
    assert(!is_whitespace('0'));
    if c.len() == 0 {
        assert(s =~= seq!['0', ' ']);
        assert(s.drop_last() =~= seq!['0']);
        assert(seq!['0'].drop_last() =~= Seq::<char>::empty());
        assert(seq!['0'].len() == 1 && seq!['0'].last() == '0');
        assert(word_count(Seq::<char>::empty()) == 0);
        assert(word_count(seq!['0']) == word_count(seq!['0'].drop_last()) + 1);
        assert(word_count(s) == word_count(seq!['0']));
    } else {
        lemma_word_count_prepend(c.drop_last());
        assert(s.drop_last() =~= seq!['0', ' '] + c.drop_last());
        assert(s.last() == c.last());
        assert(s.len() >= 3);
        if c.len() == 1 {
            assert(s[s.len() - 2] == ' ');
            assert(c.drop_last() =~= Seq::<char>::empty());
            assert(word_count(c.drop_last()) == 0);
        } else {
            assert(s[s.len() - 2] == c[c.len() - 2]);
        }
        if is_whitespace(c.last()) {
            assert(word_count(s) == word_count(s.drop_last()));
            assert(word_count(c) == word_count(c.drop_last()));
        } else if c.len() == 1 || is_whitespace(c[c.len() - 2]) {
            assert(word_count(s) == word_count(s.drop_last()) + 1);
            assert(word_count(c) == word_count(c.drop_last()) + 1);
        } else {
            assert(word_count(s) == word_count(s.drop_last()));
            assert(word_count(c) == word_count(c.drop_last()));
        }
    }
}


/// Splitting two texts joined by the separator gives the pieces of the
/// first followed by the pieces of the second.
pub proof fn lemma_split_concat(a: Seq<char>, b: Seq<char>, sep: char)
    ensures
        split(a + seq![sep] + b, sep) == split(a, sep) + split(b, sep),
    decreases b.len(),
{
    let s = a + seq![sep] + b;
    lemma_split_nonempty(a, sep);
    if b.len() == 0 {
        assert(s =~= a.push(sep));
        assert(s.drop_last() =~= a);
        assert(split(b, sep) =~= seq![Seq::<char>::empty()]);
        assert(split(s, sep) =~= split(a, sep) + split(b, sep));
    } else {
        lemma_split_concat(a, b.drop_last(), sep);
        lemma_split_nonempty(b.drop_last(), sep);
        assert(s.drop_last() =~= a + seq![sep] + b.drop_last());
        assert(s.last() == b.last());
        let x = split(a, sep);
        let y = split(b.drop_last(), sep);
        if b.last() == sep {
            assert(split(s, sep) =~= x + split(b, sep));
        } else {
            let init = x + y;
            assert(init.last() == y.last());
            assert(init.update(init.len() - 1, init.last().push(b.last())) =~= x + y.update(
                y.len() - 1,
                y.last().push(b.last()),
            ));
        }
    }
}

} // verus!

//! The decimal number grammar accepted by `str::parse::<f64>`, and the
//! exact value it denotes.
//!
//! ```text
//! Float  ::= Sign? ( 'inf' | 'infinity' | 'nan' | Number )    (letters in any case)
//! Number ::= ( Digit+ | Digit+ '.' Digit* | Digit* '.' Digit+ ) Exp?
//! Exp    ::= ('e' | 'E') Sign? Digit+
//! Sign   ::= '+' | '-'
//! ```
//!
//! A finite literal is kept as its decimal digits and the position of its
//! decimal point, so no precision is lost.

use vstd::prelude::*;

use crate::text::{all_digits, digits_value, is_digit, is_digit_char, digit_of, slice_from, slice_to};

verus! {

/// A literal of the float grammar.
pub enum Literal {
    /// `nan`, with or without a sign.
    NotANumber,
    /// `inf` or `infinity`.
    Infinite { negative: bool },
    /// The value `digits_value(digits) * 10^(point - digits.len())`, negated
    /// when `negative`.
    Finite { negative: bool, digits: Seq<char>, point: int },
}

/// Whether `c` is the lower-case ASCII letter `l` in either case.
pub open spec fn same_letter(c: char, l: char) -> bool {
    c == l || (c as u32) as int + 32 == (l as u32) as int
}

/// Whether `s` spells the lower-case ASCII word `word`, ignoring ASCII case.
pub open spec fn spells(s: Seq<char>, word: Seq<char>) -> bool {
    s.len() == word.len() && forall|i: int| 0 <= i < s.len() ==> same_letter(#[trigger] s[i], word[i])
}

/// The number of consecutive ASCII digits in `s` from position `i`.
pub open spec fn digit_run(s: Seq<char>, i: int) -> nat
    decreases s.len() - i,
{
    if 0 <= i < s.len() && is_digit(s[i]) {
        1 + digit_run(s, i + 1)
    } else {
        0
    }
}

/// An exponent part after its `e`: an optional sign, then one or more digits.
pub open spec fn exponent_value(s: Seq<char>) -> Option<int> {
    let negative = s.len() > 0 && s[0] == '-';
    let body = if s.len() > 0 && (s[0] == '+' || s[0] == '-') {
        s.drop_first()
    } else {
        s
    };
    if body.len() > 0 && all_digits(body) {
        Some(if negative { -(digits_value(body) as int) } else { digits_value(body) as int })
    } else {
        None
    }
}

/// A `Number` of the grammar: its digits and the position of its decimal
/// point, or `None` when `s` is not a `Number`.
pub open spec fn number_literal(s: Seq<char>) -> Option<(Seq<char>, int)> {
    let a = digit_run(s, 0) as int;
    let has_point = a < s.len() && s[a] == '.';
    let b = if has_point { digit_run(s, a + 1) as int } else { 0 };
    let end = if has_point { a + 1 + b } else { a };
    let digits = s.take(a) + if has_point { s.subrange(a + 1, end) } else { Seq::<char>::empty() };
    if a + b == 0 {
        None
    } else if end == s.len() {
        Some((digits, a))
    } else if s[end] == 'e' || s[end] == 'E' {
        match exponent_value(s.skip(end + 1)) {
            Some(e) => Some((digits, a + e)),
            None => None,
        }
    } else {
        None
    }
}

/// The literal written by `s`, or `None` when `str::parse::<f64>` refuses it.
pub open spec fn float_literal(s: Seq<char>) -> Option<Literal> {
    let negative = s.len() > 0 && s[0] == '-';
    let body = if s.len() > 0 && (s[0] == '+' || s[0] == '-') {
        s.drop_first()
    } else {
        s
    };
    if spells(body, seq!['i', 'n', 'f']) || spells(body, seq!['i', 'n', 'f', 'i', 'n', 'i', 't', 'y']) {
        Some(Literal::Infinite { negative })
    } else if spells(body, seq!['n', 'a', 'n']) {
        Some(Literal::NotANumber)
    } else {
        match number_literal(body) {
            Some((digits, point)) => Some(Literal::Finite { negative, digits, point }),
            None => None,
        }
    }
}

/// Whether `s` spells `word` (lower-case ASCII letters), ignoring ASCII case.
pub fn spells_word(s: &[char], word: &[char]) -> (b: bool)
    requires
        forall|i: int| 0 <= i < word@.len() ==> 'a' <= #[trigger] word@[i] <= 'z',
    ensures
        b == spells(s@, word@),
{
    if s.len() != word.len() {
        return false;
    }
    let mut i: usize = 0;
    while i < s.len()
        invariant
            s@.len() == word@.len(),
            i <= s@.len(),
            forall|j: int| 0 <= j < i ==> same_letter(#[trigger] s@[j], word@[j]),
            forall|j: int| 0 <= j < word@.len() ==> 'a' <= #[trigger] word@[j] <= 'z',
        decreases s@.len() - i,
    {
        let c = s[i];
        let l = word[i];
        assert('a' <= word@[i as int] <= 'z');
        if !(c == l || (c as u32) == (l as u32) - 32) {
            return false;
        }
        i = i + 1;
    }
    true
}

/// The characters counted by `digit_run` are digits.
pub proof fn lemma_digit_run(s: Seq<char>, i: int)
    requires
        0 <= i <= s.len(),
    ensures
        i + digit_run(s, i) <= s.len(),
        forall|j: int| i <= j < i + digit_run(s, i) ==> is_digit(#[trigger] s[j]),
    decreases s.len() - i,
{
    if i < s.len() && is_digit(s[i]) {
        lemma_digit_run(s, i + 1);
    }
}

/// Counts the consecutive ASCII digits of `s` from position `i`.
pub fn count_digit_run(s: &[char], i: usize) -> (n: usize)
    requires
        i <= s@.len(),
    ensures
        n as nat == digit_run(s@, i as int),
        i + n <= s@.len(),
{
    let mut j: usize = i;
    while j < s.len() && is_digit_char(s[j])
        invariant
            i <= j <= s@.len(),
            digit_run(s@, i as int) == (j - i) + digit_run(s@, j as int),
        decreases s@.len() - j,
    {
        j = j + 1;
    }
    j - i
}

/// The largest exponent magnitude kept exactly: any longer exponent moves
/// the decimal point past every digit a text of `usize` length can hold.
pub open spec fn exponent_cap() -> int {
    0x4_0000_0000_0000_0000
}

/// Reads a signed exponent as `exponent_value` does, with its magnitude
/// limited to `exponent_cap()`.
pub fn parse_exponent(s: &[char], from: usize) -> (r: Option<i128>)
    requires
        from <= s@.len(),
    ensures
        match exponent_value(s@.skip(from as int)) {
            Some(e) => r is Some && (if -exponent_cap() < e < exponent_cap() {
                r->0 == e
            } else if e >= exponent_cap() {
                r->0 == exponent_cap()
            } else {
                r->0 == -exponent_cap()
            }),
            None => r is None,
        },
{
    let ghost t = s@.skip(from as int);
    let negative = from < s.len() && s[from] == '-';
    let start: usize = if from < s.len() && (s[from] == '+' || s[from] == '-') {
        from + 1
    } else {
        from
    };
    let ghost body = if t.len() > 0 && (t[0] == '+' || t[0] == '-') { t.drop_first() } else { t };
    assert(body == s@.skip(start as int));
    if start >= s.len() {
        return None;
    }
    let cap: u128 = 0x4_0000_0000_0000_0000;
    let mut value: u128 = 0;
    let mut i: usize = start;
    while i < s.len()
        invariant
            start <= i <= s@.len(),
            start < s@.len(),
            body == s@.skip(start as int),
            t == s@.skip(from as int),
            body == (if t.len() > 0 && (t[0] == '+' || t[0] == '-') { t.drop_first() } else { t }),
            body.len() > 0,
            all_digits(body.take(i - start)),
            cap == exponent_cap(),
            value as int == if digits_value(body.take(i - start)) < exponent_cap() {
                digits_value(body.take(i - start)) as int
            } else {
                exponent_cap()
            },
        decreases s@.len() - i,
    {
        let c = s[i];
        if !is_digit_char(c) {
            assert(body[i - start] == c);
            assert(!all_digits(body));
            return None;
        }
        let d = digit_of(c);
        let ghost prefix = body.take(i - start + 1);
        assert(prefix.drop_last() == body.take(i - start));
        assert(prefix.last() == c);
        assert(digits_value(prefix) == digits_value(body.take(i - start)) * 10 + d);
        if value < cap {
            let next = value * 10 + d as u128;
            value = if next < cap { next } else { cap };
        }
        i = i + 1;
    }
    assert(body.take(i - start) == body);
    let magnitude = value as i128;
    if negative {
        Some(-magnitude)
    } else {
        Some(magnitude)
    }
}


/// A literal of the float grammar, as read by `parse_float_literal`.
pub enum FloatLiteral {
    NotANumber,
    Infinite { negative: bool },
    /// `point` is exact unless the exponent moved it beyond
    /// `exponent_cap()` minus the text's length (see `same_scale`).
    Finite { negative: bool, digits: Vec<char>, point: i128 },
}

/// Whether `x` and `y` are the same decimal-point position, or both lie so
/// far out that no text of length `n` can tell them apart.
pub open spec fn same_scale(x: int, y: int, n: int) -> bool {
    x == y || (x >= exponent_cap() - n && y >= exponent_cap() - n) || (x <= n - exponent_cap() && y
        <= n - exponent_cap())
}

/// Whether the exec literal `r` is the spec literal `l` of a text of length `n`.
pub open spec fn literal_matches(r: FloatLiteral, l: Literal, n: int) -> bool {
    match (r, l) {
        (FloatLiteral::NotANumber, Literal::NotANumber) => true,
        (FloatLiteral::Infinite { negative: a }, Literal::Infinite { negative: b }) => a == b,
        (
            FloatLiteral::Finite { negative: a, digits, point },
            Literal::Finite { negative: b, digits: d, point: p },
        ) => a == b && digits@ == d && same_scale(point as int, p, n) && d.len() <= n && all_digits(d)
            && -exponent_cap() - n <= point <= exponent_cap() + n,
        _ => false,
    }
}

/// Reads `s` as the float grammar does.
pub fn parse_float_literal(s: &[char]) -> (r: Option<FloatLiteral>)
    ensures
        match float_literal(s@) {
            None => r is None,
            Some(l) => r is Some && literal_matches(r->0, l, s@.len() as int),
        },
{
    let n = s.len();
    let negative = n > 0 && s[0] == '-';
    let start: usize = if n > 0 && (s[0] == '+' || s[0] == '-') { 1 } else { 0 };
    let body = slice_from(s, start);
    assert(body@ == (if s@.len() > 0 && (s@[0] == '+' || s@[0] == '-') { s@.drop_first() } else { s@ }));
    let inf = vec!['i', 'n', 'f'];
    let infinity = vec!['i', 'n', 'f', 'i', 'n', 'i', 't', 'y'];
    let nan = vec!['n', 'a', 'n'];
    assert(inf@ == seq!['i', 'n', 'f']);
    assert(infinity@ == seq!['i', 'n', 'f', 'i', 'n', 'i', 't', 'y']);
    assert(nan@ == seq!['n', 'a', 'n']);
    if spells_word(body.as_slice(), inf.as_slice()) || spells_word(body.as_slice(), infinity.as_slice()) {
        return Some(FloatLiteral::Infinite { negative });
    }
    if spells_word(body.as_slice(), nan.as_slice()) {
        return Some(FloatLiteral::NotANumber);
    }
    match parse_number(body.as_slice()) {
        Some((digits, point)) => Some(FloatLiteral::Finite { negative, digits, point }),
        None => None,
    }
}

/// Reads a `Number` of the grammar: its digits and decimal-point position.
pub fn parse_number(body: &[char]) -> (r: Option<(Vec<char>, i128)>)
    ensures
        match number_literal(body@) {
            None => r is None,
            Some((d, p)) => r is Some && (r->0).0@ == d && same_scale((r->0).1 as int, p, body@.len() as int)
                && d.len() <= body@.len() && all_digits(d) && -exponent_cap() - body@.len() <= (r->0).1
                <= exponent_cap() + body@.len(),
        },
{
    let len = body.len();
    let a = count_digit_run(body, 0);
    let has_point = a < len && body[a] == '.';
    let b = if has_point { count_digit_run(body, a + 1) } else { 0 };
    let end = if has_point { a + 1 + b } else { a };
    if a + b == 0 {
        return None;
    }
    proof {
        lemma_digit_run(body@, 0);
        if has_point {
            lemma_digit_run(body@, a + 1);
        }
    }
    let mut digits = slice_to(body, a);
    if has_point {
        let mut i = a + 1;
        while i < end
            invariant
                a + 1 <= i <= end <= body@.len(),
                digits@ == body@.take(a as int) + body@.subrange(a + 1, i as int),
                all_digits(digits@),
                forall|j: int| a + 1 <= j < end ==> is_digit(#[trigger] body@[j]),
            decreases end - i,
        {
            digits.push(body[i]);
            i = i + 1;
            assert(digits@ =~= body@.take(a as int) + body@.subrange(a + 1, i as int));
        }
    } else {
        assert(digits@ =~= body@.take(a as int) + Seq::<char>::empty());
    }
    if end == len {
        return Some((digits, a as i128));
    }
    if body[end] == 'e' || body[end] == 'E' {
        match parse_exponent(body, end + 1) {
            Some(e) => Some((digits, a as i128 + e)),
            None => None,
        }
    } else {
        None
    }
}

} // verus!

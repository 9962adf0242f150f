//! Transform dimensions (`w`, `h`): exact positive decimals.
//!
//! A value in `(0, 1)` is a fraction of the source dimension, any value
//! `>= 1` an absolute pixel count. Values above
//! [`MAX_TRANSFORM_DIMENSION`] are ignored, as ImageKit does.

use vstd::prelude::*;

use crate::domain::limits::{MAX_TRANSFORM_DIMENSION, MAX_WEBP_TRANSFORM_DIMENSION};
use crate::domain::number::{float_literal, parse_float_literal, same_scale, exponent_cap, FloatLiteral, Literal};
use crate::text::{chars_of, digits_value, all_digits, is_digit, slice_from, slice_to, parse_unsigned, unsigned_literal, decimal, push_decimal, push_chars};

verus! {

/// A positive decimal no larger than `MAX_TRANSFORM_DIMENSION`: the whole
/// part and the digits after the decimal point (without trailing zeros).
#[derive(Debug, Clone, PartialEq, Eq)]
pub struct Dimension {
    pub whole: u32,
    pub fraction: Vec<char>,
}

/// The mathematical content of a [`Dimension`].
pub struct DimensionView {
    pub whole: nat,
    pub fraction: Seq<char>,
}

impl View for Dimension {
    type V = DimensionView;

    open spec fn view(&self) -> DimensionView {
        DimensionView { whole: self.whole as nat, fraction: self.fraction@ }
    }
}

/// What a `w` / `h` value amounts to.
pub enum DimensionOutcome {
    /// Not a number, or not above zero: the pair is refused.
    Rejected,
    /// Above `MAX_TRANSFORM_DIMENSION`: the pair is ignored.
    Ignored,
    /// A dimension to apply.
    Kept { whole: nat, fraction: Seq<char> },
}

/// The number of consecutive `'0'` characters of `s` from position `i`.
pub open spec fn zero_run(s: Seq<char>, i: int) -> nat
    decreases s.len() - i,
{
    if 0 <= i < s.len() && s[i] == '0' {
        1 + zero_run(s, i + 1)
    } else {
        0
    }
}

/// The number of `'0'` characters that end `s`.
pub open spec fn trailing_zeros(s: Seq<char>) -> nat
    decreases s.len(),
{
    if s.len() > 0 && s.last() == '0' {
        1 + trailing_zeros(s.drop_last())
    } else {
        0
    }
}

/// `n` zero digits.
pub open spec fn zeros(n: nat) -> Seq<char> {
    Seq::new(n, |i: int| '0')
}

/// The digits of `2^-1075 = 0.d × 10^-323`, half the least positive `f64`:
/// a decimal at most this large reads as `0.0` (the tie rounds to even).
pub const ZERO_CUTOFF_DIGITS: &'static str = "24703282292062327208828439643411068618252990130716238221279284125033775363510437593264991818081799618989828234772285886546332835517796989819938739800539093906315035659515570226392290858392449105184435931802849936536152500319370457678249219365623669863658480757001585769269903706311928279558551332927834338409351978015531246597263579574622766465272827220056374006485499977096599470454020828166226237857393450736339007967761930577506740176324673600968951340535537458516661134223766678604162159680461914467291840300530057530849048765391711386591646239524912623653881879636239373280423891018672348497668235089863388587925628302755995657524455507255189313690836254779186948667994968324049705821028513185451396213837722826145437693412532098591327667236328125";

/// `1 - 2^-54 = 0.d × 10^0`: the least decimal that reads as `1.0`.
pub const ONE_LOW_DIGITS: &'static str = "999999999999999944488848768742172978818416595458984375";

/// `1 + 2^-53 = 0.d × 10^1`: the greatest decimal that reads as `1.0`.
pub const ONE_HIGH_DIGITS: &'static str = "100000000000000011102230246251565404236316680908203125";

/// `16383 - 2^-40 = 0.d × 10^5`: the least decimal that reads as `16383.0`.
pub const WEBP_LOW_DIGITS: &'static str = "163829999999999990905052982270717620849609375";

/// `16383 + 2^-40 = 0.d × 10^5`: the greatest decimal that reads as `16383.0`.
pub const WEBP_HIGH_DIGITS: &'static str = "163830000000000009094947017729282379150390625";

/// `65535 - 2^-38 = 0.d × 10^5`: the least decimal that reads as `65535.0`.
pub const MAX_LOW_DIGITS: &'static str = "6553499999999999636202119290828704833984375";

/// `65535 + 2^-38 = 0.d × 10^5`: the greatest decimal that reads as `65535.0`.
pub const MAX_HIGH_DIGITS: &'static str = "6553500000000000363797880709171295166015625";

/// Whether `0.a ≤ 0.b`, for digit strings without trailing zeros: the
/// lexicographic order, a prefix first.
pub open spec fn digits_le(a: Seq<char>, b: Seq<char>) -> bool
    decreases a.len(),
{
    if a.len() == 0 {
        true
    } else if b.len() == 0 {
        false
    } else if a[0] != b[0] {
        a[0] < b[0]
    } else {
        digits_le(a.drop_first(), b.drop_first())
    }
}

/// Whether `0.a × 10^p ≤ 0.b × 10^q`, for digit strings that start with a
/// non-zero digit and end without zeros.
pub open spec fn scaled_le(a: Seq<char>, p: int, b: Seq<char>, q: int) -> bool {
    p < q || (p == q && digits_le(a, b))
}

/// Whether `0.a × 10^p` lies in `[0.lo × 10^lp, 0.hi × 10^hp]`.
pub open spec fn within(a: Seq<char>, p: int, lo: Seq<char>, lp: int, hi: Seq<char>, hp: int) -> bool {
    scaled_le(lo, lp, a, p) && scaled_le(a, p, hi, hp)
}

/// The limit integer that `0.d × 10^p` reads as when it reads as `1.0`,
/// `16383.0` or `65535.0`; these are the values the limits compare with.
pub open spec fn anchored(d: Seq<char>, p: int) -> Option<nat> {
    if within(d, p, ONE_LOW_DIGITS@, 0, ONE_HIGH_DIGITS@, 1) {
        Some(1)
    } else if within(d, p, WEBP_LOW_DIGITS@, 5, WEBP_HIGH_DIGITS@, 5) {
        Some(MAX_WEBP_TRANSFORM_DIMENSION as nat)
    } else if within(d, p, MAX_LOW_DIGITS@, 5, MAX_HIGH_DIGITS@, 5) {
        Some(MAX_TRANSFORM_DIMENSION as nat)
    } else {
        None
    }
}

/// The outcome for the positive value `0.d1 × 10^p`, where `d1` has no
/// leading zero. The value is compared as the `f64` it reads as: one that
/// reads as `0.0` is refused, one that reads as `1.0`, `16383.0` or
/// `65535.0` is that integer, and one above `65535.0` is ignored.
pub open spec fn positive_outcome(d1: Seq<char>, p: int) -> DimensionOutcome {
    let d2 = d1.take(d1.len() - trailing_zeros(d1));
    if p > 5 {
        DimensionOutcome::Ignored
    } else if scaled_le(d2, p, ZERO_CUTOFF_DIGITS@, -323) {
        DimensionOutcome::Rejected
    } else if let Some(a) = anchored(d2, p) {
        DimensionOutcome::Kept { whole: a, fraction: Seq::<char>::empty() }
    } else {
        let whole_digits = if p <= 0 {
            Seq::<char>::empty()
        } else if p <= d2.len() {
            d2.take(p)
        } else {
            d2 + zeros((p - d2.len()) as nat)
        };
        let fraction = if p >= d2.len() {
            Seq::<char>::empty()
        } else if p >= 0 {
            d2.skip(p)
        } else {
            zeros((-p) as nat) + d2
        };
        let whole = digits_value(whole_digits);
        if whole > MAX_TRANSFORM_DIMENSION || (whole == MAX_TRANSFORM_DIMENSION && fraction.len() > 0) {
            DimensionOutcome::Ignored
        } else {
            DimensionOutcome::Kept { whole, fraction }
        }
    }
}

/// What the `w` / `h` value `s` amounts to: refused unless it is a number
/// above zero, ignored when above `MAX_TRANSFORM_DIMENSION`.
pub open spec fn dimension_outcome(s: Seq<char>) -> DimensionOutcome {
    match float_literal(s) {
        None => DimensionOutcome::Rejected,
        Some(Literal::NotANumber) => DimensionOutcome::Rejected,
        Some(Literal::Infinite { negative }) => if negative {
            DimensionOutcome::Rejected
        } else {
            DimensionOutcome::Ignored
        },
        Some(Literal::Finite { negative, digits, point }) => {
            let z = zero_run(digits, 0);
            if z == digits.len() || negative {
                DimensionOutcome::Rejected
            } else {
                positive_outcome(digits.skip(z as int), point - z)
            }
        },
    }
}

/// Counts the `'0'` characters of `s` from position `i`.
fn count_zero_run(s: &[char], i: usize) -> (n: usize)
    requires
        i <= s@.len(),
    ensures
        n as nat == zero_run(s@, i as int),
        i + n <= s@.len(),
{
    let mut j: usize = i;
    while j < s.len() && s[j] == '0'
        invariant
            i <= j <= s@.len(),
            zero_run(s@, i as int) == (j - i) + zero_run(s@, j as int),
        decreases s@.len() - j,
    {
        j = j + 1;
    }
    j - i
}

/// Counts the `'0'` characters that end `s`.
fn count_trailing_zeros(s: &[char]) -> (n: usize)
    ensures
        n as nat == trailing_zeros(s@),
        n <= s@.len(),
{
    let mut k: usize = s.len();
    assert(s@.take(k as int) == s@);
    while k > 0 && s[k - 1] == '0'
        invariant
            k <= s@.len(),
            trailing_zeros(s@) == (s@.len() - k) + trailing_zeros(s@.take(k as int)),
        decreases k,
    {
        assert(s@.take(k as int).drop_last() == s@.take(k - 1));
        k = k - 1;
    }
    s.len() - k
}

/// Appends `n` zero digits.
fn push_zeros(out: &mut Vec<char>, n: usize)
    ensures
        final(out)@ == old(out)@ + zeros(n as nat),
{
    let ghost start = out@;
    let mut i: usize = 0;
    while i < n
        invariant
            i <= n,
            out@ == start + zeros(i as nat),
        decreases n - i,
    {
        out.push('0');
        i = i + 1;
        assert(out@ =~= start + zeros(i as nat));
    }
}

/// The value of at most five decimal digits.
fn small_digits_value(s: &[char]) -> (v: u32)
    requires
        all_digits(s@),
        s@.len() <= 5,
    ensures
        v as nat == digits_value(s@),
{
    let mut v: u32 = 0;
    let mut i: usize = 0;
    while i < s.len()
        invariant
            i <= s@.len() <= 5,
            all_digits(s@),
            v as nat == digits_value(s@.take(i as int)),
            v < pow10(i as nat),
        decreases s@.len() - i,
    {
        assert(is_digit(s@[i as int]));
        let d = crate::text::digit_of(s[i]);
        assert(s@.take(i + 1).drop_last() == s@.take(i as int));
        assert(pow10((i + 1) as nat) == 10 * pow10(i as nat));
        assert(pow10(i as nat) <= 10000) by {
            lemma_pow10_small(i as nat);
        }
        v = v * 10 + d as u32;
        i = i + 1;
    }
    assert(s@.take(i as int) == s@);
    v
}

/// `10^n`.
pub open spec fn pow10(n: nat) -> nat
    decreases n,
{
    if n == 0 {
        1
    } else {
        10 * pow10((n - 1) as nat)
    }
}

proof fn lemma_pow10_small(n: nat)
    requires
        n <= 4,
    ensures
        pow10(n) <= 10000,
{
    reveal_with_fuel(pow10, 5);
}


/// Whether a dimension is positive, no larger than `MAX_TRANSFORM_DIMENSION`
/// and written without trailing zeros.
pub open spec fn dimension_wf(d: DimensionView) -> bool {
    &&& all_digits(d.fraction)
    &&& (d.fraction.len() > 0 ==> d.fraction.last() != '0')
    &&& (d.whole > 0 || d.fraction.len() > 0)
    &&& d.whole <= MAX_TRANSFORM_DIMENSION
    &&& (d.whole == MAX_TRANSFORM_DIMENSION ==> d.fraction.len() == 0)
}

/// Whether the exec result `r` is the outcome `o`.
pub open spec fn outcome_matches(r: Result<Option<Dimension>, ()>, o: DimensionOutcome) -> bool {
    match o {
        DimensionOutcome::Rejected => r is Err,
        DimensionOutcome::Ignored => r matches Ok(None),
        DimensionOutcome::Kept { whole, fraction } => r matches Ok(Some(d)) && d@ == DimensionView {
            whole,
            fraction,
        } && dimension_wf(d@),
    }
}

/// Whether `0.a ≤ 0.b` ([`digits_le`]).
fn digits_le_chars(a: &[char], b: &[char]) -> (r: bool)
    ensures
        r == digits_le(a@, b@),
{
    let mut i: usize = 0;
    assert(a@.skip(0) =~= a@ && b@.skip(0) =~= b@);
    while i < a.len() && i < b.len() && a[i] == b[i]
        invariant
            i <= a@.len(),
            i <= b@.len(),
            digits_le(a@, b@) == digits_le(a@.skip(i as int), b@.skip(i as int)),
        decreases a@.len() - i,
    {
        let ghost (sa, sb) = (a@.skip(i as int), b@.skip(i as int));
        assert(sa.drop_first() =~= a@.skip(i + 1));
        assert(sb.drop_first() =~= b@.skip(i + 1));
        i = i + 1;
    }
    let ghost (sa, sb) = (a@.skip(i as int), b@.skip(i as int));
    if i == a.len() {
        assert(sa.len() == 0);
        true
    } else if i == b.len() {
        false
    } else {
        assert(sa[0] == a@[i as int] && sb[0] == b@[i as int]);
        a[i] < b[i]
    }
}

/// Whether `0.a × 10^p ≤ 0.b × 10^q` ([`scaled_le`]).
fn scaled_le_chars(a: &[char], p: i128, b: &[char], q: i128) -> (r: bool)
    ensures
        r == scaled_le(a@, p as int, b@, q as int),
{
    p < q || (p == q && digits_le_chars(a, b))
}

/// The limit integer that `0.d × 10^p` reads as, if any ([`anchored`]).
fn anchored_chars(d: &[char], p: i128) -> (r: Option<u32>)
    ensures
        match anchored(d@, p as int) {
            Some(a) => r == Some(a as u32) && a <= MAX_TRANSFORM_DIMENSION,
            None => r is None,
        },
{
    let one_low = chars_of(ONE_LOW_DIGITS);
    let one_high = chars_of(ONE_HIGH_DIGITS);
    if scaled_le_chars(one_low.as_slice(), 0, d, p) && scaled_le_chars(d, p, one_high.as_slice(), 1) {
        return Some(1);
    }
    let webp_low = chars_of(WEBP_LOW_DIGITS);
    let webp_high = chars_of(WEBP_HIGH_DIGITS);
    if scaled_le_chars(webp_low.as_slice(), 5, d, p) && scaled_le_chars(d, p, webp_high.as_slice(), 5) {
        return Some(MAX_WEBP_TRANSFORM_DIMENSION);
    }
    let max_low = chars_of(MAX_LOW_DIGITS);
    let max_high = chars_of(MAX_HIGH_DIGITS);
    if scaled_le_chars(max_low.as_slice(), 5, d, p) && scaled_le_chars(d, p, max_high.as_slice(), 5) {
        return Some(MAX_TRANSFORM_DIMENSION);
    }
    None
}

/// The outcome for `0.d1 × 10^p` where `d1` starts with a non-zero digit.
fn positive_dimension(d1: &[char], p: i128) -> (r: Result<Option<Dimension>, ()>)
    requires
        d1@.len() > 0,
        d1@[0] != '0',
        all_digits(d1@),
    ensures
        outcome_matches(r, positive_outcome(d1@, p as int)),
{
    let t = count_trailing_zeros(d1);
    let len2 = d1.len() - t;
    proof { lemma_trailing_zeros(d1@); }
    let d2 = slice_to(d1, len2);
    assert(d2@ == d1@.take(d1@.len() - trailing_zeros(d1@)));
    if p > 5 {
        return Ok(None);
    }
    let cutoff = chars_of(ZERO_CUTOFF_DIGITS);
    if scaled_le_chars(d2.as_slice(), p, cutoff.as_slice(), -323) {
        return Err(());
    }
    if let Some(a) = anchored_chars(d2.as_slice(), p) {
        let fraction: Vec<char> = Vec::new();
        assert(fraction@ =~= Seq::<char>::empty());
        return Ok(Some(Dimension { whole: a, fraction }));
    }
    assert(len2 > 0);
    assert(all_digits(d2@));
    let mut whole_digits: Vec<char> = Vec::new();
    if p > 0 {
        let pu = p as usize;
        if pu <= len2 {
            whole_digits = slice_to(d2.as_slice(), pu);
        } else {
            whole_digits = slice_to(d2.as_slice(), len2);
            assert(whole_digits@ == d2@);
            push_zeros(&mut whole_digits, pu - len2);
        }
    } else {
        assert(whole_digits@ =~= Seq::<char>::empty());
    }
    let mut fraction: Vec<char> = Vec::new();
    if p >= len2 as i128 {
        assert(fraction@ =~= Seq::<char>::empty());
    } else if p >= 0 {
        fraction = slice_from(d2.as_slice(), p as usize);
    } else {
        push_zeros(&mut fraction, (-p) as usize);
        push_chars(&mut fraction, d2.as_slice());
    }
    assert(all_digits(whole_digits@));
    let whole = small_digits_value(whole_digits.as_slice());
    if whole > MAX_TRANSFORM_DIMENSION || (whole == MAX_TRANSFORM_DIMENSION && fraction.len() > 0) {
        return Ok(None);
    }
    assert(all_digits(fraction@));
    assert(fraction@.len() > 0 ==> fraction@.last() == d2@.last());
    proof {
        if whole == 0 && fraction@.len() == 0 {
            assert(p > 0);
            lemma_leading_digit_value(whole_digits@);
        }
    }
    Ok(Some(Dimension { whole, fraction }))
}

/// The digits kept after removing trailing zeros end with a non-zero digit.
pub proof fn lemma_trailing_zeros(s: Seq<char>)
    ensures
        trailing_zeros(s) <= s.len(),
        s.len() - trailing_zeros(s) > 0 ==> s[s.len() - trailing_zeros(s) - 1] != '0',
        forall|i: int| s.len() - trailing_zeros(s) <= i < s.len() ==> s[i] == '0',
    decreases s.len(),
{
    if s.len() > 0 && s.last() == '0' {
        lemma_trailing_zeros(s.drop_last());
        assert forall|i: int| s.len() - trailing_zeros(s) <= i < s.len() implies s[i] == '0' by {
            if i < s.len() - 1 {
                assert(s.drop_last()[i] == s[i]);
            }
        }
        if s.len() - trailing_zeros(s) > 0 {
            assert(s.drop_last()[s.len() - trailing_zeros(s) - 1] == s[s.len() - trailing_zeros(s) - 1]);
        }
    }
}

/// Digits that start with a non-zero digit have a non-zero value.
pub proof fn lemma_leading_digit_value(s: Seq<char>)
    requires
        s.len() > 0,
        all_digits(s),
        s[0] != '0',
    ensures
        digits_value(s) > 0,
    decreases s.len(),
{
    if s.len() > 1 {
        assert(s.drop_last()[0] == s[0]);
        lemma_leading_digit_value(s.drop_last());
    } else {
        assert(is_digit(s[0]));
    }
}


/// Decimal-point positions that no text can tell apart give the same outcome.
proof fn lemma_same_scale_outcome(d1: Seq<char>, x: int, y: int, z: int, n: int)
    requires
        same_scale(x, y, n),
        0 <= z <= n <= usize::MAX,
    ensures
        positive_outcome(d1, x - z) == positive_outcome(d1, y - z),
{
}

/// Reads a `w` / `h` value: `Err` when it is refused, `Ok(None)` when it is
/// ignored, and the dimension otherwise.
pub fn parse_dimension(value: &[char]) -> (r: Result<Option<Dimension>, ()>)
    ensures
        outcome_matches(r, dimension_outcome(value@)),
{
    let n = value.len();
    match parse_float_literal(value) {
        None => Err(()),
        Some(FloatLiteral::NotANumber) => Err(()),
        Some(FloatLiteral::Infinite { negative }) => {
            if negative {
                Err(())
            } else {
                Ok(None)
            }
        },
        Some(FloatLiteral::Finite { negative, digits, point }) => {
            let z = count_zero_run(digits.as_slice(), 0);
            if z == digits.len() || negative {
                return Err(());
            }
            let d1 = slice_from(digits.as_slice(), z);
            proof {
                lemma_zero_run(digits@, 0);
                let l = float_literal(value@)->0;
                lemma_same_scale_outcome(d1@, point as int, l->point, z as int, n as int);
            }
            assert(d1@[0] == digits@[z as int]);
            let p: i128 = point - z as i128;
            positive_dimension(d1.as_slice(), p)
        },
    }
}

/// The zeros counted by `zero_run` are zeros and the next character is not.
pub proof fn lemma_zero_run(s: Seq<char>, i: int)
    requires
        0 <= i <= s.len(),
    ensures
        i + zero_run(s, i) <= s.len(),
        i + zero_run(s, i) < s.len() ==> s[i + zero_run(s, i)] != '0',
    decreases s.len() - i,
{
    if i < s.len() && s[i] == '0' {
        lemma_zero_run(s, i + 1);
    }
}


/// The decimal notation of a dimension: the whole part, then a point and the
/// fraction digits when there are any.
pub open spec fn dimension_text(d: DimensionView) -> Seq<char> {
    decimal(d.whole) + if d.fraction.len() > 0 {
        seq!['.'] + d.fraction
    } else {
        Seq::<char>::empty()
    }
}

impl Dimension {
    /// The decimal notation of this dimension (`606`, `0.5`); reading it as
    /// an `f64` gives the value the transform text denotes.
    pub fn to_text(&self) -> (s: String)
        ensures
            s@ == dimension_text(self@),
    {
        let mut out: Vec<char> = Vec::new();
        push_decimal(&mut out, self.whole as u64);
        if self.fraction.len() > 0 {
            out.push('.');
            push_chars(&mut out, self.fraction.as_slice());
        }
        assert(out@ =~= dimension_text(self@));
        crate::text::string_from_chars(out.as_slice())
    }

    /// A copy of this dimension.
    pub fn duplicate(&self) -> (d: Self)
        ensures
            d@ == self@,
    {
        let fraction = slice_from(self.fraction.as_slice(), 0);
        assert(fraction@ =~= self.fraction@);
        Dimension { whole: self.whole, fraction }
    }

    /// Whether this dimension is a fraction of the source size (below 1).
    pub fn is_fraction(&self) -> (b: bool)
        ensures
            b == (self.whole == 0),
    {
        self.whole == 0
    }
}


/// Every dimension kept from `0.d1 × 10^p` is well formed.
proof fn lemma_positive_outcome_wf(d1: Seq<char>, p: int)
    requires
        d1.len() > 0,
        d1[0] != '0',
        all_digits(d1),
    ensures
        positive_outcome(d1, p) matches DimensionOutcome::Kept { whole, fraction } ==> dimension_wf(
            DimensionView { whole, fraction },
        ),
{
    lemma_trailing_zeros(d1);
    let t = trailing_zeros(d1);
    let d2 = d1.take(d1.len() - t);
    if t == d1.len() {
        assert(d1[0] == '0');
    }
    assert(d2.len() > 0);
    assert(d2[0] == d1[0]);
    assert(d2.last() == d1[d1.len() - t - 1]);
    assert(all_digits(d2));
    if p <= 5 && !scaled_le(d2, p, ZERO_CUTOFF_DIGITS@, -323) && anchored(d2, p) is None {
        let whole_digits = if p <= 0 {
            Seq::<char>::empty()
        } else if p <= d2.len() {
            d2.take(p)
        } else {
            d2 + zeros((p - d2.len()) as nat)
        };
        let fraction = if p >= d2.len() {
            Seq::<char>::empty()
        } else if p >= 0 {
            d2.skip(p)
        } else {
            zeros((-p) as nat) + d2
        };
        assert(all_digits(fraction));
        assert(fraction.len() > 0 ==> fraction.last() == d2.last());
        assert(all_digits(whole_digits));
        if p > 0 {
            assert(whole_digits[0] == d2[0]);
            lemma_leading_digit_value(whole_digits);
        }
    }
}

/// The digits of a finite literal are decimal digits.
proof fn lemma_literal_digits(s: Seq<char>)
    ensures
        float_literal(s) matches Some(Literal::Finite { digits, .. }) ==> all_digits(digits),
{
    let body = if s.len() > 0 && (s[0] == '+' || s[0] == '-') {
        s.drop_first()
    } else {
        s
    };
    crate::domain::number::lemma_digit_run(body, 0);
    let a = crate::domain::number::digit_run(body, 0) as int;
    if a < body.len() && body[a] == '.' {
        crate::domain::number::lemma_digit_run(body, a + 1);
    }
}

/// Every dimension a transform value keeps is well formed: positive, at
/// most `MAX_TRANSFORM_DIMENSION`, written without trailing zeros.
pub proof fn lemma_outcome_wf(s: Seq<char>)
    ensures
        dimension_outcome(s) matches DimensionOutcome::Kept { whole, fraction } ==> dimension_wf(
            DimensionView { whole, fraction },
        ),
{
    lemma_literal_digits(s);
    if let Some(Literal::Finite { negative, digits, point }) = float_literal(s) {
        let z = zero_run(digits, 0);
        lemma_zero_run(digits, 0);
        if z < digits.len() && !negative {
            let d1 = digits.skip(z as int);
            assert(d1[0] == digits[z as int]);
            lemma_positive_outcome_wf(d1, point - z);
        }
    }
}

} // verus!

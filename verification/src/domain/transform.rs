//! Parsing of ImageKit-style transform strings and cache-key derivation.
//!
//! Two URL styles are supported:
//!
//! - path:  `/tr:w-606,h-450,f-jpeg/folder/image.png`
//! - query: `/folder/image.png?tr=w-606,h-450,f-jpeg`
//!
//! Supported keys: `w` (width), `h` (height), `q` (quality), `f` (format).
//! When both a path and a query transform are present, the query is applied
//! last and so wins.

use std::str::FromStr;

use vstd::prelude::*;
use vstd::utf8::encode_utf8;

use crate::config::Config;
use crate::domain::dimension::{
    Dimension, DimensionView, DimensionOutcome, dimension_outcome, dimension_wf, outcome_matches,
    parse_dimension,
};
use crate::domain::digest::{hex_encode, hex_lower, lemma_hex_lower_len, sha256, sha256_digest};
use crate::domain::limits::MAX_WEBP_TRANSFORM_DIMENSION;
use crate::domain::number::{spells, spells_word};
use crate::error::AppError;
use crate::text::{
    lemma_split_concat, lemma_split_nonempty,
    chars_of, decimal, join, join_from, pieces_view, push_chars, push_decimal, push_str, split,
    split_chars, split_once, split_once_chars, starts_with, starts_with_chars, string_from_chars,
    trim_start_all, trim_start_matches, unsigned_literal, parse_unsigned, is_first_index,
};

verus! {

/// The output encoding requested for a transform.
#[derive(Debug, Clone, Copy, PartialEq, Eq, Structural)]
pub enum OutputFormat {
    Jpeg,
    Png,
    WebP,
}

/// The format named by `raw` (`jpeg`, `jpg`, `png`, `webp`, in any ASCII case).
pub open spec fn format_named(raw: Seq<char>) -> Option<OutputFormat> {
    if spells(raw, seq!['j', 'p', 'e', 'g']) || spells(raw, seq!['j', 'p', 'g']) {
        Some(OutputFormat::Jpeg)
    } else if spells(raw, seq!['p', 'n', 'g']) {
        Some(OutputFormat::Png)
    } else if spells(raw, seq!['w', 'e', 'b', 'p']) {
        Some(OutputFormat::WebP)
    } else {
        None
    }
}

/// The `Content-Type` of a format.
pub open spec fn content_type_of(f: OutputFormat) -> Seq<char> {
    match f {
        OutputFormat::Jpeg => "image/jpeg"@,
        OutputFormat::Png => "image/png"@,
        OutputFormat::WebP => "image/webp"@,
    }
}

/// The lower-case name of a format, as the canonical transform text writes it.
pub open spec fn format_name(f: OutputFormat) -> Seq<char> {
    match f {
        OutputFormat::Jpeg => seq!['j', 'p', 'e', 'g'],
        OutputFormat::Png => seq!['p', 'n', 'g'],
        OutputFormat::WebP => seq!['w', 'e', 'b', 'p'],
    }
}

/// Reads a format token.
pub fn format_from_chars(raw: &[char]) -> (r: Option<OutputFormat>)
    ensures
        r == format_named(raw@),
{
    let jpeg = vec!['j', 'p', 'e', 'g'];
    let jpg = vec!['j', 'p', 'g'];
    let png = vec!['p', 'n', 'g'];
    let webp = vec!['w', 'e', 'b', 'p'];
    assert(jpeg@ == seq!['j', 'p', 'e', 'g']);
    assert(jpg@ == seq!['j', 'p', 'g']);
    assert(png@ == seq!['p', 'n', 'g']);
    assert(webp@ == seq!['w', 'e', 'b', 'p']);
    if spells_word(raw, jpeg.as_slice()) || spells_word(raw, jpg.as_slice()) {
        Some(OutputFormat::Jpeg)
    } else if spells_word(raw, png.as_slice()) {
        Some(OutputFormat::Png)
    } else if spells_word(raw, webp.as_slice()) {
        Some(OutputFormat::WebP)
    } else {
        None
    }
}

impl OutputFormat {
    /// Parses a format token (`jpeg`, `jpg`, `png`, `webp`, in any ASCII case).
    pub fn parse(raw: &str) -> (r: Option<Self>)
        ensures
            r == format_named(raw@),
    {
        let chars = chars_of(raw);
        format_from_chars(chars.as_slice())
    }

    /// The `Content-Type` value matching this format.
    pub fn content_type(self) -> (s: &'static str)
        ensures
            s@ == content_type_of(self),
    {
        match self {
            OutputFormat::Jpeg => "image/jpeg",
            OutputFormat::Png => "image/png",
            OutputFormat::WebP => "image/webp",
        }
    }

    /// The lower-case name of this format.
    pub fn name(self) -> (s: Vec<char>)
        ensures
            s@ == format_name(self),
    {
        match self {
            OutputFormat::Jpeg => vec!['j', 'p', 'e', 'g'],
            OutputFormat::Png => vec!['p', 'n', 'g'],
            OutputFormat::WebP => vec!['w', 'e', 'b', 'p'],
        }
    }
}

/// Reading back the name of a format gives that format.
pub proof fn lemma_format_name_roundtrip(f: OutputFormat)
    ensures
        format_named(format_name(f)) == Some(f),
{
    let n = format_name(f);
    assert forall|i: int| 0 <= i < n.len() implies crate::domain::number::same_letter(#[trigger] n[i], n[i]) by {}
    match f {
        OutputFormat::Jpeg => {},
        OutputFormat::Png => {
            assert(!spells(n, seq!['j', 'p', 'e', 'g']));
            assert(n[0] != 'j');
            assert(!spells(n, seq!['j', 'p', 'g']));
        },
        OutputFormat::WebP => {
            assert(n[0] != 'j' && n[0] != 'p');
            assert(!spells(n, seq!['j', 'p', 'g']));
            assert(!spells(n, seq!['p', 'n', 'g']));
        },
    }
}

/// A parsed and defaulted set of transform instructions.
///
/// `width`/`height` follow the ImageKit convention: a value in `(0, 1)` is a
/// fraction of the source dimension, any value `>= 1` is an absolute pixel
/// count.
#[derive(Debug, Clone, PartialEq, Eq)]
pub struct Transformations {
    pub width: Option<Dimension>,
    pub height: Option<Dimension>,
    pub quality: u8,
    pub format: OutputFormat,
}

/// The mathematical content of [`Transformations`].
pub struct TransformationsView {
    pub width: Option<DimensionView>,
    pub height: Option<DimensionView>,
    pub quality: u8,
    pub format: OutputFormat,
}

/// The view of an optional dimension.
pub open spec fn opt_view(d: Option<Dimension>) -> Option<DimensionView> {
    match d {
        Some(d) => Some(d@),
        None => None,
    }
}

impl View for Transformations {
    type V = TransformationsView;

    open spec fn view(&self) -> TransformationsView {
        TransformationsView {
            width: opt_view(self.width),
            height: opt_view(self.height),
            quality: self.quality,
            format: self.format,
        }
    }
}

/// A copy of an optional dimension.
fn duplicate_dimension(d: &Option<Dimension>) -> (r: Option<Dimension>)
    ensures
        opt_view(r) == opt_view(*d),
{
    match d {
        Some(d) => Some(d.duplicate()),
        None => None,
    }
}

impl Transformations {
    /// A copy of these transformations.
    pub fn duplicate(&self) -> (t: Self)
        ensures
            t@ == self@,
    {
        Transformations {
            width: duplicate_dimension(&self.width),
            height: duplicate_dimension(&self.height),
            quality: self.quality,
            format: self.format,
        }
    }
}

/// Applies one `key-value` pair; an empty pair changes nothing, a pair
/// without `-` or with a bad value is refused with the pair as message,
/// unknown keys are ignored.
pub open spec fn apply_pair(pair: Seq<char>, t: TransformationsView) -> Result<TransformationsView, Seq<char>> {
    if pair.len() == 0 {
        Ok(t)
    } else {
        match split_once(pair, '-') {
            None => Err(pair),
            Some((key, value)) => if key == seq!['w'] {
                match dimension_outcome(value) {
                    DimensionOutcome::Rejected => Err(pair),
                    DimensionOutcome::Ignored => Ok(t),
                    DimensionOutcome::Kept { whole, fraction } => Ok(
                        TransformationsView { width: Some(DimensionView { whole, fraction }), ..t },
                    ),
                }
            } else if key == seq!['h'] {
                match dimension_outcome(value) {
                    DimensionOutcome::Rejected => Err(pair),
                    DimensionOutcome::Ignored => Ok(t),
                    DimensionOutcome::Kept { whole, fraction } => Ok(
                        TransformationsView { height: Some(DimensionView { whole, fraction }), ..t },
                    ),
                }
            } else if key == seq!['q'] {
                match unsigned_literal(value) {
                    Some(q) => if 1 <= q <= 100 {
                        Ok(TransformationsView { quality: q as u8, ..t })
                    } else {
                        Err(pair)
                    },
                    None => Err(pair),
                }
            } else if key == seq!['f'] {
                match format_named(value) {
                    Some(f) => Ok(TransformationsView { format: f, ..t }),
                    None => Err(pair),
                }
            } else {
                Ok(t)
            },
        }
    }
}

/// Applies the pairs in order, stopping at the first refused one.
pub open spec fn apply_pairs(pairs: Seq<Seq<char>>, t: TransformationsView) -> Result<TransformationsView, Seq<char>>
    decreases pairs.len(),
{
    if pairs.len() == 0 {
        Ok(t)
    } else {
        match apply_pair(pairs[0], t) {
            Err(e) => Err(e),
            Ok(next) => apply_pairs(pairs.drop_first(), next),
        }
    }
}

/// Applies a comma-separated transform string.
pub open spec fn apply_transform_text(raw: Seq<char>, t: TransformationsView) -> Result<TransformationsView, Seq<char>> {
    apply_pairs(split(raw, ','), t)
}


/// Whether the exec outcome `r` of applying to `old` is the spec outcome `o`.
pub open spec fn applied(r: Result<(), AppError>, new: TransformationsView, o: Result<TransformationsView, Seq<char>>) -> bool {
    match o {
        Ok(t) => r is Ok && new == t,
        Err(e) => r matches Err(AppError::InvalidTransform(m)) && m@ == e,
    }
}

/// The refusal of a transform pair.
fn invalid_pair(pair: &[char]) -> (e: AppError)
    ensures
        e matches AppError::InvalidTransform(m) && m@ == pair@,
{
    AppError::InvalidTransform(string_from_chars(pair))
}

/// Applies one `key-value` pair to `out`.
fn apply_one(pair: &[char], out: &mut Transformations) -> (r: Result<(), AppError>)
    ensures
        applied(r, final(out)@, apply_pair(pair@, old(out)@)),
{
    if pair.len() == 0 {
        return Ok(());
    }
    match split_once_chars(pair, '-') {
        None => Err(invalid_pair(pair)),
        Some((key, value)) => {
            let single = key.len() == 1;
            if single && key[0] == 'w' {
                assert(key@ =~= seq!['w']);
                match parse_dimension(value.as_slice()) {
                    Err(()) => Err(invalid_pair(pair)),
                    Ok(None) => Ok(()),
                    Ok(Some(d)) => {
                        out.width = Some(d);
                        Ok(())
                    },
                }
            } else if single && key[0] == 'h' {
                assert(key@ =~= seq!['h']);
                assert(key@ != seq!['w']);
                match parse_dimension(value.as_slice()) {
                    Err(()) => Err(invalid_pair(pair)),
                    Ok(None) => Ok(()),
                    Ok(Some(d)) => {
                        out.height = Some(d);
                        Ok(())
                    },
                }
            } else if single && key[0] == 'q' {
                assert(key@ =~= seq!['q']);
                assert(key@ != seq!['w'] && key@ != seq!['h']);
                match parse_unsigned(value.as_slice(), 255) {
                    Some(q) => {
                        if 1 <= q && q <= 100 {
                            out.quality = q as u8;
                            Ok(())
                        } else {
                            Err(invalid_pair(pair))
                        }
                    },
                    None => Err(invalid_pair(pair)),
                }
            } else if single && key[0] == 'f' {
                assert(key@ =~= seq!['f']);
                assert(key@ != seq!['w'] && key@ != seq!['h'] && key@ != seq!['q']);
                match format_from_chars(value.as_slice()) {
                    Some(f) => {
                        out.format = f;
                        Ok(())
                    },
                    None => Err(invalid_pair(pair)),
                }
            } else {
                assert(key@ != seq!['w']);
                assert(key@ != seq!['h']);
                assert(key@ != seq!['q']);
                assert(key@ != seq!['f']);
                Ok(())
            }
        },
    }
}

/// Applies a comma-separated transform string to `out`, pair by pair.
pub fn apply_transforms(raw: &[char], out: &mut Transformations) -> (r: Result<(), AppError>)
    ensures
        applied(r, final(out)@, apply_transform_text(raw@, old(out)@)),
{
    let pieces = split_chars(raw, ',');
    let ghost all = pieces_view(pieces@);
    let ghost start = out@;
    let mut i: usize = 0;
    assert(all.skip(0) == all);
    while i < pieces.len()
        invariant
            i <= pieces@.len(),
            all == pieces_view(pieces@),
            all == split(raw@, ','),
            start == old(out)@,
            apply_pairs(all, start) == apply_pairs(all.skip(i as int), out@),
        decreases pieces@.len() - i,
    {
        let ghost before = out@;
        assert(all.skip(i as int)[0] == pieces@[i as int]@);
        assert(all.skip(i as int).drop_first() == all.skip(i + 1));
        let step = apply_one(pieces[i].as_slice(), out);
        if step.is_err() {
            assert(apply_pair(all.skip(i as int)[0], before) is Err);
            assert(apply_pairs(all.skip(i as int), before) == apply_pair(all.skip(i as int)[0], before));
            return step;
        }
        i = i + 1;
    }
    assert(all.skip(i as int) =~= Seq::<Seq<char>>::empty());
    Ok(())
}

/// Whether a dimension exceeds the WebP limit.
pub open spec fn exceeds_webp(d: DimensionView) -> bool {
    d.whole > MAX_WEBP_TRANSFORM_DIMENSION || (d.whole == MAX_WEBP_TRANSFORM_DIMENSION && d.fraction.len() > 0)
}

/// The refusal message for a WebP dimension above the limit.
pub open spec fn webp_limit_message(label: char) -> Seq<char> {
    seq![label] + " exceeds WebP max of "@ + decimal(MAX_WEBP_TRANSFORM_DIMENSION as nat) + "px"@
}

/// The WebP limit check: absolute WebP dimensions above 16383 px are refused,
/// the width first.
pub open spec fn webp_violation(t: TransformationsView) -> Option<Seq<char>> {
    if t.format != OutputFormat::WebP {
        None
    } else if t.width matches Some(w) && exceeds_webp(w) {
        Some(webp_limit_message('w'))
    } else if t.height matches Some(h) && exceeds_webp(h) {
        Some(webp_limit_message('h'))
    } else {
        None
    }
}

/// Whether `d` exceeds the WebP limit.
fn dimension_exceeds_webp(d: &Dimension) -> (b: bool)
    ensures
        b == exceeds_webp(d@),
{
    d.whole > MAX_WEBP_TRANSFORM_DIMENSION || (d.whole == MAX_WEBP_TRANSFORM_DIMENSION && d.fraction.len() > 0)
}

/// The refusal for a WebP dimension above the limit.
fn webp_limit_error(label: char) -> (e: AppError)
    ensures
        e matches AppError::InvalidTransform(m) && m@ == webp_limit_message(label),
{
    let mut out: Vec<char> = Vec::new();
    out.push(label);
    push_str(&mut out, " exceeds WebP max of ");
    push_decimal(&mut out, MAX_WEBP_TRANSFORM_DIMENSION as u64);
    push_str(&mut out, "px");
    assert(out@ =~= webp_limit_message(label));
    AppError::InvalidTransform(string_from_chars(out.as_slice()))
}

/// WebP absolute transform dimensions above 16383 px are rejected by ImageKit.
pub fn validate_webp_dimensions(t: &Transformations) -> (r: Result<(), AppError>)
    ensures
        match webp_violation(t@) {
            None => r is Ok,
            Some(m) => r matches Err(AppError::InvalidTransform(e)) && e@ == m,
        },
{
    if t.format != OutputFormat::WebP {
        return Ok(());
    }
    if let Some(w) = &t.width {
        if dimension_exceeds_webp(w) {
            return Err(webp_limit_error('w'));
        }
    }
    if let Some(h) = &t.height {
        if dimension_exceeds_webp(h) {
            return Err(webp_limit_error('h'));
        }
    }
    Ok(())
}


/// The result of parsing an incoming request path and query.
#[derive(Debug, Clone, PartialEq, Eq)]
pub struct ParsedRequest {
    /// S3 key of the source image.
    pub image_path: String,
    pub transformations: Transformations,
}

/// The prefix that marks a path transform segment.
pub open spec fn tr_prefix() -> Seq<char> {
    seq!['t', 'r', ':']
}

/// The view of an optional string slice.
pub open spec fn opt_str_view(s: Option<&str>) -> Option<Seq<char>> {
    match s {
        Some(s) => Some(s@),
        None => None,
    }
}

/// Parses a request path (with its leading `/`) and an optional `tr` query
/// value: the source key and the validated transformations, or the message
/// of the refusal.
///
/// The first path segment is a transform when it starts with `tr:`; the
/// source key is the rest of the path. Defaults come first, then the path
/// transform, then the query transform, then the WebP check.
pub open spec fn parse_request(
    path: Seq<char>,
    query: Option<Seq<char>>,
    default_quality: u8,
    default_format: Seq<char>,
) -> Result<(Seq<char>, TransformationsView), Seq<char>> {
    let segments = split(path, '/');
    let is_path_transform = segments.len() > 1 && starts_with(segments[1], tr_prefix());
    let image_path = join(segments.skip(if is_path_transform { 2 } else { 1 }), '/');
    match format_named(default_format) {
        None => Err("invalid DEFAULT_FORMAT"@),
        Some(format) => {
            let defaults = TransformationsView { width: None, height: None, quality: default_quality, format };
            let from_path = if is_path_transform {
                apply_transform_text(trim_start_all(segments[1], tr_prefix()), defaults)
            } else {
                Ok(defaults)
            };
            match from_path {
                Err(e) => Err(e),
                Ok(t1) => {
                    let from_query = match query {
                        Some(q) => apply_transform_text(q, t1),
                        None => Ok(t1),
                    };
                    match from_query {
                        Err(e) => Err(e),
                        Ok(t2) => match webp_violation(t2) {
                            Some(m) => Err(m),
                            None => Ok((image_path, t2)),
                        },
                    }
                },
            }
        },
    }
}

/// A dimension in plain decimal notation: the whole part, a point, and the
/// fraction digits (`0` when there are none).
pub open spec fn decimal_notation(d: DimensionView) -> Seq<char> {
    decimal(d.whole) + seq!['.'] + if d.fraction.len() > 0 {
        d.fraction
    } else {
        seq!['0']
    }
}

/// What `serde_json` writes for the number it reads from the JSON number
/// text `text` (`None` when it reads none).
pub uninterp spec fn json_float_text(text: Seq<char>) -> Option<Seq<char>>;

/// `serde_json::Number::from_str` on `text`, written back as text by the
/// number's `Display`. A text with a decimal point reads as an `f64`
/// (correctly rounded, with the `float_roundtrip` feature), which `Display`
/// writes as the shortest notation that reads back as it, exactly as
/// `serde_json::to_string` writes an `f64`. The result is named
/// [`json_float_text`]; what the text is stays with `serde_json`.
#[verifier::external_body]
fn json_float(text: &str) -> (r: Option<String>)
    ensures
        match r {
            Some(s) => json_float_text(text@) == Some(s@),
            None => json_float_text(text@) is None,
        },
{
    serde_json::Number::from_str(text).ok().map(|number| number.to_string())
}

/// A dimension as JSON writes it: the text `serde_json` writes for the
/// `f64` that its decimal notation reads as (the plain notation should
/// `serde_json` read no number from it).
pub open spec fn json_number(d: DimensionView) -> Seq<char> {
    match json_float_text(decimal_notation(d)) {
        Some(t) => t,
        None => decimal_notation(d),
    }
}

/// The canonical text of a set of transformations: a compact JSON object
/// with the keys `w`, `h` (each only when set), `q` and `f`, in that order.
pub open spec fn canonical_json(t: TransformationsView) -> Seq<char> {
    seq!['{'] + (match t.width {
        Some(w) => "\"w\":"@ + json_number(w) + seq![','],
        None => Seq::<char>::empty(),
    }) + (match t.height {
        Some(h) => "\"h\":"@ + json_number(h) + seq![','],
        None => Seq::<char>::empty(),
    }) + "\"q\":"@ + decimal(t.quality as nat) + ",\"f\":\""@ + format_name(t.format) + "\"}"@
}

/// The S3 key of a cached transform: `cached/` and the lower-case hex
/// SHA-256 digest of `{image_path}-{canonical transformations}`.
pub open spec fn cache_path_key_of(image_path: Seq<char>, t: TransformationsView) -> Seq<char> {
    "cached/"@ + hex_lower(sha256_digest(encode_utf8(image_path + seq!['-'] + canonical_json(t))))
}

/// Appends the JSON notation of a dimension.
fn push_json_number(out: &mut Vec<char>, d: &Dimension)
    ensures
        final(out)@ == old(out)@ + json_number(d@),
{
    let mut plain: Vec<char> = Vec::new();
    push_decimal(&mut plain, d.whole as u64);
    plain.push('.');
    if d.fraction.len() > 0 {
        push_chars(&mut plain, d.fraction.as_slice());
    } else {
        plain.push('0');
    }
    assert(plain@ =~= decimal_notation(d@));
    let text = string_from_chars(plain.as_slice());
    match json_float(text.as_str()) {
        Some(written) => {
            let chars = chars_of(written.as_str());
            push_chars(out, chars.as_slice());
        },
        None => push_chars(out, plain.as_slice()),
    }
}

/// The canonical text of a set of transformations.
pub fn canonical_text(t: &Transformations) -> (s: Vec<char>)
    ensures
        s@ == canonical_json(t@),
{
    let mut out: Vec<char> = Vec::new();
    out.push('{');
    let ghost after_open = out@;
    if let Some(w) = &t.width {
        push_str(&mut out, "\"w\":");
        push_json_number(&mut out, w);
        out.push(',');
    }
    let ghost after_w = out@;
    if let Some(h) = &t.height {
        push_str(&mut out, "\"h\":");
        push_json_number(&mut out, h);
        out.push(',');
    }
    let ghost after_h = out@;
    push_str(&mut out, "\"q\":");
    push_decimal(&mut out, t.quality as u64);
    push_str(&mut out, ",\"f\":\"");
    let name = t.format.name();
    push_chars(&mut out, name.as_slice());
    push_str(&mut out, "\"}");
    assert(out@ =~= canonical_json(t@));
    out
}

/// The source key: the path segments after the leading empty one and, for
/// a path transform, after the transform segment, joined with `/`.
pub fn image_path(segments: &Vec<Vec<char>>, is_path_transform: bool) -> (p: String)
    requires
        segments@.len() >= if is_path_transform { 2int } else { 1int },
    ensures
        p@ == join(pieces_view(segments@).skip(if is_path_transform { 2int } else { 1int }), '/'),
{
    let start: usize = if is_path_transform { 2 } else { 1 };
    let chars = join_from(segments, start, '/');
    string_from_chars(chars.as_slice())
}

impl ParsedRequest {
    /// Parses the request `path` (with leading `/`) and optional `tr` query
    /// value into a source key plus validated transformations.
    pub fn parse(path: &str, tr_query: Option<&str>, config: &Config) -> (r: Result<Self, AppError>)
        ensures
            match parse_request(path@, opt_str_view(tr_query), config.default_quality, config.default_format@) {
                Ok((p, t)) => r matches Ok(pr) && pr.image_path@ == p && pr.transformations@ == t,
                Err(m) => r matches Err(AppError::InvalidTransform(e)) && e@ == m,
            },
    {
        let path_chars = chars_of(path);
        let segments = split_chars(path_chars.as_slice(), '/');
        proof { crate::text::lemma_split_nonempty(path@, '/'); }
        let prefix = vec!['t', 'r', ':'];
        assert(prefix@ == tr_prefix());
        let is_path_transform = segments.len() > 1 && starts_with_chars(segments[1].as_slice(), prefix.as_slice());
        let image_path = image_path(&segments, is_path_transform);
        let default_format_chars = chars_of(config.default_format.as_str());
        let format = match format_from_chars(default_format_chars.as_slice()) {
            Some(f) => f,
            None => {
                let message = chars_of("invalid DEFAULT_FORMAT");
                return Err(AppError::InvalidTransform(string_from_chars(message.as_slice())));
            },
        };
        let mut transformations = Transformations {
            width: None,
            height: None,
            quality: config.default_quality,
            format,
        };
        if is_path_transform {
            let raw = trim_start_matches(segments[1].as_slice(), prefix.as_slice());
            let applied_path = apply_transforms(raw.as_slice(), &mut transformations);
            if applied_path.is_err() {
                return Err(applied_path.unwrap_err());
            }
        }
        if let Some(query) = tr_query {
            let query_chars = chars_of(query);
            let applied_query = apply_transforms(query_chars.as_slice(), &mut transformations);
            if applied_query.is_err() {
                return Err(applied_query.unwrap_err());
            }
        }
        let checked = validate_webp_dimensions(&transformations);
        if checked.is_err() {
            return Err(checked.unwrap_err());
        }
        Ok(ParsedRequest { image_path, transformations })
    }

    /// Derives the S3 key of the cached, transformed image.
    pub fn cache_path_key(&self) -> (key: String)
        ensures
            key@ == cache_path_key_of(self.image_path@, self.transformations@),
            key@.len() == 7 + 64,
    {
        let mut input = chars_of(self.image_path.as_str());
        input.push('-');
        let canonical = canonical_text(&self.transformations);
        push_chars(&mut input, canonical.as_slice());
        assert(input@ =~= self.image_path@ + seq!['-'] + canonical_json(self.transformations@));
        let text = string_from_chars(input.as_slice());
        let digest = sha256(text.as_str().as_bytes());
        let hex = hex_encode(digest.as_slice());
        let mut key = chars_of("cached/");
        let hex_chars = chars_of(hex.as_str());
        push_chars(&mut key, hex_chars.as_slice());
        assert(key@ =~= "cached/"@ + hex_lower(digest@));
        proof {
            lemma_hex_lower_len(digest@);
            reveal_strlit("cached/");
        }
        string_from_chars(key.as_slice())
    }
}


/// Applying two lists of pairs in a row is applying the first, then the
/// second to its result.
pub proof fn lemma_apply_pairs_concat(p1: Seq<Seq<char>>, p2: Seq<Seq<char>>, t: TransformationsView)
    ensures
        apply_pairs(p1 + p2, t) == match apply_pairs(p1, t) {
            Ok(t1) => apply_pairs(p2, t1),
            Err(e) => Err(e),
        },
    decreases p1.len(),
{
    if p1.len() == 0 {
        assert(p1 + p2 =~= p2);
    } else {
        assert((p1 + p2)[0] == p1[0]);
        assert((p1 + p2).drop_first() =~= p1.drop_first() + p2);
        match apply_pair(p1[0], t) {
            Err(e) => {},
            Ok(next) => {
                lemma_apply_pairs_concat(p1.drop_first(), p2, next);
            },
        }
    }
}

/// A transform string made of two joined by a comma acts as the first
/// followed by the second: later pairs win over earlier ones.
pub proof fn lemma_apply_joined(a: Seq<char>, b: Seq<char>, t: TransformationsView)
    ensures
        apply_transform_text(a + seq![','] + b, t) == match apply_transform_text(a, t) {
            Ok(t1) => apply_transform_text(b, t1),
            Err(e) => Err(e),
        },
{
    lemma_split_concat(a, b, ',');
    lemma_apply_pairs_concat(split(a, ','), split(b, ','), t);
}

/// When both a path transform and a query transform are given, the result is
/// that of the single transform string `{path transform},{query}`: the query
/// is applied last, so its values win.
pub proof fn lemma_query_applies_after_path(path: Seq<char>, query: Seq<char>, default_quality: u8, default_format: Seq<char>)
    requires
        split(path, '/').len() > 1,
        starts_with(split(path, '/')[1], tr_prefix()),
        format_named(default_format) is Some,
    ensures
        ({
            let defaults = TransformationsView {
                width: None,
                height: None,
                quality: default_quality,
                format: format_named(default_format)->0,
            };
            let joined = trim_start_all(split(path, '/')[1], tr_prefix()) + seq![','] + query;
            match parse_request(path, Some(query), default_quality, default_format) {
                Ok((_, t)) => apply_transform_text(joined, defaults) == Ok::<TransformationsView, Seq<char>>(t),
                Err(_) => apply_transform_text(joined, defaults) is Err || webp_violation(
                    apply_transform_text(joined, defaults)->Ok_0,
                ) is Some,
            }
        }),
{
    let defaults = TransformationsView {
        width: None,
        height: None,
        quality: default_quality,
        format: format_named(default_format)->0,
    };
    lemma_apply_joined(trim_start_all(split(path, '/')[1], tr_prefix()), query, defaults);
}

/// The source key of a request is the request path after its leading `/`,
/// and after the `tr:` segment for a path transform (empty when the path is
/// only that segment).
pub proof fn lemma_image_path_of_request(
    path: Seq<char>,
    query: Option<Seq<char>>,
    default_quality: u8,
    default_format: Seq<char>,
)
    requires
        path.len() > 0,
        path[0] == '/',
    ensures
        parse_request(path, query, default_quality, default_format) matches Ok((image_path, _)) ==> {
            let segments = split(path, '/');
            if starts_with(segments[1], tr_prefix()) {
                if segments.len() > 2 {
                    image_path == path.skip((2 + segments[1].len()) as int)
                } else {
                    image_path == Seq::<char>::empty()
                }
            } else {
                image_path == path.skip(1)
            }
        },
{
    let p = split(path, '/');
    crate::text::lemma_split_leading(path, '/');
    crate::text::lemma_join_split(path, '/');
    crate::text::lemma_join_first(p, '/');
    assert(path =~= seq!['/'] + join(p.skip(1), '/'));
    assert(join(p.skip(1), '/') =~= path.skip(1));
    if p.len() >= 3 {
        crate::text::lemma_join_first(p.skip(1), '/');
        assert(p.skip(1)[0] == p[1]);
        assert(p.skip(1).skip(1) =~= p.skip(2));
        assert(path.skip(1) =~= p[1] + seq!['/'] + join(p.skip(2), '/'));
        assert(join(p.skip(2), '/') =~= path.skip((2 + p[1].len()) as int));
    } else {
        assert(p.skip(1) =~= seq![p[1]]);
        assert(join(p.skip(1), '/') == p[1]);
        assert(p.skip(2) =~= Seq::<Seq<char>>::empty());
    }
}

/// `c` in ASCII lower case.
pub open spec fn ascii_lower(c: char) -> char {
    if 'A' <= c && c <= 'Z' {
        ((c as u32) + 32) as char
    } else {
        c
    }
}

/// `c` in ASCII upper case.
pub open spec fn ascii_upper(c: char) -> char {
    if 'a' <= c && c <= 'z' {
        ((c as u32) - 32) as char
    } else {
        c
    }
}

/// Changing the ASCII case of a text does not change whether it spells a
/// lower-case word.
proof fn lemma_spells_any_case(s: Seq<char>, word: Seq<char>)
    requires
        forall|i: int| 0 <= i < word.len() ==> 'a' <= #[trigger] word[i] && word[i] <= 'z',
    ensures
        spells(s.map_values(|c: char| ascii_lower(c)), word) == spells(s, word),
        spells(s.map_values(|c: char| ascii_upper(c)), word) == spells(s, word),
{
    let lo = s.map_values(|c: char| ascii_lower(c));
    let up = s.map_values(|c: char| ascii_upper(c));
    assert forall|i: int| 0 <= i < s.len() && i < word.len() implies {
        &&& crate::domain::number::same_letter(lo[i], word[i]) == crate::domain::number::same_letter(s[i], word[i])
        &&& crate::domain::number::same_letter(up[i], word[i]) == crate::domain::number::same_letter(s[i], word[i])
    } by {
        let c = s[i];
        assert(lo[i] == ascii_lower(c));
        assert(up[i] == ascii_upper(c));
        assert('a' <= word[i] && word[i] <= 'z');
        if 'A' <= c && c <= 'Z' {
            assert((((c as u32) + 32) as char) as u32 == (c as u32) + 32);
        }
        if 'a' <= c && c <= 'z' {
            assert((((c as u32) - 32) as char) as u32 == (c as u32) - 32);
        }
    }
    if spells(s, word) {
        assert forall|i: int| 0 <= i < lo.len() implies crate::domain::number::same_letter(#[trigger] lo[i], word[i]) by {
            assert(crate::domain::number::same_letter(s[i], word[i]));
        }
        assert forall|i: int| 0 <= i < up.len() implies crate::domain::number::same_letter(#[trigger] up[i], word[i]) by {
            assert(crate::domain::number::same_letter(s[i], word[i]));
        }
    }
    if spells(lo, word) {
        assert forall|i: int| 0 <= i < s.len() implies crate::domain::number::same_letter(#[trigger] s[i], word[i]) by {
            assert(crate::domain::number::same_letter(lo[i], word[i]));
        }
    }
    if spells(up, word) {
        assert forall|i: int| 0 <= i < s.len() implies crate::domain::number::same_letter(#[trigger] s[i], word[i]) by {
            assert(crate::domain::number::same_letter(up[i], word[i]));
        }
    }
}

/// Reading a format is unchanged by converting the text to ASCII lower or
/// upper case.
pub proof fn lemma_format_case_insensitive(raw: Seq<char>)
    ensures
        format_named(raw.map_values(|c: char| ascii_lower(c))) == format_named(raw),
        format_named(raw.map_values(|c: char| ascii_upper(c))) == format_named(raw),
{
    lemma_spells_any_case(raw, seq!['j', 'p', 'e', 'g']);
    lemma_spells_any_case(raw, seq!['j', 'p', 'g']);
    lemma_spells_any_case(raw, seq!['p', 'n', 'g']);
    lemma_spells_any_case(raw, seq!['w', 'e', 'b', 'p']);
}

/// A pair `f-<v>` is split at its `-` into the key `f` and the value `v`.
proof fn lemma_split_format_pair(v: Seq<char>)
    ensures
        split_once(seq!['f', '-'] + v, '-') == Some((seq!['f'], v)),
{
    let s = seq!['f', '-'] + v;
    assert(s[0] == 'f' && s[1] == '-');
    assert(s.take(1) =~= seq!['f']);
    assert(is_first_index(s, '-', 1));
    let k = choose|k: int| is_first_index(s, '-', k);
    if k > 1 {
        assert(s.take(k)[1] == '-');
    }
    assert(k == 1);
    assert(s.skip(2) =~= v);
}

/// The `f` key sets the output format from the names `jpeg`, `jpg`, `png`
/// and `webp` in any ASCII case, changing nothing else, and refuses any other
/// value with the pair as message.
pub proof fn lemma_format_pair(v: Seq<char>, t: TransformationsView)
    ensures
        ({
            let pair = seq!['f', '-'] + v;
            &&& (spells(v, seq!['j', 'p', 'e', 'g']) || spells(v, seq!['j', 'p', 'g'])) ==> apply_pair(pair, t)
                == Ok::<TransformationsView, Seq<char>>(TransformationsView { format: OutputFormat::Jpeg, ..t })
            &&& spells(v, seq!['p', 'n', 'g']) ==> apply_pair(pair, t) == Ok::<TransformationsView, Seq<char>>(
                TransformationsView { format: OutputFormat::Png, ..t },
            )
            &&& spells(v, seq!['w', 'e', 'b', 'p']) ==> apply_pair(pair, t) == Ok::<
                TransformationsView,
                Seq<char>,
            >(TransformationsView { format: OutputFormat::WebP, ..t })
            &&& !(spells(v, seq!['j', 'p', 'e', 'g']) || spells(v, seq!['j', 'p', 'g']) || spells(
                v,
                seq!['p', 'n', 'g'],
            ) || spells(v, seq!['w', 'e', 'b', 'p'])) ==> apply_pair(pair, t) == Err::<
                TransformationsView,
                Seq<char>,
            >(pair)
        }),
{
    lemma_split_format_pair(v);
    let pair = seq!['f', '-'] + v;
    assert(pair.len() > 0);
    assert(seq!['f'] != seq!['w']) by {
        assert(seq!['f'][0] != seq!['w'][0]);
    }
    assert(seq!['f'] != seq!['h']) by {
        assert(seq!['f'][0] != seq!['h'][0]);
    }
    assert(seq!['f'] != seq!['q']) by {
        assert(seq!['f'][0] != seq!['q'][0]);
    }
}

/// Whether `needle` occurs in `text`.
pub open spec fn occurs_in(needle: Seq<char>, text: Seq<char>) -> bool {
    exists|i: int| 0 <= i && i + needle.len() <= text.len() && #[trigger] text.subrange(i, i + needle.len()) == needle
}

/// `needle` occurs in `a + needle + b`.
proof fn lemma_occurs_between(a: Seq<char>, needle: Seq<char>, b: Seq<char>)
    ensures
        occurs_in(needle, a + needle + b),
{
    let text = a + needle + b;
    assert(text.subrange(a.len() as int, (a.len() + needle.len()) as int) =~= needle);
}

/// Every field of a set of transformations shows in its canonical text: the
/// width and the height (whenever set) as `"w":<n>,` and `"h":<n>,`, the
/// quality as `"q":<n>` and the format as `"f":"<name>"}`.
pub proof fn lemma_canonical_text_shows_every_field(t: TransformationsView)
    ensures
        t.width matches Some(w) ==> occurs_in("\"w\":"@ + json_number(w) + seq![','], canonical_json(t)),
        t.height matches Some(h) ==> occurs_in("\"h\":"@ + json_number(h) + seq![','], canonical_json(t)),
        occurs_in("\"q\":"@ + decimal(t.quality as nat), canonical_json(t)),
        occurs_in("\"f\":\""@ + format_name(t.format) + "\"}"@, canonical_json(t)),
{
    let wp = match t.width {
        Some(w) => "\"w\":"@ + json_number(w) + seq![','],
        None => Seq::<char>::empty(),
    };
    let hp = match t.height {
        Some(h) => "\"h\":"@ + json_number(h) + seq![','],
        None => Seq::<char>::empty(),
    };
    let qd = decimal(t.quality as nat);
    let name = format_name(t.format);
    let tail = ",\"f\":\""@ + name + "\"}"@;
    let c = canonical_json(t);
    assert(c == seq!['{'] + wp + hp + "\"q\":"@ + qd + tail);
    if t.width is Some {
        assert(c =~= seq!['{'] + wp + (hp + "\"q\":"@ + qd + tail));
        lemma_occurs_between(seq!['{'], wp, hp + "\"q\":"@ + qd + tail);
    }
    if t.height is Some {
        assert(c =~= (seq!['{'] + wp) + hp + ("\"q\":"@ + qd + tail));
        lemma_occurs_between(seq!['{'] + wp, hp, "\"q\":"@ + qd + tail);
    }
    assert(c =~= (seq!['{'] + wp + hp) + ("\"q\":"@ + qd) + tail);
    lemma_occurs_between(seq!['{'] + wp + hp, "\"q\":"@ + qd, tail);
    assert(",\"f\":\""@ =~= seq![','] + "\"f\":\""@) by {
        reveal_strlit(",\"f\":\"");
        reveal_strlit("\"f\":\"");
    }
    assert(c =~= (seq!['{'] + wp + hp + "\"q\":"@ + qd + seq![',']) + ("\"f\":\""@ + name + "\"}"@)
        + Seq::<char>::empty());
    lemma_occurs_between(
        seq!['{'] + wp + hp + "\"q\":"@ + qd + seq![','],
        "\"f\":\""@ + name + "\"}"@,
        Seq::<char>::empty(),
    );
}

/// For one image path, transformations with different canonical texts hash
/// different bytes, so their cache keys differ unless SHA-256 collides.
pub proof fn lemma_distinct_texts_hash_distinct_bytes(p: Seq<char>, t1: TransformationsView, t2: TransformationsView)
    requires
        canonical_json(t1) != canonical_json(t2),
    ensures
        encode_utf8(p + seq!['-'] + canonical_json(t1)) != encode_utf8(p + seq!['-'] + canonical_json(t2)),
{
    let s1 = p + seq!['-'] + canonical_json(t1);
    let s2 = p + seq!['-'] + canonical_json(t2);
    vstd::utf8::encode_utf8_decode_utf8(s1);
    vstd::utf8::encode_utf8_decode_utf8(s2);
    if s1 == s2 {
        assert(s1.skip((p.len() + 1) as int) =~= canonical_json(t1));
        assert(s2.skip((p.len() + 1) as int) =~= canonical_json(t2));
    }
}

/// Every dimension in a set of transformations is well formed.
pub open spec fn dimensions_wf(t: TransformationsView) -> bool {
    &&& (t.width matches Some(w) ==> dimension_wf(w))
    &&& (t.height matches Some(h) ==> dimension_wf(h))
}

/// Applying pairs keeps the dimensions well formed.
proof fn lemma_apply_pairs_wf(pairs: Seq<Seq<char>>, t: TransformationsView)
    requires
        dimensions_wf(t),
    ensures
        apply_pairs(pairs, t) matches Ok(t2) ==> dimensions_wf(t2),
    decreases pairs.len(),
{
    if pairs.len() > 0 {
        let pair = pairs[0];
        if let Some((key, value)) = split_once(pair, '-') {
            crate::domain::dimension::lemma_outcome_wf(value);
        }
        if let Ok(next) = apply_pair(pair, t) {
            lemma_apply_pairs_wf(pairs.drop_first(), next);
        }
    }
}

/// Every parsed request carries positive dimensions of at most 65535 (a
/// fraction below 1, or an absolute size), and a WebP request no absolute
/// dimension above 16383.
pub proof fn lemma_parsed_transformations_valid(
    path: Seq<char>,
    query: Option<Seq<char>>,
    default_quality: u8,
    default_format: Seq<char>,
)
    ensures
        parse_request(path, query, default_quality, default_format) matches Ok((_, t)) ==> {
            &&& dimensions_wf(t)
            &&& (t.format == OutputFormat::WebP ==> !(t.width matches Some(w) && exceeds_webp(w)))
            &&& (t.format == OutputFormat::WebP ==> !(t.height matches Some(h) && exceeds_webp(h)))
        },
{
    let segments = split(path, '/');
    if let Some(format) = format_named(default_format) {
        let defaults = TransformationsView { width: None, height: None, quality: default_quality, format };
        if segments.len() > 1 && starts_with(segments[1], tr_prefix()) {
            lemma_apply_pairs_wf(split(trim_start_all(segments[1], tr_prefix()), ','), defaults);
            if let Ok(t1) = apply_transform_text(trim_start_all(segments[1], tr_prefix()), defaults) {
                if let Some(q) = query {
                    lemma_apply_pairs_wf(split(q, ','), t1);
                }
            }
        } else if let Some(q) = query {
            lemma_apply_pairs_wf(split(q, ','), defaults);
        }
    }
}

} // verus!

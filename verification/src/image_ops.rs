//! Cover-fit geometry: the centered source crop whose aspect ratio matches
//! the target, so that scaling the crop to the target size fills it without
//! distortion.

use vstd::prelude::*;

verus! {

/// `a / b` rounded to the nearest integer, halves up (`a >= 0`, `b > 0`).
pub open spec fn round_div(a: int, b: int) -> int {
    (2 * a + b) / (2 * b)
}

/// `v` limited to `lo..=hi`.
pub open spec fn clamp(v: int, lo: int, hi: int) -> int {
    if v < lo {
        lo
    } else if v > hi {
        hi
    } else {
        v
    }
}

/// The centered crop `(left, top, width, height)` of a `ow × oh` source
/// whose aspect ratio is that of `tw × th`: a wider source loses its sides, a
/// taller one its top and bottom. A zero target side counts as an infinitely
/// thin (or, for both, undefined) aspect ratio, and the crop keeps at least
/// one pixel per side.
///
/// The trimmed side is the exact quotient rounded to the nearest integer,
/// halves up. A computation in `f64` (aspect ratio first, then the product)
/// can land just below a half and round down instead: for a `5 × 15` source
/// and a `10 × 29` target the exact height `14.5` gives `15` here, where
/// `f64` gives `14.499999999999998` and so `14`. Such half cases, and
/// aspect ratios that `f64` cannot tell apart, are where the two differ.
pub open spec fn cover_crop_box(ow: u32, oh: u32, tw: u32, th: u32) -> (int, int, int, int) {
    let wider = th > 0 && ow * th > tw * oh;
    let raw_width = if wider { round_div(oh * tw, th as int) } else { ow as int };
    let raw_height = if wider {
        oh as int
    } else if tw > 0 {
        round_div(ow * th, tw as int)
    } else {
        0
    };
    let cw = clamp(raw_width, 1, ow as int);
    let ch = clamp(raw_height, 1, oh as int);
    ((ow - cw) / 2, (oh - ch) / 2, cw, ch)
}

/// Computes a centered source crop box whose aspect ratio matches `tw:th`, so a
/// subsequent scale to `(tw, th)` produces a cover fit with no distortion.
///
/// Returns `(left, top, width, height)` in source pixels, rounded exactly
/// as [`cover_crop_box`] says (halves up).
pub fn cover_crop(ow: u32, oh: u32, tw: u32, th: u32) -> (r: (i32, i32, i32, i32))
    requires
        1 <= ow <= i32::MAX,
        1 <= oh <= i32::MAX,
    ensures
        (r.0 as int, r.1 as int, r.2 as int, r.3 as int) == cover_crop_box(ow, oh, tw, th),
{
    let (ow_w, oh_w, tw_w, th_w) = (ow as u128, oh as u128, tw as u128, th as u128);
    assert(ow_w * th_w <= 0xffff_ffff * 0xffff_ffff && tw_w * oh_w <= 0xffff_ffff * 0xffff_ffff
        && oh_w * tw_w <= 0xffff_ffff * 0xffff_ffff && ow_w * th_w <= 0xffff_ffff * 0xffff_ffff) by (nonlinear_arith)
        requires
            ow_w <= 0xffff_ffff,
            oh_w <= 0xffff_ffff,
            tw_w <= 0xffff_ffff,
            th_w <= 0xffff_ffff,
    ;
    let wider = th_w > 0 && ow_w * th_w > tw_w * oh_w;
    let raw_width: u128 = if wider { (2 * (oh_w * tw_w) + th_w) / (2 * th_w) } else { ow_w };
    let raw_height: u128 = if wider {
        oh_w
    } else if tw_w > 0 {
        (2 * (ow_w * th_w) + tw_w) / (2 * tw_w)
    } else {
        0
    };
    let cw: u128 = if raw_width < 1 { 1 } else if raw_width > ow_w { ow_w } else { raw_width };
    let ch: u128 = if raw_height < 1 { 1 } else if raw_height > oh_w { oh_w } else { raw_height };
    let left = ((ow_w - cw) / 2) as i32;
    let top = ((oh_w - ch) / 2) as i32;
    (left, top, cw as i32, ch as i32)
}


/// The crop lies within the source, keeps at least one pixel per side, is
/// centered, and keeps the source's full height (wider source) or full width.
pub proof fn lemma_cover_crop_within_source(ow: u32, oh: u32, tw: u32, th: u32)
    requires
        ow >= 1,
        oh >= 1,
    ensures
        ({
            let (left, top, w, h) = cover_crop_box(ow, oh, tw, th);
            &&& 1 <= w <= ow && 1 <= h <= oh
            &&& 0 <= left && left + w <= ow && 0 <= top && top + h <= oh
            &&& left == (ow - w) / 2 && top == (oh - h) / 2
            &&& (w == ow || h == oh)
        }),
{
}

/// `round_div(a, b)` is within half of `b` of `a` once multiplied by `b`.
proof fn lemma_round_div(a: int, b: int)
    requires
        a >= 0,
        b > 0,
    ensures
        round_div(a, b) >= 0,
        -b <= 2 * (round_div(a, b) * b - a) <= b,
{
    let q = round_div(a, b);
    vstd::arithmetic::div_mod::lemma_fundamental_div_mod(2 * a + b, 2 * b);
    let r = (2 * a + b) % (2 * b);
    assert(2 * a + b == (2 * b) * q + r);
    assert(0 <= r < 2 * b);
    assert(q >= 0 && 2 * (q * b - a) == b - r) by (nonlinear_arith)
        requires
            2 * a + b == (2 * b) * q + r,
            r < 2 * b,
            a >= 0,
            b > 0,
    ;
}

/// The crop has the target's aspect ratio up to rounding, whether the
/// target is smaller or larger than the source: `width × th` and
/// `height × tw` differ by at most the larger target side.
pub proof fn lemma_cover_crop_keeps_target_aspect(ow: u32, oh: u32, tw: u32, th: u32)
    requires
        ow >= 1,
        oh >= 1,
        tw >= 1,
        th >= 1,
    ensures
        ({
            let (_, _, w, h) = cover_crop_box(ow, oh, tw, th);
            let m = if tw >= th { tw as int } else { th as int };
            -m <= w * th - h * tw <= m
        }),
{
    let wider = ow * th > tw * oh;
    let (left, top, w, h) = cover_crop_box(ow, oh, tw, th);
    if wider {
        let a = oh * tw;
        let r = round_div(a, th as int);
        lemma_round_div(a, th as int);
        assert(r <= ow) by (nonlinear_arith)
            requires
                2 * (r * th - a) <= th,
                a == oh * tw,
                ow * th > tw * oh,
                th >= 1,
        ;
        assert(h == oh);
        assert(w == if r < 1 { 1 } else { r });
        assert(h * tw == a);
        assert(-(th as int) <= w * th - h * tw <= th) by (nonlinear_arith)
            requires
                w == (if r < 1 { 1 } else { r }),
                h * tw == a,
                -(th as int) <= 2 * (r * th - a) <= th,
                r >= 0,
                a >= 0,
        ;
    } else {
        let a = ow * th;
        let r = round_div(a, tw as int);
        lemma_round_div(a, tw as int);
        assert(r <= oh) by (nonlinear_arith)
            requires
                2 * (r * tw - a) <= tw,
                a == ow * th,
                ow * th <= tw * oh,
                tw >= 1,
        ;
        assert(w == ow);
        assert(h == if r < 1 { 1 } else { r });
        assert(w * th == a);
        assert(-(tw as int) <= w * th - h * tw <= tw) by (nonlinear_arith)
            requires
                h == (if r < 1 { 1 } else { r }),
                w * th == a,
                -(tw as int) <= 2 * (r * tw - a) <= tw,
                r >= 0,
                a >= 0,
        ;
    }
}

} // verus!

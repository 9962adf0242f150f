//! Image-processing rules applied around libvips: source limits, the WebP
//! output limit, encoder options and the integer geometry of thumbnails.

use vstd::prelude::*;

use crate::domain::limits::{MAX_IMAGE_MEGAPIXELS, MAX_WEBP_TRANSFORM_DIMENSION};
use crate::domain::transform::OutputFormat;
use crate::error::AppError;
use crate::text::{chars_of, decimal, push_decimal, push_str, string_from_chars};

verus! {

/// The message of a source image above [`MAX_IMAGE_MEGAPIXELS`].
pub open spec fn too_many_pixels_message() -> Seq<char> {
    "image exceeds max of "@ + decimal((MAX_IMAGE_MEGAPIXELS / 1_000_000) as nat) + " megapixels"@
}

/// A decoded source must have a positive size of at most
/// [`MAX_IMAGE_MEGAPIXELS`] pixels.
pub fn check_source_dimensions(width: i32, height: i32) -> (r: Result<(), AppError>)
    ensures
        (width <= 0 || height <= 0) ==> (r matches Err(AppError::ImageProcessing(m)) && m@
            == "image has invalid dimensions"@),
        (width > 0 && height > 0 && width * height > MAX_IMAGE_MEGAPIXELS) ==> (r matches Err(
            AppError::PayloadTooLarge(m),
        ) && m@ == too_many_pixels_message()),
        (width > 0 && height > 0 && width * height <= MAX_IMAGE_MEGAPIXELS) ==> r is Ok,
{
    if width <= 0 || height <= 0 {
        let chars = chars_of("image has invalid dimensions");
        return Err(AppError::ImageProcessing(string_from_chars(chars.as_slice())));
    }
    let w = width as u64;
    let h = height as u64;
    assert(w * h <= 0x7fff_ffff * 0x7fff_ffff) by (nonlinear_arith)
        requires
            w <= 0x7fff_ffff,
            h <= 0x7fff_ffff,
    ;
    let pixels = w * h;
    if pixels > MAX_IMAGE_MEGAPIXELS {
        let mut out = chars_of("image exceeds max of ");
        push_decimal(&mut out, MAX_IMAGE_MEGAPIXELS / 1_000_000);
        push_str(&mut out, " megapixels");
        return Err(AppError::PayloadTooLarge(string_from_chars(out.as_slice())));
    }
    Ok(())
}

/// The message of a WebP output above the WebP limit.
pub open spec fn webp_output_message() -> Seq<char> {
    "WebP output exceeds max of "@ + decimal(MAX_WEBP_TRANSFORM_DIMENSION as nat) + "px"@
}

/// A WebP output may be at most 16383 px on each side.
pub fn check_webp_output(format: OutputFormat, width: i32, height: i32) -> (r: Result<(), AppError>)
    ensures
        (format == OutputFormat::WebP && (width > MAX_WEBP_TRANSFORM_DIMENSION || height
            > MAX_WEBP_TRANSFORM_DIMENSION)) ==> (r matches Err(AppError::InvalidTransform(m)) && m@
            == webp_output_message()),
        !(format == OutputFormat::WebP && (width > MAX_WEBP_TRANSFORM_DIMENSION || height
            > MAX_WEBP_TRANSFORM_DIMENSION)) ==> r is Ok,
{
    let limit = MAX_WEBP_TRANSFORM_DIMENSION as i32;
    if format == OutputFormat::WebP && (width > limit || height > limit) {
        let mut out = chars_of("WebP output exceeds max of ");
        push_decimal(&mut out, MAX_WEBP_TRANSFORM_DIMENSION as u64);
        push_str(&mut out, "px");
        return Err(AppError::InvalidTransform(string_from_chars(out.as_slice())));
    }
    Ok(())
}

/// The libvips save options of a format: `.jpg[Q=q]`, `.png` or `.webp[Q=q]`.
pub open spec fn encode_suffix_of(format: OutputFormat, quality: u8) -> Seq<char> {
    match format {
        OutputFormat::Jpeg => ".jpg[Q="@ + decimal(quality as nat) + "]"@,
        OutputFormat::Png => ".png"@,
        OutputFormat::WebP => ".webp[Q="@ + decimal(quality as nat) + "]"@,
    }
}

/// The libvips save options of a format at a quality.
pub fn encode_suffix(format: OutputFormat, quality: u8) -> (s: String)
    ensures
        s@ == encode_suffix_of(format, quality),
{
    let mut out: Vec<char> = Vec::new();
    match format {
        OutputFormat::Jpeg => {
            push_str(&mut out, ".jpg[Q=");
            push_decimal(&mut out, quality as u64);
            push_str(&mut out, "]");
        },
        OutputFormat::Png => {
            push_str(&mut out, ".png");
        },
        OutputFormat::WebP => {
            push_str(&mut out, ".webp[Q=");
            push_decimal(&mut out, quality as u64);
            push_str(&mut out, "]");
        },
    }
    assert(out@ =~= encode_suffix_of(format, quality));
    string_from_chars(out.as_slice())
}

/// The side matching `target_other` when `source` and `source_other` are
/// scaled proportionally: at least 1, kept to its low 32 bits.
pub fn scaled_side(source: u32, target_other: u32, source_other: u32) -> (side: u32)
    requires
        source_other > 0,
    ensures
        side == (if (source * target_other) / (source_other as int) >= 1 {
            #[verifier::truncate] (((source * target_other) / (source_other as int)) as u32)
        } else {
            1u32
        }),
{
    let s64 = source as u64;
    let t64 = target_other as u64;
    assert(s64 * t64 <= 0xffff_ffff * 0xffff_ffff) by (nonlinear_arith)
        requires
            s64 <= 0xffff_ffff,
            t64 <= 0xffff_ffff,
    ;
    let product = s64 * t64;
    let quotient = product / (source_other as u64);
    let kept = if quotient >= 1 { quotient } else { 1 };
    #[verifier::truncate] (kept as u32)
}

/// The edge of the square box a thumbnail is fitted into: the longer side.
pub fn fit_edge(target_width: u32, target_height: u32) -> (edge: u32)
    ensures
        edge == if target_width >= target_height { target_width } else { target_height },
{
    if target_width >= target_height {
        target_width
    } else {
        target_height
    }
}

/// The thumbnail size handed to libvips: at least 1.
pub fn thumbnail_size(edge: u32) -> (size: i32)
    ensures
        size == (if edge >= 1 { edge } else { 1u32 }) as i32,
{
    let kept = if edge >= 1 { edge } else { 1 };
    kept as i32
}

/// Whether a loaded thumbnail is still smaller than the target box on a side
/// and must be scaled up before cropping.
pub fn needs_fill(width: i32, height: i32, target_width: u32, target_height: u32) -> (b: bool)
    ensures
        b == !(width >= target_width as i32 && height >= target_height as i32),
{
    !(width >= target_width as i32 && height >= target_height as i32)
}

/// A centered crop box and whether it already has the requested size.
pub struct CropBox {
    pub left: i32,
    pub top: i32,
    pub width: i32,
    pub height: i32,
    pub exact: bool,
}

/// The crop size along one side: the target, at most the side, at least 1.
pub open spec fn crop_side(side: i32, target: u32) -> i32 {
    let t = target as i32;
    let m = if t <= side { t } else { side };
    if m >= 1 { m } else { 1 }
}

/// The offset of a centered crop along one side, never negative.
pub open spec fn crop_offset(side: i32, crop: i32) -> i32 {
    if side - crop > 0 { ((side - crop) / 2) as i32 } else { 0 }
}

/// The centered crop of an image of `width × height` to the target box.
pub fn center_crop_box(width: i32, height: i32, target_width: u32, target_height: u32) -> (b: CropBox)
    ensures
        b.width == crop_side(width, target_width),
        b.height == crop_side(height, target_height),
        b.left == crop_offset(width, b.width),
        b.top == crop_offset(height, b.height),
        b.exact == (b.width == target_width as i32 && b.height == target_height as i32),
{
    let tw = target_width as i32;
    let th = target_height as i32;
    let mw = if tw <= width { tw } else { width };
    let crop_width = if mw >= 1 { mw } else { 1 };
    let mh = if th <= height { th } else { height };
    let crop_height = if mh >= 1 { mh } else { 1 };
    let dw = width as i64 - crop_width as i64;
    let dh = height as i64 - crop_height as i64;
    let left = if dw > 0 { (dw / 2) as i32 } else { 0 };
    let top = if dh > 0 { (dh / 2) as i32 } else { 0 };
    CropBox {
        left,
        top,
        width: crop_width,
        height: crop_height,
        exact: crop_width == tw && crop_height == th,
    }
}

} // verus!

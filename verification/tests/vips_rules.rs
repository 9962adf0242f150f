use pixtimize::domain::transform::OutputFormat;
use pixtimize::error::AppError;
use pixtimize::infrastructure::vips::{
    center_crop_box, check_source_dimensions, check_webp_output, encode_suffix, fit_edge, needs_fill,
    scaled_side, thumbnail_size,
};
use pixtimize::text::decimal_string;

#[test]
fn source_dimensions_should_be_positive_and_limited() {
    assert!(check_source_dimensions(5000, 5000).is_ok());
    match check_source_dimensions(5001, 5000) {
        Err(AppError::PayloadTooLarge(m)) => assert_eq!(m, "image exceeds max of 25 megapixels"),
        _ => panic!("expected a payload error"),
    }
    match check_source_dimensions(0, 10) {
        Err(AppError::ImageProcessing(m)) => assert_eq!(m, "image has invalid dimensions"),
        _ => panic!("expected a processing error"),
    }
}

#[test]
fn webp_output_should_be_limited() {
    assert!(check_webp_output(OutputFormat::WebP, 16383, 16383).is_ok());
    assert!(check_webp_output(OutputFormat::Png, 20000, 10).is_ok());
    match check_webp_output(OutputFormat::WebP, 10, 16384) {
        Err(AppError::InvalidTransform(m)) => assert_eq!(m, "WebP output exceeds max of 16383px"),
        _ => panic!("expected an invalid transform"),
    }
}

#[test]
fn encoder_options_should_follow_format() {
    assert_eq!(encode_suffix(OutputFormat::Jpeg, 80), ".jpg[Q=80]");
    assert_eq!(encode_suffix(OutputFormat::Png, 80), ".png");
    assert_eq!(encode_suffix(OutputFormat::WebP, 5), ".webp[Q=5]");
}

#[test]
fn thumbnail_geometry_should_follow_the_source() {
    assert_eq!(scaled_side(200, 50, 100), 100);
    assert_eq!(scaled_side(1, 1, 1000), 1);
    assert_eq!(fit_edge(50, 100), 100);
    assert_eq!(thumbnail_size(0), 1);
    assert!(needs_fill(79, 160, 80, 50));
    assert!(!needs_fill(80, 160, 80, 50));
    let crop = center_crop_box(80, 160, 80, 50);
    assert_eq!((crop.left, crop.top, crop.width, crop.height, crop.exact), (0, 55, 80, 50, true));
    let crop = center_crop_box(79, 49, 80, 50);
    assert_eq!((crop.left, crop.top, crop.width, crop.height, crop.exact), (0, 0, 79, 49, false));
}

#[test]
fn decimal_should_write_numbers() {
    assert_eq!(decimal_string(0), "0");
    assert_eq!(decimal_string(604_800), "604800");
    assert_eq!(decimal_string(u64::MAX), "18446744073709551615");
}

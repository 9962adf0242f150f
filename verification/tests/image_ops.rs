use pixtimize::image_ops::cover_crop;

#[test]
fn cover_crop_should_trim_sides_of_wider_source() {
    let (left, top, width, height) = cover_crop(200, 100, 50, 50);
    assert_eq!((width, height), (100, 100));
    assert_eq!((left, top), (50, 0));
}

#[test]
fn cover_crop_should_trim_top_and_bottom_of_taller_source() {
    let (left, top, width, height) = cover_crop(100, 200, 50, 50);
    assert_eq!((width, height), (100, 100));
    assert_eq!((left, top), (0, 50));
}

#[test]
fn cover_crop_should_round_the_cropped_side() {
    // 300x100 source into a 4:3 box: 100 * 4 / 3 = 133.33 -> 133 columns.
    assert_eq!(cover_crop(300, 100, 4, 3), (83, 0, 133, 100));
    // 100x300 source into a 3:2 box: 100 * 2 / 3 = 66.67 -> 67 rows.
    assert_eq!(cover_crop(100, 300, 3, 2), (0, 116, 100, 67));
}

#[test]
fn cover_crop_should_keep_source_for_matching_aspect() {
    assert_eq!(cover_crop(640, 480, 4, 3), (0, 0, 640, 480));
}

#[test]
fn cover_crop_should_keep_one_pixel_for_degenerate_targets() {
    assert_eq!(cover_crop(200, 100, 0, 50), (99, 0, 1, 100));
    assert_eq!(cover_crop(200, 100, 50, 0), (0, 49, 200, 1));
    assert_eq!(cover_crop(200, 100, 0, 0), (0, 49, 200, 1));
}

#[test]
fn cover_crop_should_round_exact_halves_up() {
    assert_eq!(cover_crop(5, 15, 10, 29), (0, 0, 5, 15));
}

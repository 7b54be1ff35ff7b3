use compressor::{resize_for, Quality, Scale};
use image::{DynamicImage, GenericImageView};

#[test]
fn photo_quarter_with_best_quality() {
    let img = DynamicImage::new_rgb8(2000, 1000);
    let out = resize_for(&img, Scale::Ratio(1, 4), Quality::Best).unwrap();
    assert_eq!(out.dimensions(), (500, 250));
}

#[test]
fn ratio_output_is_truncated() {
    let img = DynamicImage::new_rgb8(99, 45);
    let out = resize_for(&img, Scale::Ratio(1, 10), Quality::Fastest).unwrap();
    assert_eq!(out.dimensions(), (9, 4));
}

#[test]
fn fixed_dimension_output_is_exact() {
    let img = DynamicImage::new_rgb8(300, 100);
    let out = resize_for(&img, Scale::Dimension(50, 80), Quality::Fastest).unwrap();
    assert_eq!(out.dimensions(), (50, 80));
    let out = resize_for(&img, Scale::Dimension(40, 40), Quality::Best).unwrap();
    assert_eq!(out.dimensions(), (40, 40));
}

#[test]
fn empty_source_is_not_resized() {
    let img = DynamicImage::new_rgb8(0, 10);
    assert!(resize_for(&img, Scale::Dimension(5, 5), Quality::Fastest).is_none());
}

#[test]
fn oversized_target_is_not_resized() {
    let img = DynamicImage::new_rgb8(2, 2);
    assert!(resize_for(&img, Scale::Dimension(u32::MAX, u32::MAX), Quality::Fastest).is_none());
}


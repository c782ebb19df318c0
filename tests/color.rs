use raytracer::color::antialias::{AntialiasingFilter, DEFAULT_IMAGE_WIDTH};
use raytracer::color::filter::Filter;
use raytracer::color::rgb::RgbColor;

#[test]
fn hex_pads_each_channel_to_two_digits() {
    assert_eq!(RgbColor::new(0, 0, 0).hex(), "#000000");
    assert_eq!(RgbColor::new(15, 16, 9).hex(), "#0f1009");
}

#[test]
fn hex_of_full_levels() {
    assert_eq!(RgbColor::new(255, 255, 255).hex(), "#ffffff");
    assert_eq!(RgbColor::new(204, 127, 51).hex(), "#cc7f33");
}

#[test]
fn hex_of_level_above_a_byte_keeps_all_digits() {
    assert_eq!(RgbColor::new(256, 4095, 10).hex(), "#100fff0a");
    assert_eq!(RgbColor::new(u64::MAX, 0, 1).hex(), "#ffffffffffffffff0001");
}

#[test]
fn triplet_is_decimal_with_spaces() {
    assert_eq!(RgbColor::new(0, 0, 0).to_string(), "0 0 0");
    assert_eq!(RgbColor::new(255, 10, 9).to_string(), "255 10 9");
    assert_eq!(RgbColor::new(u64::MAX, 100, 1000).to_string(), "18446744073709551615 100 1000");
}

#[test]
fn antialiasing_filter_new_keeps_chunk_size() {
    let f = AntialiasingFilter::new(2);
    assert_eq!(f.pixels_per_chunk, 2);
    assert_eq!(f.image_width, 400);
    assert_eq!(DEFAULT_IMAGE_WIDTH, 400);
}

#[test]
fn antialiasing_filter_leaves_image_unchanged() {
    let f = AntialiasingFilter::new(4);
    let mut render = vec![RgbColor::new(1, 2, 3), RgbColor::new(255, 0, 128)];
    f.apply_filter(&mut render);
    assert_eq!(render, vec![RgbColor::new(1, 2, 3), RgbColor::new(255, 0, 128)]);
    let mut empty: Vec<RgbColor> = Vec::new();
    f.apply_filter(&mut empty);
    assert!(empty.is_empty());
}

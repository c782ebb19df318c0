use raytracer::color::rgb::RgbColor;
use raytracer::color::rgb24::{decode_rows, store_pixel};

#[test]
fn to_rgb24_saturates_levels_above_a_byte() {
    assert_eq!(RgbColor::new(0, 128, 255).to_rgb24(), (0, 128, 255));
    assert_eq!(RgbColor::new(256, 1000, u64::MAX).to_rgb24(), (255, 255, 255));
}

#[test]
fn store_pixel_writes_three_bytes_at_row_and_column() {
    let mut buffer = vec![0u8; 16];
    store_pixel(&mut buffer, 8, 1, 1, RgbColor::new(1, 2, 300));
    let mut expected = vec![0u8; 16];
    expected[11] = 1;
    expected[12] = 2;
    expected[13] = 255;
    assert_eq!(buffer, expected);
}

#[test]
fn decode_rows_reads_row_after_row_skipping_padding() {
    // Two rows of two pixels, each row padded to eight bytes.
    let buffer: Vec<u8> = vec![1, 2, 3, 4, 5, 6, 99, 99, 7, 8, 9, 10, 11, 12, 99, 99];
    assert_eq!(
        decode_rows(&buffer, 8, 2, 2),
        vec![
            RgbColor::new(1, 2, 3),
            RgbColor::new(4, 5, 6),
            RgbColor::new(7, 8, 9),
            RgbColor::new(10, 11, 12),
        ]
    );
    assert_eq!(decode_rows(&buffer, 8, 2, 1).len(), 2);
    assert!(decode_rows(&buffer, 8, 2, 0).is_empty());
}

#[test]
fn stored_pixels_decode_back() {
    let mut buffer = vec![0u8; 3 * 3 * 2];
    store_pixel(&mut buffer, 9, 2, 0, RgbColor::new(10, 20, 30));
    store_pixel(&mut buffer, 9, 0, 1, RgbColor::new(40, 50, 60));
    let pixels = decode_rows(&buffer, 9, 3, 2);
    assert_eq!(pixels[2], RgbColor::new(10, 20, 30));
    assert_eq!(pixels[3], RgbColor::new(40, 50, 60));
    assert_eq!(pixels[0], RgbColor::new(0, 0, 0));
}

use ascii_rendr::buffer::RgbaBuffer;
use ascii_rendr::config::AsciiConfig;
use ascii_rendr::processor::resize_to_valid_dimensions;
use ascii_rendr::{process_image, process_image_preserve_colors};

#[test]
fn test_resize_to_valid_dimensions_no_resize() {
    let img = RgbaBuffer::new(160, 160); // Already valid (20*8 x 20*8)
    let (resized, was_resized) = resize_to_valid_dimensions(&img);
    assert_eq!((resized.width, resized.height), (160, 160));
    assert!(!was_resized);
}

#[test]
fn test_resize_to_valid_dimensions_resize_needed() {
    let img = RgbaBuffer::new(100, 100); // Not a multiple of 8
    let (resized, was_resized) = resize_to_valid_dimensions(&img);
    assert_eq!((resized.width, resized.height), (96, 96)); // 100 -> 96 (12*8)
    assert!(was_resized);
}

#[test]
fn test_resize_to_valid_dimensions_asymmetric() {
    let img = RgbaBuffer::new(127, 85); // Both not multiples of 8
    let (resized, was_resized) = resize_to_valid_dimensions(&img);
    assert_eq!((resized.width, resized.height), (120, 80)); // 127 -> 120, 85 -> 80
    assert!(was_resized);
}

#[test]
fn test_resize_resamples_content() {
    // A uniform mid-gray image stays near mid-gray after the Lanczos
    // resample; an implementation that ignored the source would not.
    let img = RgbaBuffer::filled(100, 100, 200, 100, 50, 255);
    let (resized, was_resized) = resize_to_valid_dimensions(&img);
    assert!(was_resized);
    assert_eq!(resized.data.len(), 4 * 96 * 96);
    let center = 4 * (48 * 96 + 48);
    let px = &resized.data[center..center + 4];
    assert!((px[0] as i32 - 200).abs() <= 2);
    assert!((px[1] as i32 - 100).abs() <= 2);
    assert!((px[2] as i32 - 50).abs() <= 2);
}

#[test]
fn test_process_invalid_dimensions_auto_resize() {
    let img = RgbaBuffer::new(100, 100); // Not a multiple of 8, will be auto-resized
    let config = AsciiConfig::default();
    let result = process_image(&img, &config);
    assert_eq!((result.width, result.height), (96, 96)); // Resized to 96x96
}

#[test]
fn test_process_valid_dimensions() {
    let img = RgbaBuffer::new(160, 160); // 20*8 x 20*8
    let config = AsciiConfig::default();
    let result = process_image(&img, &config);
    assert_eq!((result.width, result.height), (160, 160));
}

#[test]
fn test_process_tiny_image_collapses() {
    // Both dimensions round down to zero: the output is the empty image.
    let img = RgbaBuffer::new(5, 5);
    let config = AsciiConfig::default();
    let result = process_image(&img, &config);
    assert_eq!((result.width, result.height), (0, 0));
    assert!(result.data.is_empty());
}

#[test]
fn test_process_uniform_midgray_fill() {
    // End to end: a uniform mid-gray image has no gradients, so every tile
    // falls back to the fill glyph of the mid-brightness bucket, '+', drawn
    // white on black with the default configuration.
    let img = RgbaBuffer::filled(160, 160, 128, 128, 128, 255);
    let config = AsciiConfig::default();
    let result = process_image(&img, &config);
    assert_eq!((result.width, result.height), (160, 160));
    for y in 0..160usize {
        for x in 0..160usize {
            let ink = x % 8 == 3 || x % 8 == 4 || y % 8 == 3 || y % 8 == 4;
            let expect = if ink { [255, 255, 255, 255] } else { [0, 0, 0, 255] };
            let base = 4 * (y * 160 + x);
            assert_eq!(&result.data[base..base + 4], &expect);
        }
    }
}

#[test]
fn test_process_is_deterministic() {
    let img = RgbaBuffer::filled(96, 64, 13, 200, 77, 255);
    let config = AsciiConfig::default();
    let a = process_image(&img, &config);
    let b = process_image(&img, &config);
    assert_eq!(a.data, b.data);

    let c = process_image_preserve_colors(&img, &config);
    let d = process_image_preserve_colors(&img, &config);
    assert_eq!(c.data, d.data);
}

#[test]
fn test_process_preserve_colors_darkens_background() {
    // A uniform colored image yields fill glyphs; ink pixels keep the
    // source color, background pixels are darkened to a fifth.
    let img = RgbaBuffer::filled(16, 16, 100, 150, 250, 255);
    let config = AsciiConfig::default();
    let result = process_image_preserve_colors(&img, &config);
    assert_eq!((result.width, result.height), (16, 16));
    let mut saw_ink = false;
    let mut saw_bg = false;
    for p in 0..(16 * 16) {
        let px = &result.data[4 * p..4 * p + 4];
        if px[0] == 100 {
            assert_eq!(px, &[100, 150, 250, 255]);
            saw_ink = true;
        } else {
            assert_eq!(px, &[20, 30, 50, 255]);
            saw_bg = true;
        }
    }
    assert!(saw_ink && saw_bg);
}

use ascii_rendr::buffer::{GrayBuffer, RgbaBuffer};
use ascii_rendr::edges::{classify_edge_direction, EdgeDirection};
use ascii_rendr::filters::{
    calculate_luminance, difference_of_gaussians, gaussian, gaussian_blur, sobel_filter,
};

#[test]
fn test_luminance_black() {
    let img = RgbaBuffer::filled(10, 10, 0, 0, 0, 255);
    let lum = calculate_luminance(&img);
    assert_eq!(lum.data[0], 0);
}

#[test]
fn test_luminance_white() {
    let img = RgbaBuffer::filled(10, 10, 255, 255, 255, 255);
    let lum = calculate_luminance(&img);
    assert_eq!(lum.data[0], 255);
}

#[test]
fn test_luminance_gray() {
    let img = RgbaBuffer::filled(10, 10, 128, 128, 128, 255);
    let lum = calculate_luminance(&img);
    // Should be close to 128
    let val = lum.data[0];
    assert!(val >= 127 && val <= 129);
}

#[test]
fn test_luminance_red_channel() {
    // Exactly the red coefficient: 2127 * 255 / 10000 truncates to 54.
    let img = RgbaBuffer::filled(4, 4, 255, 0, 0, 255);
    let lum = calculate_luminance(&img);
    assert_eq!(lum.data[0], 54);
}

#[test]
fn test_gaussian_at_center() {
    // Weights are in millionths; sigma in thousandths of a pixel.
    let sigma = 1000;
    let weight = gaussian(sigma, 0);
    // At the center the weight should be maximal: about 0.3989.
    assert!(weight > 300000);
}

#[test]
fn test_gaussian_at_center_exact() {
    assert_eq!(gaussian(1000, 0), 398942);
}

#[test]
fn test_gaussian_symmetry() {
    let sigma = 2000;
    let w1 = gaussian(sigma, 1);
    let w2 = gaussian(sigma, -1);
    // Should be symmetric
    assert_eq!(w1, w2);
}

#[test]
fn test_gaussian_decreases_from_center() {
    let sigma = 2000;
    assert!(gaussian(sigma, 0) > gaussian(sigma, 1));
    assert!(gaussian(sigma, 1) > gaussian(sigma, 5));
}

#[test]
fn test_gaussian_blur_preserves_dimensions() {
    let img = GrayBuffer::new(64, 64);
    let blurred = gaussian_blur(&img, 1000, 2);
    assert_eq!(blurred.width, 64);
    assert_eq!(blurred.height, 64);
}

#[test]
fn test_gaussian_blur_keeps_uniform_field() {
    // A uniform field is a fixed point of the normalized blur.
    let img = GrayBuffer::filled(16, 16, 77);
    let blurred = gaussian_blur(&img, 2000, 3);
    for &v in blurred.data.iter() {
        assert_eq!(v, 77);
    }
}

#[test]
fn test_dog_output_is_binary() {
    let img = GrayBuffer::filled(32, 32, 128);
    let dog = difference_of_gaussians(&img, 1000, 1600, 2, 1000, 5);

    // All pixels should be either 0 or 255
    for &pixel in dog.data.iter() {
        assert!(pixel == 0 || pixel == 255);
    }
}

#[test]
fn test_sobel_filter_dimensions() {
    let edges = GrayBuffer::new(64, 64);
    let (angles, valid) = sobel_filter(&edges);
    assert_eq!(angles.len(), 64 * 64);
    assert_eq!(valid.len(), 64 * 64);
}

#[test]
fn test_sobel_vertical_step_edge() {
    // A step from full to empty along columns: the gradient points along
    // the x axis, so the pixels at the step classify as a vertical edge.
    let mut mask = GrayBuffer::new(8, 8);
    for y in 0..8 {
        for x in 0..4 {
            mask.data[y * 8 + x] = 255;
        }
    }
    let (angles, valid) = sobel_filter(&mask);
    for y in 1..7 {
        let idx = y * 8 + 3;
        assert!(valid[idx]);
        assert_eq!(classify_edge_direction(angles[idx]), EdgeDirection::Vertical);
    }
}

#[test]
fn test_sobel_border_is_invalid() {
    let mask = GrayBuffer::filled(8, 8, 255);
    let (angles, valid) = sobel_filter(&mask);
    for x in 0..8 {
        assert!(!valid[x]);
        assert_eq!(angles[x], 0);
        assert!(!valid[7 * 8 + x]);
    }
}

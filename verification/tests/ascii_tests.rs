use ascii_rendr::ascii::{
    downscale_to_tiles, render_ascii_to_image, select_ascii_char, select_ascii_chars,
    should_draw_pixel,
};
use ascii_rendr::buffer::GrayBuffer;
use ascii_rendr::config::AsciiConfig;
use ascii_rendr::edges::EdgeDirection;

#[test]
fn test_select_ascii_char_edge() {
    let mut config = AsciiConfig::default();
    config.draw_edges = true;
    config.draw_fill = true;

    let ch = select_ascii_char(EdgeDirection::Vertical, 500, 0, 0, 0, 0, &config);
    assert_eq!(ch, '|');
}

#[test]
fn test_select_ascii_char_fill() {
    let mut config = AsciiConfig::default();
    config.draw_edges = false;
    config.draw_fill = true;

    let ch = select_ascii_char(EdgeDirection::NoEdge, 0, 0, 0, 0, 0, &config);
    assert_eq!(ch, ' '); // Darkest = space

    let ch = select_ascii_char(EdgeDirection::NoEdge, 1000, 0, 0, 0, 0, &config);
    assert_eq!(ch, '@'); // Brightest = @
}

#[test]
fn test_select_ascii_char_blank_without_fill() {
    let mut config = AsciiConfig::default();
    config.draw_edges = false;
    config.draw_fill = false;

    let ch = select_ascii_char(EdgeDirection::Vertical, 1000, 0, 0, 0, 0, &config);
    assert_eq!(ch, ' ');
}

#[test]
fn test_downscale_to_tiles() {
    // Create a 16x16 field (2x2 tiles)
    let img = GrayBuffer::filled(16, 16, 128);
    let tiles = downscale_to_tiles(&img, 8);

    assert_eq!(tiles.len(), 4); // 2x2 tiles
    // All tiles should have an average brightness of about one half
    for &lum in &tiles {
        assert!((lum - 500).abs() < 10);
    }
}

#[test]
fn test_downscale_to_tiles_exact() {
    // 64 samples of 128 sum to 8192; 8192000 / 16320 truncates to 501.
    let img = GrayBuffer::filled(8, 8, 128);
    let tiles = downscale_to_tiles(&img, 8);
    assert_eq!(tiles, vec![501]);
}

#[test]
fn test_select_ascii_chars() {
    let edges = vec![EdgeDirection::Vertical, EdgeDirection::NoEdge];
    let tile_lum = vec![500, 800];
    let config = AsciiConfig::default();

    let chars = select_ascii_chars(&edges, &tile_lum, 2, 1, &config);

    assert_eq!(chars.len(), 2); // 2 tiles
    assert_eq!(chars[0].len(), 64); // 64 chars per tile
    assert_eq!(chars[1].len(), 64);
}

#[test]
fn test_render_ascii_to_image() {
    let chars = vec![
        vec!['|'; 64], // Tile 0: all vertical bars
        vec![' '; 64], // Tile 1: all spaces
    ];
    let config = AsciiConfig::default();

    let img = render_ascii_to_image(&chars, 2, 1, &config);

    assert_eq!(img.width, 16); // 2 tiles wide, 8x8 pixels each
    assert_eq!(img.height, 8); // 1 tile high
}

#[test]
fn test_render_solid_colors() {
    let chars = vec![vec!['|'; 64]];
    let mut config = AsciiConfig::default();
    config.ascii_color = [10, 20, 30];
    config.bg_color = [1, 2, 3];

    let img = render_ascii_to_image(&chars, 1, 1, &config);

    // Column 3 is ink for '|', column 0 is background.
    let ink = &img.data[4 * 3..4 * 3 + 4];
    assert_eq!(ink, &[10, 20, 30, 255]);
    let bg = &img.data[0..4];
    assert_eq!(bg, &[1, 2, 3, 255]);
}

#[test]
fn test_should_draw_pixel_space() {
    assert!(!should_draw_pixel(' ', 0, 0));
    assert!(!should_draw_pixel(' ', 7, 7));
}

#[test]
fn test_should_draw_pixel_vertical() {
    assert!(should_draw_pixel('|', 3, 0));
    assert!(should_draw_pixel('|', 4, 7));
    assert!(!should_draw_pixel('|', 0, 0));
}

#[test]
fn test_should_draw_pixel_horizontal() {
    assert!(should_draw_pixel('-', 0, 3));
    assert!(should_draw_pixel('-', 7, 4));
    assert!(!should_draw_pixel('-', 0, 0));
}

#[test]
fn test_should_draw_pixel_diagonals() {
    // '/' runs from bottom-left to top-right.
    assert!(should_draw_pixel('/', 7, 0));
    assert!(should_draw_pixel('/', 0, 7));
    assert!(!should_draw_pixel('/', 0, 0));
    // '\\' runs from top-left to bottom-right.
    assert!(should_draw_pixel('\\', 0, 0));
    assert!(should_draw_pixel('\\', 7, 7));
    assert!(!should_draw_pixel('\\', 7, 0));
}

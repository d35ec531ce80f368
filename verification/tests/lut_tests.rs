use ascii_rendr::edges::EdgeDirection;
use ascii_rendr::lut::{get_edge_char, get_fill_char};

#[test]
fn test_get_edge_char_vertical() {
    assert_eq!(get_edge_char(EdgeDirection::Vertical, 0, 0), '|');
    assert_eq!(get_edge_char(EdgeDirection::Vertical, 7, 7), '|');
}

#[test]
fn test_get_edge_char_horizontal() {
    assert_eq!(get_edge_char(EdgeDirection::Horizontal, 0, 0), '-');
}

#[test]
fn test_get_edge_char_diagonal1() {
    assert_eq!(get_edge_char(EdgeDirection::Diagonal1, 0, 0), '/');
}

#[test]
fn test_get_edge_char_diagonal2() {
    assert_eq!(get_edge_char(EdgeDirection::Diagonal2, 0, 0), '\\');
}

#[test]
fn test_get_edge_char_none() {
    assert_eq!(get_edge_char(EdgeDirection::NoEdge, 0, 0), ' ');
}

#[test]
fn test_get_fill_char_darkest() {
    assert_eq!(get_fill_char(0, false), ' ');
}

#[test]
fn test_get_fill_char_brightest() {
    assert_eq!(get_fill_char(1000, false), '@');
}

#[test]
fn test_get_fill_char_mid() {
    let ramp = vec![' ', '.', ':', '-', '=', '+', '*', '#', '%', '@'];
    let mid_char = get_fill_char(500, false);
    assert!(ramp.contains(&mid_char));
}

#[test]
fn test_get_fill_char_inverted() {
    // Dark should become bright
    assert_eq!(get_fill_char(0, true), '@');
    // Bright should become dark
    assert_eq!(get_fill_char(1000, true), ' ');
}

#[test]
fn test_get_fill_char_buckets() {
    assert_eq!(get_fill_char(99, false), ' ');
    assert_eq!(get_fill_char(100, false), '.');
    assert_eq!(get_fill_char(501, false), '+');
    assert_eq!(get_fill_char(899, false), '%');
}

#[test]
fn test_get_fill_char_clamps() {
    assert_eq!(get_fill_char(-50, false), ' ');
    assert_eq!(get_fill_char(2000, false), '@');
}

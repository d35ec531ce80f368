use ascii_rendr::edges::{classify_edge_direction, detect_edges_tiled, EdgeDirection};

// Angles are signed fractions of a half turn at scale ten thousand:
// 10000 stands for pi, 5000 for pi / 2.

#[test]
fn test_classify_vertical() {
    // Angles near 0 or pi
    assert_eq!(classify_edge_direction(0), EdgeDirection::Vertical);
    assert_eq!(classify_edge_direction(100), EdgeDirection::Vertical);
    assert_eq!(classify_edge_direction(-100), EdgeDirection::Vertical);
    assert_eq!(classify_edge_direction(9500), EdgeDirection::Vertical);
    assert_eq!(classify_edge_direction(-9500), EdgeDirection::Vertical);
}

#[test]
fn test_classify_horizontal() {
    // Angles near pi / 2
    assert_eq!(classify_edge_direction(5000), EdgeDirection::Horizontal);
    assert_eq!(classify_edge_direction(-5000), EdgeDirection::Horizontal);
    assert_eq!(classify_edge_direction(4800), EdgeDirection::Horizontal);
}

#[test]
fn test_classify_diagonal() {
    // Positive angles in the 0.05 .. 0.45 band
    assert_eq!(classify_edge_direction(2000), EdgeDirection::Diagonal2);
    assert_eq!(classify_edge_direction(3000), EdgeDirection::Diagonal2);

    // Negative angles in the same band
    assert_eq!(classify_edge_direction(-2000), EdgeDirection::Diagonal1);
    assert_eq!(classify_edge_direction(-3000), EdgeDirection::Diagonal1);
}

#[test]
fn test_classify_band_boundaries() {
    // The exact band boundaries fall in no band.
    assert_eq!(classify_edge_direction(500), EdgeDirection::NoEdge);
    assert_eq!(classify_edge_direction(4500), EdgeDirection::NoEdge);
    assert_eq!(classify_edge_direction(5500), EdgeDirection::NoEdge);
    // The upper vertical band is closed at 0.9.
    assert_eq!(classify_edge_direction(9000), EdgeDirection::Vertical);
    // The far diagonal bands swap with the sign.
    assert_eq!(classify_edge_direction(7000), EdgeDirection::Diagonal1);
    assert_eq!(classify_edge_direction(-7000), EdgeDirection::Diagonal2);
}

#[test]
fn test_detect_edges_tiled_all_none() {
    // Image with no valid edges
    let width = 64;
    let height = 64;
    let angles = vec![0i32; width * height];
    let valid = vec![false; width * height];

    let edges = detect_edges_tiled(&angles, &valid, width, height, 8);

    // Should be 8x8 tiles
    assert_eq!(edges.len(), 8 * 8);

    // All should be none
    for edge in edges {
        assert_eq!(edge, EdgeDirection::NoEdge);
    }
}

#[test]
fn test_detect_edges_tiled_uniform_vertical() {
    let width = 64;
    let height = 64;
    // All edges pointing vertically (angle zero)
    let angles = vec![0i32; width * height];
    let valid = vec![true; width * height];

    let edges = detect_edges_tiled(&angles, &valid, width, height, 8);

    // Should detect vertical edges in all tiles
    for edge in edges {
        assert_eq!(edge, EdgeDirection::Vertical);
    }
}

#[test]
fn test_detect_edges_tiled_threshold() {
    let width = 64;
    let height = 64;
    let mut angles = vec![0i32; width * height];
    let mut valid = vec![false; width * height];

    // Set only 7 pixels in the first tile to vertical edges (below threshold of 8)
    for i in 0..7 {
        angles[i] = 0;
        valid[i] = true;
    }

    let edges = detect_edges_tiled(&angles, &valid, width, height, 8);

    // First tile should be none (7 < 8 threshold)
    assert_eq!(edges[0], EdgeDirection::NoEdge);
}

#[test]
fn test_detect_edges_tiled_reaches_threshold() {
    let width = 64;
    let height = 64;
    let mut angles = vec![0i32; width * height];
    let mut valid = vec![false; width * height];

    // Eight vertical votes in the first tile meet the threshold of 8.
    for i in 0..8 {
        angles[i] = 0;
        valid[i] = true;
    }

    let edges = detect_edges_tiled(&angles, &valid, width, height, 8);
    assert_eq!(edges[0], EdgeDirection::Vertical);
}

#[test]
fn test_detect_edges_tiled_tie_break() {
    let width = 8;
    let height = 8;
    let mut angles = vec![0i32; width * height];
    let mut valid = vec![false; width * height];

    // Four vertical votes and four horizontal votes: the first direction in
    // the fixed scan order wins the tie.
    for i in 0..4 {
        angles[i] = 0;
        valid[i] = true;
    }
    for i in 4..8 {
        angles[i] = 5000;
        valid[i] = true;
    }

    let edges = detect_edges_tiled(&angles, &valid, width, height, 4);
    assert_eq!(edges[0], EdgeDirection::Vertical);
}

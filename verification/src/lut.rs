//! Glyph lookup: edge glyphs by direction and fill glyphs by brightness.

use vstd::prelude::*;

use crate::edges::EdgeDirection;

verus! {

/// The edge glyph of a direction, one per tile row. In this glyph set the
/// choice is constant across the rows; the row index is kept so that a
/// future glyph table may vary by row.
pub open spec fn spec_edge_char(direction: EdgeDirection, row: int) -> char {
    match direction {
        EdgeDirection::Vertical => '|',
        EdgeDirection::Horizontal => '-',
        EdgeDirection::Diagonal1 => '/',
        EdgeDirection::Diagonal2 => '\\',
        EdgeDirection::NoEdge => ' ',
    }
}

/// The fill ramp: bucket 0 is the emptiest glyph, bucket 9 the fullest.
pub open spec fn spec_fill_ramp(bucket: int) -> char {
    if bucket <= 0 {
        ' '
    } else if bucket == 1 {
        '.'
    } else if bucket == 2 {
        ':'
    } else if bucket == 3 {
        '-'
    } else if bucket == 4 {
        '='
    } else if bucket == 5 {
        '+'
    } else if bucket == 6 {
        '*'
    } else if bucket == 7 {
        '#'
    } else if bucket == 8 {
        '%'
    } else {
        '@'
    }
}

/// The fill glyph of a brightness in thousandths: clamp to `0 ..= 1000`,
/// invert if asked, quantize to one of ten buckets, cap at the fullest.
pub open spec fn spec_fill_char(lum_milli: int, invert: bool) -> char {
    let clamped = if lum_milli < 0 {
        0
    } else if lum_milli > 1000 {
        1000
    } else {
        lum_milli
    };
    let adjusted = if invert {
        1000 - clamped
    } else {
        clamped
    };
    let bucket = if adjusted / 100 > 9 {
        9
    } else {
        adjusted / 100
    };
    spec_fill_ramp(bucket)
}

/// The glyph drawn at tile row `tile_y` of a tile with the given dominant
/// edge direction.
pub fn get_edge_char(direction: EdgeDirection, tile_x: u32, tile_y: u32) -> (c: char)
    requires
        tile_x < 8,
        tile_y < 8,
    ensures
        c == spec_edge_char(direction, tile_y as int),
{
    match direction {
        EdgeDirection::Vertical => '|',
        EdgeDirection::Horizontal => '-',
        EdgeDirection::Diagonal1 => '/',
        EdgeDirection::Diagonal2 => '\\',
        EdgeDirection::NoEdge => ' ',
    }
}

/// The fill glyph of a brightness given in thousandths (`0` dark, `1000`
/// bright); values outside the range are clamped. With `invert` the
/// brightness is flipped before quantizing.
pub fn get_fill_char(luminance: i32, invert: bool) -> (c: char)
    ensures
        c == spec_fill_char(luminance as int, invert),
{
    let clamped: i32 = if luminance < 0 {
        0
    } else if luminance > 1000 {
        1000
    } else {
        luminance
    };
    let adjusted: i32 = if invert { 1000 - clamped } else { clamped };
    let bucket: i32 = adjusted / 100;
    let bucket: i32 = if bucket > 9 { 9 } else { bucket };
    match bucket {
        0 => ' ',
        1 => '.',
        2 => ':',
        3 => '-',
        4 => '=',
        5 => '+',
        6 => '*',
        7 => '#',
        8 => '%',
        _ => '@',
    }
}

} // verus!

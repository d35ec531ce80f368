//! Edge direction classification and per-tile direction voting.
//!
//! Gradient angles are signed fractions of a half turn at scale ten
//! thousand: `10000` stands for half a turn (the angle pi), `5000` for a
//! quarter turn, `-2000` for a fifth of a half turn clockwise.

use vstd::prelude::*;

use crate::buffer::MAX_DIM;
use crate::buffer::lemma_row_major_bound;

verus! {

/// The discrete edge direction of a tile, or the absence of one.
#[derive(Copy, Clone, Debug, PartialEq, Eq, Structural)]
pub enum EdgeDirection {
    /// No dominant direction.
    NoEdge,
    /// `|`: a gradient near the horizontal axis crosses a vertical edge.
    Vertical,
    /// `-`: a gradient near the vertical axis crosses a horizontal edge.
    Horizontal,
    /// `/`: rising diagonal.
    Diagonal1,
    /// `\`: falling diagonal.
    Diagonal2,
}

/// Buckets a scaled angle by the fraction `t = |angle| / 10000` of a half
/// turn. The half-open decision bands, in priority order: `t` below `0.05`
/// or in `0.9 ..= 1.0` is vertical; strictly inside `0.45 .. 0.55` is
/// horizontal; strictly inside `0.05 .. 0.45` and `0.55 .. 0.9` is a
/// diagonal picked by the sign of the angle. Everything else, the band
/// boundaries included, is no edge.
pub open spec fn spec_classify(angle: int) -> EdgeDirection {
    let t = if angle < 0 { -angle } else { angle };
    if t < 500 || (9000 <= t && t <= 10000) {
        EdgeDirection::Vertical
    } else if 4500 < t && t < 5500 {
        EdgeDirection::Horizontal
    } else if 500 < t && t < 4500 {
        if angle > 0 { EdgeDirection::Diagonal2 } else { EdgeDirection::Diagonal1 }
    } else if 5500 < t && t < 9000 {
        if angle > 0 { EdgeDirection::Diagonal1 } else { EdgeDirection::Diagonal2 }
    } else {
        EdgeDirection::NoEdge
    }
}

/// Classifies a gradient angle, given as a signed fraction of a half turn
/// at scale ten thousand, into a discrete edge direction.
pub fn classify_edge_direction(angle: i32) -> (d: EdgeDirection)
    ensures
        d == spec_classify(angle as int),
{
    let t: i64 = if angle < 0 { -(angle as i64) } else { angle as i64 };
    if t < 500 || (9000 <= t && t <= 10000) {
        EdgeDirection::Vertical
    } else if 4500 < t && t < 5500 {
        EdgeDirection::Horizontal
    } else if 500 < t && t < 4500 {
        if angle > 0 { EdgeDirection::Diagonal2 } else { EdgeDirection::Diagonal1 }
    } else if 5500 < t && t < 9000 {
        if angle > 0 { EdgeDirection::Diagonal1 } else { EdgeDirection::Diagonal2 }
    } else {
        EdgeDirection::NoEdge
    }
}

/// The dominant direction among four vote counts, scanned in the fixed
/// order vertical, horizontal, rising, falling: the first direction whose
/// count reaches the maximum wins, a winner needs at least one vote, and a
/// winning count below `thr` yields no edge at all.
pub open spec fn spec_dominant_direction(cv: int, ch: int, c1: int, c2: int, thr: int)
    -> EdgeDirection {
    let dir = if cv >= 1 && cv >= ch && cv >= c1 && cv >= c2 {
        EdgeDirection::Vertical
    } else if ch >= 1 && ch > cv && ch >= c1 && ch >= c2 {
        EdgeDirection::Horizontal
    } else if c1 >= 1 && c1 > cv && c1 > ch && c1 >= c2 {
        EdgeDirection::Diagonal1
    } else if c2 >= 1 && c2 > cv && c2 > ch && c2 > c1 {
        EdgeDirection::Diagonal2
    } else {
        EdgeDirection::NoEdge
    };
    let best = if cv >= ch && cv >= c1 && cv >= c2 {
        cv
    } else if ch >= c1 && ch >= c2 {
        ch
    } else if c1 >= c2 {
        c1
    } else {
        c2
    };
    if best < thr {
        EdgeDirection::NoEdge
    } else {
        dir
    }
}

fn dominant_direction(cv: u32, ch: u32, c1: u32, c2: u32, thr: u32) -> (d: EdgeDirection)
    ensures
        d == spec_dominant_direction(cv as int, ch as int, c1 as int, c2 as int, thr as int),
{
    let dir = if cv >= 1 && cv >= ch && cv >= c1 && cv >= c2 {
        EdgeDirection::Vertical
    } else if ch >= 1 && ch > cv && ch >= c1 && ch >= c2 {
        EdgeDirection::Horizontal
    } else if c1 >= 1 && c1 > cv && c1 > ch && c1 >= c2 {
        EdgeDirection::Diagonal1
    } else if c2 >= 1 && c2 > cv && c2 > ch && c2 > c1 {
        EdgeDirection::Diagonal2
    } else {
        EdgeDirection::NoEdge
    };
    let best = if cv >= ch && cv >= c1 && cv >= c2 {
        cv
    } else if ch >= c1 && ch >= c2 {
        ch
    } else if c1 >= c2 {
        c1
    } else {
        c2
    };
    if best < thr {
        EdgeDirection::NoEdge
    } else {
        dir
    }
}

/// A tile of unanimous votes: with `cv` vertical votes and no other votes,
/// the tile is vertical exactly when the count reaches the threshold and at
/// least one pixel voted; otherwise it has no edge.
pub proof fn lemma_unanimous_vertical(cv: int, thr: int)
    requires
        cv >= 0,
    ensures
        spec_dominant_direction(cv, 0, 0, 0, thr) == if cv >= thr && cv >= 1 {
            EdgeDirection::Vertical
        } else {
            EdgeDirection::NoEdge
        },
{
}

/// Number of pixels of the 8x8 tile at `(tx, ty)`, among the first `j` in
/// row-major order, that are valid and classify as `dir`.
pub open spec fn spec_vote_count(
    angles: Seq<i32>,
    valid: Seq<bool>,
    width: int,
    tx: int,
    ty: int,
    dir: EdgeDirection,
    j: nat,
) -> int
    decreases j,
{
    if j == 0 {
        0
    } else {
        let p = j - 1;
        let idx = (ty * 8 + p / 8) * width + tx * 8 + p % 8;
        spec_vote_count(angles, valid, width, tx, ty, dir, (j - 1) as nat) + if valid[idx]
            && spec_classify(angles[idx] as int) == dir {
            1int
        } else {
            0int
        }
    }
}

/// The dominant direction of tile `t`, out of the votes of its 64 pixels.
pub open spec fn spec_tile_direction(
    angles: Seq<i32>,
    valid: Seq<bool>,
    width: int,
    thr: int,
    t: int,
    tile_w: int,
) -> EdgeDirection {
    let tx = t % tile_w;
    let ty = t / tile_w;
    spec_dominant_direction(
        spec_vote_count(angles, valid, width, tx, ty, EdgeDirection::Vertical, 64),
        spec_vote_count(angles, valid, width, tx, ty, EdgeDirection::Horizontal, 64),
        spec_vote_count(angles, valid, width, tx, ty, EdgeDirection::Diagonal1, 64),
        spec_vote_count(angles, valid, width, tx, ty, EdgeDirection::Diagonal2, 64),
        thr,
    )
}

/// Tallies the valid per-pixel directions of each 8x8 tile and picks each
/// tile's dominant direction, with the first direction in the fixed scan
/// order winning ties and a minimum-support threshold `edge_threshold`.
///
/// `angles` and `valid_mask` are row-major per-pixel fields, as produced by
/// the Sobel stage.
pub fn detect_edges_tiled(
    angles: &Vec<i32>,
    valid_mask: &Vec<bool>,
    width: usize,
    height: usize,
    edge_threshold: u32,
) -> (r: Vec<EdgeDirection>)
    requires
        angles@.len() == width * height,
        valid_mask@.len() == width * height,
        width % 8 == 0,
        height % 8 == 0,
        width <= MAX_DIM,
        height <= MAX_DIM,
    ensures
        r@.len() == (width / 8) * (height / 8),
        forall|t: int|
            0 <= t < r@.len() ==> r@[t] == spec_tile_direction(
                angles@,
                valid_mask@,
                width as int,
                edge_threshold as int,
                t,
                width as int / 8,
            ),
{
    let tile_w: usize = width / 8;
    let tile_h: usize = height / 8;
    proof {
        crate::buffer::lemma_dim_product_bound(tile_w as int, tile_h as int);
    }
    let num_tiles: usize = tile_w * tile_h;
    let mut out: Vec<EdgeDirection> = Vec::new();
    let mut t: usize = 0;
    while t < num_tiles
        invariant
            t <= num_tiles,
            num_tiles == tile_w * tile_h,
            tile_w == width / 8,
            tile_h == height / 8,
            width % 8 == 0,
            height % 8 == 0,
            width <= MAX_DIM,
            height <= MAX_DIM,
            angles@.len() == width * height,
            valid_mask@.len() == width * height,
            out@.len() == t,
            forall|q: int|
                0 <= q < t ==> out@[q] == spec_tile_direction(
                    angles@,
                    valid_mask@,
                    width as int,
                    edge_threshold as int,
                    q,
                    width as int / 8,
                ),
        decreases num_tiles - t,
    {
        let tx: usize = t % tile_w;
        let ty: usize = t / tile_w;
        proof {
            assert(tile_w >= 1) by {
                assert(num_tiles > 0);
                assert(tile_w * tile_h > 0);
                assert(tile_w > 0 && tile_h > 0) by (nonlinear_arith)
                    requires
                        tile_w * tile_h > 0,
                        tile_w >= 0,
                        tile_h >= 0,
                ;
            }
            let ti = t as int;
            let twi = tile_w as int;
            let thi = tile_h as int;
            let txi = tx as int;
            let tyi = ty as int;
            let wi = width as int;
            let hi = height as int;
            vstd::arithmetic::div_mod::lemma_mod_bound(ti, twi);
            vstd::arithmetic::div_mod::lemma_fundamental_div_mod(ti, twi);
            assert(tyi < thi) by (nonlinear_arith)
                requires
                    ti == twi * tyi + txi,
                    0 <= txi < twi,
                    ti < twi * thi,
                    0 <= tyi,
            ;
            vstd::arithmetic::div_mod::lemma_fundamental_div_mod(wi, 8);
            vstd::arithmetic::div_mod::lemma_fundamental_div_mod(hi, 8);
            assert(txi * 8 + 8 <= wi && tyi * 8 + 8 <= hi) by (nonlinear_arith)
                requires
                    txi < wi / 8,
                    tyi < hi / 8,
                    wi == 8 * (wi / 8),
                    hi == 8 * (hi / 8),
            ;
        }
        let mut cv: u32 = 0;
        let mut ch: u32 = 0;
        let mut c1: u32 = 0;
        let mut c2: u32 = 0;
        let mut j: usize = 0;
        while j < 64
            invariant
                j <= 64,
                tx * 8 + 8 <= width,
                ty * 8 + 8 <= height,
                width <= MAX_DIM,
                height <= MAX_DIM,
                angles@.len() == width * height,
                valid_mask@.len() == width * height,
                cv == spec_vote_count(
                    angles@, valid_mask@, width as int, tx as int, ty as int,
                    EdgeDirection::Vertical, j as nat,
                ),
                ch == spec_vote_count(
                    angles@, valid_mask@, width as int, tx as int, ty as int,
                    EdgeDirection::Horizontal, j as nat,
                ),
                c1 == spec_vote_count(
                    angles@, valid_mask@, width as int, tx as int, ty as int,
                    EdgeDirection::Diagonal1, j as nat,
                ),
                c2 == spec_vote_count(
                    angles@, valid_mask@, width as int, tx as int, ty as int,
                    EdgeDirection::Diagonal2, j as nat,
                ),
                cv <= j && ch <= j && c1 <= j && c2 <= j,
            decreases 64 - j,
        {
            let lx: usize = j % 8;
            let ly: usize = j / 8;
            let px: usize = tx * 8 + lx;
            let py: usize = ty * 8 + ly;
            proof {
                assert(lx < 8 && ly < 8);
                assert(px < width && py < height);
                lemma_row_major_bound(px as int, py as int, width as int, height as int);
                crate::buffer::lemma_dim_product_bound(width as int, height as int);
            }
            let idx: usize = py * width + px;
            if valid_mask[idx] {
                let d = classify_edge_direction(angles[idx]);
                match d {
                    EdgeDirection::Vertical => { cv = cv + 1; },
                    EdgeDirection::Horizontal => { ch = ch + 1; },
                    EdgeDirection::Diagonal1 => { c1 = c1 + 1; },
                    EdgeDirection::Diagonal2 => { c2 = c2 + 1; },
                    EdgeDirection::NoEdge => {},
                }
            }
            j = j + 1;
        }
        let d = dominant_direction(cv, ch, c1, c2, edge_threshold);
        proof {
            vstd::arithmetic::div_mod::lemma_fundamental_div_mod(t as int, tile_w as int);
        }
        out.push(d);
        t = t + 1;
    }
    out
}

} // verus!

//! Glyph selection per tile position and rasterization of the glyph grid
//! back into a color image.

use vstd::prelude::*;

use crate::buffer::GrayBuffer;
use crate::buffer::MAX_DIM;
use crate::buffer::RgbaBuffer;
use crate::buffer::lemma_dim_product_bound;
use crate::buffer::lemma_row_major_bound;
use crate::config::AsciiConfig;
use crate::edges::EdgeDirection;
use crate::lut::get_edge_char;
use crate::lut::get_fill_char;
use crate::lut::spec_edge_char;
use crate::lut::spec_fill_char;

verus! {

/// The hand-specified 8x8 ink mask of a glyph: whether the pixel at
/// `(x, y)` of the glyph cell is foreground. Unknown glyphs are fully
/// filled.
pub open spec fn spec_glyph_ink(ch: char, x: int, y: int) -> bool {
    if ch == ' ' {
        false
    } else if ch == '|' {
        x == 3 || x == 4
    } else if ch == '-' {
        y == 3 || y == 4
    } else if ch == '/' {
        let e = 7 - y;
        x == e || x == (if e == 0 { 0int } else { e - 1 })
    } else if ch == '\\' {
        x == y || x == (if y == 0 { 0int } else { y - 1 })
    } else if ch == '.' {
        3 <= x && x <= 4 && 3 <= y && y <= 4
    } else if ch == ':' {
        3 <= x && x <= 4 && (y == 2 || y == 5)
    } else if ch == '=' {
        y == 2 || y == 5
    } else if ch == '+' {
        x == 3 || x == 4 || y == 3 || y == 4
    } else if ch == '*' {
        x == 3 || x == 4 || y == 3 || y == 4 || x == y || x == 7 - y
    } else if ch == '#' {
        x == 2 || x == 5 || y == 2 || y == 5
    } else if ch == '%' {
        x + y == 7 || (x == 1 && y == 1) || (x == 6 && y == 6)
    } else if ch == '@' {
        (x - 3) * (x - 3) + (y - 3) * (y - 3) <= 12
    } else {
        true
    }
}

/// Whether the pixel at `(x, y)` of an 8x8 glyph cell showing `ch` is ink
/// (foreground) rather than background.
pub fn should_draw_pixel(ch: char, x: u32, y: u32) -> (b: bool)
    requires
        x < 8,
        y < 8,
    ensures
        b == spec_glyph_ink(ch, x as int, y as int),
{
    match ch {
        ' ' => false,
        '|' => x == 3 || x == 4,
        '-' => y == 3 || y == 4,
        '/' => {
            let e: u32 = 7 - y;
            x == e || (e > 0 && x == e - 1)
        },
        '\\' => x == y || (y > 0 && x == y - 1),
        '.' => 3 <= x && x <= 4 && 3 <= y && y <= 4,
        ':' => 3 <= x && x <= 4 && (y == 2 || y == 5),
        '=' => y == 2 || y == 5,
        '+' => x == 3 || x == 4 || y == 3 || y == 4,
        '*' => x == 3 || x == 4 || y == 3 || y == 4 || x == y || x == 7 - y,
        '#' => x == 2 || x == 5 || y == 2 || y == 5,
        '%' => x + y == 7 || (x == 1 && y == 1) || (x == 6 && y == 6),
        '@' => {
            let dx: i32 = x as i32 - 3;
            let dy: i32 = y as i32 - 3;
            proof {
                assert(0 <= dx * dx && dx * dx <= 16 && 0 <= dy * dy && dy * dy <= 16)
                    by (nonlinear_arith)
                    requires
                        -3 <= dx <= 4,
                        -3 <= dy <= 4,
                ;
            }
            dx * dx + dy * dy <= 12
        },
        _ => true,
    }
}

/// The glyph of one tile position: an edge glyph when edges are drawn and
/// the tile has a direction, else a fill glyph from the tile brightness when
/// fill is drawn, else blank.
pub open spec fn spec_select_char(
    dir: EdgeDirection,
    lum_milli: int,
    ly: int,
    cfg: AsciiConfig,
) -> char {
    if cfg.draw_edges && dir != EdgeDirection::NoEdge {
        spec_edge_char(dir, ly)
    } else if cfg.draw_fill {
        spec_fill_char(lum_milli, cfg.invert_luminance)
    } else {
        ' '
    }
}

/// Selects the glyph for one pixel position of a tile, from the tile's
/// dominant edge direction, its brightness in thousandths, and the drawing
/// flags. The tile coordinates do not influence the choice in this glyph
/// set; they are kept for a future position-dependent glyph table.
pub fn select_ascii_char(
    edge_dir: EdgeDirection,
    luminance: i32,
    _tile_x: u32,
    _tile_y: u32,
    local_x: u32,
    local_y: u32,
    config: &AsciiConfig,
) -> (c: char)
    requires
        local_x < 8,
        local_y < 8,
    ensures
        c == spec_select_char(edge_dir, luminance as int, local_y as int, *config),
{
    if config.draw_edges && edge_dir != EdgeDirection::NoEdge {
        get_edge_char(edge_dir, local_x, local_y)
    } else if config.draw_fill {
        get_fill_char(luminance, config.invert_luminance)
    } else {
        ' '
    }
}

/// Sum of the first `j` samples (row-major) of the `ts` by `ts` tile at
/// `(tx, ty)` of a scalar field.
pub open spec fn spec_tile_lum_sum(
    d: Seq<u8>,
    w: int,
    ts: int,
    tx: int,
    ty: int,
    j: nat,
) -> int
    decreases j,
{
    if j == 0 {
        0
    } else {
        let p = j - 1;
        spec_tile_lum_sum(d, w, ts, tx, ty, (j - 1) as nat) + d[(ty * ts + p / ts) * w + tx * ts
            + p % ts]
    }
}

/// The mean brightness of a tile in thousandths: the sample sum scaled by
/// one thousand and divided by the tile's full brightness `ts * ts * 255`.
pub open spec fn spec_tile_lum(d: Seq<u8>, w: int, ts: int, tx: int, ty: int) -> int {
    spec_tile_lum_sum(d, w, ts, tx, ty, (ts * ts) as nat) * 1000 / (ts * ts * 255)
}

/// The per-tile mean brightness of a field, tiles in row-major order.
pub open spec fn spec_tile_lums_seq(d: Seq<u8>, w: int, h: int, ts: int) -> Seq<i32> {
    Seq::new(
        ((w / ts) * (h / ts)) as nat,
        |t: int| spec_tile_lum(d, w, ts, t % (w / ts), t / (w / ts)) as i32,
    )
}

/// Averages a scalar field over `tile_size` by `tile_size` tiles and
/// returns one mean brightness in thousandths per tile, in row-major tile
/// order.
pub fn downscale_to_tiles(lum: &GrayBuffer, tile_size: usize) -> (r: Vec<i32>)
    requires
        lum.wf(),
        1 <= tile_size <= 256,
        lum.width % tile_size == 0,
        lum.height % tile_size == 0,
    ensures
        r@.len() == (lum.width / tile_size) * (lum.height / tile_size),
        r@ == spec_tile_lums_seq(
            lum.data@,
            lum.width as int,
            lum.height as int,
            tile_size as int,
        ),
{
    let w = lum.width;
    let h = lum.height;
    let ts = tile_size;
    let tile_w: usize = w / ts;
    let tile_h: usize = h / ts;
    proof {
        lemma_dim_product_bound(tile_w as int, tile_h as int);
    }
    let num_tiles: usize = tile_w * tile_h;
    let ghost target = spec_tile_lums_seq(lum.data@, w as int, h as int, ts as int);
    let mut out: Vec<i32> = Vec::new();
    let mut t: usize = 0;
    while t < num_tiles
        invariant
            t <= num_tiles,
            num_tiles == tile_w * tile_h,
            tile_w == w / ts,
            tile_h == h / ts,
            w % ts == 0,
            h % ts == 0,
            1 <= ts <= 256,
            w == lum.width,
            h == lum.height,
            lum.wf(),
            target == spec_tile_lums_seq(lum.data@, w as int, h as int, ts as int),
            out@.len() == t,
            forall|q: int| 0 <= q < t ==> out@[q] == target[q],
        decreases num_tiles - t,
    {
        let tx: usize = t % tile_w;
        let ty: usize = t / tile_w;
        proof {
            let ti = t as int;
            let twi = tile_w as int;
            let thi = tile_h as int;
            assert(twi >= 1 && thi >= 1) by (nonlinear_arith)
                requires
                    twi * thi > ti,
                    ti >= 0,
                    twi >= 0,
                    thi >= 0,
            ;
            vstd::arithmetic::div_mod::lemma_mod_bound(ti, twi);
            vstd::arithmetic::div_mod::lemma_fundamental_div_mod(ti, twi);
            assert((ty as int) < thi) by (nonlinear_arith)
                requires
                    ti == twi * (ty as int) + (tx as int),
                    0 <= (tx as int) && (tx as int) < twi,
                    ti < twi * thi,
                    0 <= ty as int,
            ;
            vstd::arithmetic::div_mod::lemma_fundamental_div_mod(w as int, ts as int);
            vstd::arithmetic::div_mod::lemma_fundamental_div_mod(h as int, ts as int);
            assert((tx as int) * (ts as int) + ts as int <= w as int && (ty as int) * (ts as int)
                + ts as int <= h as int) by (nonlinear_arith)
                requires
                    (tx as int) < (w as int) / (ts as int),
                    (ty as int) < (h as int) / (ts as int),
                    w as int == (ts as int) * ((w as int) / (ts as int)),
                    h as int == (ts as int) * ((h as int) / (ts as int)),
                    ts as int >= 1,
            ;
            assert((ts as int) * (ts as int) <= 65536) by (nonlinear_arith)
                requires
                    1 <= ts as int <= 256,
            ;
        }
        let tile_px: usize = ts * ts;
        let mut sum: u64 = 0;
        let mut j: usize = 0;
        while j < tile_px
            invariant
                j <= tile_px,
                tile_px == ts * ts,
                tile_px <= 65536,
                1 <= ts <= 256,
                tx * ts + ts <= w,
                ty * ts + ts <= h,
                w == lum.width,
                h == lum.height,
                lum.wf(),
                sum == spec_tile_lum_sum(
                    lum.data@,
                    w as int,
                    ts as int,
                    tx as int,
                    ty as int,
                    j as nat,
                ),
                sum <= j * 255,
            decreases tile_px - j,
        {
            let lx: usize = j % ts;
            let ly: usize = j / ts;
            proof {
                vstd::arithmetic::div_mod::lemma_mod_bound(j as int, ts as int);
                vstd::arithmetic::div_mod::lemma_fundamental_div_mod(j as int, ts as int);
                assert((ly as int) < ts as int) by (nonlinear_arith)
                    requires
                        j as int == (ts as int) * (ly as int) + (lx as int),
                        0 <= (lx as int) && (lx as int) < ts as int,
                        (j as int) < (ts as int) * (ts as int),
                        0 <= ly as int,
                ;
            }
            let px: usize = tx * ts + lx;
            let py: usize = ty * ts + ly;
            proof {
                lemma_row_major_bound(px as int, py as int, w as int, h as int);
                lemma_dim_product_bound(w as int, h as int);
            }
            let s = lum.data[py * w + px];
            sum = sum + (s as u64);
            j = j + 1;
        }
        let denom: u64 = (tile_px as u64) * 255;
        proof {
            assert(tile_px >= 1) by (nonlinear_arith)
                requires
                    tile_px as int == (ts as int) * (ts as int),
                    ts >= 1,
            ;
            assert(denom >= 255);
            assert(sum * 1000 <= (denom as int) * 1000) by (nonlinear_arith)
                requires
                    sum <= (tile_px as int) * 255,
                    denom as int == (tile_px as int) * 255,
            ;
            vstd::arithmetic::div_mod::lemma_div_is_ordered(
                (sum as int) * 1000,
                (denom as int) * 1000,
                denom as int,
            );
            assert(((denom as int) * 1000) / (denom as int) == 1000) by {
                vstd::arithmetic::div_mod::lemma_div_multiples_vanish(1000, denom as int);
            }
            vstd::arithmetic::div_mod::lemma_div_pos_is_pos((sum as int) * 1000, denom as int);
            assert((ts as int) * (ts as int) * 255 == denom as int) by (nonlinear_arith)
                requires
                    tile_px as int == (ts as int) * (ts as int),
                    denom as int == (tile_px as int) * 255,
            ;
        }
        let v: u64 = sum * 1000 / denom;
        out.push(v as i32);
        proof {
            vstd::arithmetic::div_mod::lemma_fundamental_div_mod(t as int, tile_w as int);
        }
        t = t + 1;
    }
    proof {
        assert(out@ =~= target);
    }
    out
}

/// The 64 glyphs of one tile: one per pixel position, row-major, all chosen
/// from the tile's direction and brightness.
pub open spec fn spec_tile_chars(dir: EdgeDirection, lum_milli: int, cfg: AsciiConfig)
    -> Seq<char> {
    Seq::new(64, |j: int| spec_select_char(dir, lum_milli, j / 8, cfg))
}

/// Selects the glyphs of every tile: for each tile one glyph per pixel
/// position (64 per tile, row-major within the tile).
pub fn select_ascii_chars(
    edges: &Vec<EdgeDirection>,
    tile_lum: &Vec<i32>,
    tile_width: usize,
    tile_height: usize,
    config: &AsciiConfig,
) -> (r: Vec<Vec<char>>)
    requires
        edges@.len() == tile_width * tile_height,
        tile_lum@.len() == tile_width * tile_height,
        tile_width <= MAX_DIM,
        tile_height <= MAX_DIM,
    ensures
        r@.len() == tile_width * tile_height,
        forall|t: int|
            0 <= t < r@.len() ==> (#[trigger] r@[t])@ == spec_tile_chars(
                edges@[t],
                tile_lum@[t] as int,
                *config,
            ),
{
    proof {
        lemma_dim_product_bound(tile_width as int, tile_height as int);
    }
    let num_tiles: usize = tile_width * tile_height;
    let mut out: Vec<Vec<char>> = Vec::new();
    let mut t: usize = 0;
    while t < num_tiles
        invariant
            t <= num_tiles,
            num_tiles == tile_width * tile_height,
            edges@.len() == num_tiles,
            tile_lum@.len() == num_tiles,
            out@.len() == t,
            forall|q: int|
                0 <= q < t ==> (#[trigger] out@[q])@ == spec_tile_chars(
                    edges@[q],
                    tile_lum@[q] as int,
                    *config,
                ),
        decreases num_tiles - t,
    {
        let dir = edges[t];
        let lv = tile_lum[t];
        let mut tile_chars: Vec<char> = Vec::new();
        let mut j: usize = 0;
        while j < 64
            invariant
                j <= 64,
                tile_chars@.len() == j,
                forall|q: int|
                    0 <= q < j ==> tile_chars@[q] == spec_select_char(
                        dir,
                        lv as int,
                        q / 8,
                        *config,
                    ),
            decreases 64 - j,
        {
            let lx: u32 = (j % 8) as u32;
            let ly: u32 = (j / 8) as u32;
            let c = select_ascii_char(dir, lv, 0, 0, lx, ly, config);
            tile_chars.push(c);
            j = j + 1;
        }
        proof {
            assert(tile_chars@ =~= spec_tile_chars(dir, lv as int, *config));
        }
        out.push(tile_chars);
        t = t + 1;
    }
    out
}

/// The views of a vector of glyph vectors, one sequence per tile.
pub open spec fn spec_views(chars: Seq<Vec<char>>) -> Seq<Seq<char>> {
    Seq::new(chars.len(), |t: int| chars[t]@)
}

/// One output byte of the rasterizer. The pixel `(x, y)` of the image lies
/// in tile `(x / 8, y / 8)` at cell position `(x % 8, y % 8)`; its glyph
/// decides between ink and background. Without a source image the
/// configured colors are used, opaque. With one, ink pixels copy the source
/// pixel whole, and background pixels take the source color darkened to a
/// fifth, opaque.
pub open spec fn spec_render_channel(
    chars: Seq<Seq<char>>,
    tw: int,
    cfg: AsciiConfig,
    src: Option<Seq<u8>>,
    w: int,
    x: int,
    y: int,
    c: int,
) -> u8 {
    let ch = chars[(y / 8) * tw + x / 8][(y % 8) * 8 + x % 8];
    let ink = spec_glyph_ink(ch, x % 8, y % 8);
    match src {
        Option::None => {
            if c == 3 {
                255u8
            } else if ink {
                cfg.ascii_color[c]
            } else {
                cfg.bg_color[c]
            }
        },
        Option::Some(sd) => {
            if ink {
                sd[4 * (y * w + x) + c]
            } else if c == 3 {
                255u8
            } else {
                sd[4 * (y * w + x) + c] / 5
            }
        },
    }
}

/// The whole rasterized image of a glyph grid, as a byte sequence.
pub open spec fn spec_render_seq(
    chars: Seq<Seq<char>>,
    tw: int,
    th: int,
    cfg: AsciiConfig,
    src: Option<Seq<u8>>,
) -> Seq<u8> {
    Seq::new(
        (4 * ((tw * 8) * (th * 8))) as nat,
        |i: int| spec_render_channel(
            chars,
            tw,
            cfg,
            src,
            tw * 8,
            (i / 4) % (tw * 8),
            (i / 4) / (tw * 8),
            i % 4,
        ),
    )
}

/// Rasterizes a glyph grid into a color image, painting ink pixels with the
/// configured foreground color and the rest with the background color, all
/// opaque. With a source image, ink pixels instead copy the source pixel
/// and background pixels take the source color darkened to a fifth.
pub fn render_ascii_to_image_with_source(
    chars: &Vec<Vec<char>>,
    tile_width: usize,
    tile_height: usize,
    config: &AsciiConfig,
    source_image: Option<&RgbaBuffer>,
) -> (r: RgbaBuffer)
    requires
        chars@.len() == tile_width * tile_height,
        forall|t: int| 0 <= t < chars@.len() ==> (#[trigger] chars@[t])@.len() == 64,
        tile_width * 8 <= MAX_DIM,
        tile_height * 8 <= MAX_DIM,
        match source_image {
            Option::Some(src) => src.wf() && src.width == tile_width * 8 && src.height
                == tile_height * 8,
            Option::None => true,
        },
    ensures
        r.wf(),
        r.width == tile_width * 8,
        r.height == tile_height * 8,
        r.data@ == spec_render_seq(
            spec_views(chars@),
            tile_width as int,
            tile_height as int,
            *config,
            match source_image {
                Option::Some(src) => Option::Some(src.data@),
                Option::None => Option::None,
            },
        ),
{
    let w: usize = tile_width * 8;
    let h: usize = tile_height * 8;
    proof {
        lemma_dim_product_bound(w as int, h as int);
        assert((tile_width as int) * 8 * ((tile_height as int) * 8) == 64 * ((tile_width as int)
            * (tile_height as int))) by (nonlinear_arith);
    }
    let ghost srcv: Option<Seq<u8>> = match source_image {
        Option::Some(src) => Option::Some(src.data@),
        Option::None => Option::None,
    };
    let ghost target = spec_render_seq(
        spec_views(chars@),
        tile_width as int,
        tile_height as int,
        *config,
        srcv,
    );
    let count: usize = w * h;
    let mut data: Vec<u8> = Vec::new();
    let mut p: usize = 0;
    while p < count
        invariant
            p <= count,
            count == w * h,
            w == tile_width * 8,
            h == tile_height * 8,
            w <= MAX_DIM,
            h <= MAX_DIM,
            4 * count < usize::MAX,
            chars@.len() == tile_width * tile_height,
            forall|t: int| 0 <= t < chars@.len() ==> (#[trigger] chars@[t])@.len() == 64,
            match source_image {
                Option::Some(src) => src.wf() && src.width == w && src.height == h,
                Option::None => true,
            },
            srcv == (match source_image {
                Option::Some(src) => Option::Some(src.data@),
                Option::None => Option::<Seq<u8>>::None,
            }),
            target == spec_render_seq(
                spec_views(chars@),
                tile_width as int,
                tile_height as int,
                *config,
                srcv,
            ),
            target.len() == 4 * count,
            data@.len() == 4 * p,
            forall|q: int| 0 <= q < data@.len() ==> data@[q] == target[q],
        decreases count - p,
    {
        proof {
            assert(w >= 1) by (nonlinear_arith)
                requires
                    (w as int) * (h as int) > p as int,
                    p as int >= 0,
                    w as int >= 0,
            ;
            vstd::arithmetic::div_mod::lemma_mod_bound(p as int, w as int);
            vstd::arithmetic::div_mod::lemma_fundamental_div_mod(p as int, w as int);
        }
        let x: usize = p % w;
        let y: usize = p / w;
        proof {
            assert(y < h) by (nonlinear_arith)
                requires
                    p as int == (w as int) * (y as int) + (x as int),
                    0 <= (x as int) && (x as int) < w as int,
                    (p as int) < (w as int) * (h as int),
                    0 <= y as int,
            ;
        }
        let tx: usize = x / 8;
        let ty: usize = y / 8;
        proof {
            vstd::arithmetic::div_mod::lemma_fundamental_div_mod(x as int, 8);
            vstd::arithmetic::div_mod::lemma_mod_bound(x as int, 8);
            vstd::arithmetic::div_mod::lemma_fundamental_div_mod(y as int, 8);
            vstd::arithmetic::div_mod::lemma_mod_bound(y as int, 8);
            assert((tx as int) < tile_width as int && (ty as int) < tile_height as int)
                by (nonlinear_arith)
                requires
                    x as int == 8 * (tx as int) + (x as int) % 8,
                    y as int == 8 * (ty as int) + (y as int) % 8,
                    0 <= (x as int) % 8 < 8,
                    0 <= (y as int) % 8 < 8,
                    (x as int) < (tile_width as int) * 8,
                    (y as int) < (tile_height as int) * 8,
                    0 <= tx as int,
                    0 <= ty as int,
            ;
            assert(tile_width <= MAX_DIM && tile_height <= MAX_DIM);
            lemma_dim_product_bound(tile_width as int, tile_height as int);
            lemma_row_major_bound(tx as int, ty as int, tile_width as int, tile_height as int);
        }
        let t: usize = ty * tile_width + tx;
        let lx: usize = x % 8;
        let ly: usize = y % 8;
        let j: usize = ly * 8 + lx;
        let ch: char = chars[t][j];
        let ink: bool = should_draw_pixel(ch, lx as u32, ly as u32);
        proof {
            lemma_row_major_bound(x as int, y as int, w as int, h as int);
            vstd::arithmetic::div_mod::lemma_fundamental_div_mod_converse(
                4 * (p as int),
                4,
                p as int,
                0,
            );
            vstd::arithmetic::div_mod::lemma_fundamental_div_mod_converse(
                4 * (p as int) + 1,
                4,
                p as int,
                1,
            );
            vstd::arithmetic::div_mod::lemma_fundamental_div_mod_converse(
                4 * (p as int) + 2,
                4,
                p as int,
                2,
            );
            vstd::arithmetic::div_mod::lemma_fundamental_div_mod_converse(
                4 * (p as int) + 3,
                4,
                p as int,
                3,
            );
        }
        match source_image {
            Option::Some(src) => {
                let base: usize = 4 * (y * w + x);
                if ink {
                    data.push(src.data[base]);
                    data.push(src.data[base + 1]);
                    data.push(src.data[base + 2]);
                    data.push(src.data[base + 3]);
                } else {
                    data.push(src.data[base] / 5);
                    data.push(src.data[base + 1] / 5);
                    data.push(src.data[base + 2] / 5);
                    data.push(255);
                }
            },
            Option::None => {
                if ink {
                    data.push(config.ascii_color[0]);
                    data.push(config.ascii_color[1]);
                    data.push(config.ascii_color[2]);
                    data.push(255);
                } else {
                    data.push(config.bg_color[0]);
                    data.push(config.bg_color[1]);
                    data.push(config.bg_color[2]);
                    data.push(255);
                }
            },
        }
        p = p + 1;
    }
    let out = RgbaBuffer { width: w, height: h, data };
    proof {
        assert(out.data@ =~= target);
    }
    out
}

/// Rasterizes a glyph grid with the configured solid colors.
pub fn render_ascii_to_image(
    chars: &Vec<Vec<char>>,
    tile_width: usize,
    tile_height: usize,
    config: &AsciiConfig,
) -> (r: RgbaBuffer)
    requires
        chars@.len() == tile_width * tile_height,
        forall|t: int| 0 <= t < chars@.len() ==> (#[trigger] chars@[t])@.len() == 64,
        tile_width * 8 <= MAX_DIM,
        tile_height * 8 <= MAX_DIM,
    ensures
        r.wf(),
        r.width == tile_width * 8,
        r.height == tile_height * 8,
        r.data@ == spec_render_seq(
            spec_views(chars@),
            tile_width as int,
            tile_height as int,
            *config,
            Option::None,
        ),
{
    render_ascii_to_image_with_source(chars, tile_width, tile_height, config, Option::None)
}

} // verus!

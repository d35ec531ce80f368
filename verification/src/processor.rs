//! The pipeline orchestrator: dimension normalization and the fixed stage
//! sequence from color image to rendered ASCII art image.

use vstd::prelude::*;

use crate::ascii::downscale_to_tiles;
use crate::ascii::render_ascii_to_image;
use crate::ascii::render_ascii_to_image_with_source;
use crate::ascii::select_ascii_chars;
use crate::ascii::spec_render_seq;
use crate::ascii::spec_tile_chars;
use crate::ascii::spec_tile_lums_seq;
use crate::ascii::spec_views;
use crate::buffer::RgbaBuffer;
use crate::config::AsciiConfig;
use crate::config::spec_config_valid;
use crate::edges::EdgeDirection;
use crate::edges::detect_edges_tiled;
use crate::edges::spec_tile_direction;
use crate::filters::calculate_luminance;
use crate::filters::difference_of_gaussians;
use crate::filters::sobel_filter;
use crate::filters::spec_dog_seq;
use crate::filters::spec_lum_seq;
use crate::filters::spec_sobel_angles_seq;
use crate::filters::spec_sobel_valid_seq;

verus! {

/// What `image::imageops::resize` with the Lanczos3 filter returns for a
/// given source image and target size: a pure function of its arguments,
/// left uninterpreted here.
pub uninterp spec fn lanczos_resized(pixels: Seq<u8>, w: int, h: int, nw: int, nh: int) -> Seq<u8>;

/// Relies on `image::imageops::resize` with `FilterType::Lanczos3`: it
/// returns a buffer of exactly the requested dimensions, four bytes per
/// pixel, computed from the source pixels and the dimensions alone.
#[verifier::external_body]
fn resize_lanczos(img: &RgbaBuffer, nw: u32, nh: u32) -> (r: RgbaBuffer)
    requires
        img.wf(),
        1 <= img.width,
        1 <= img.height,
        1 <= nw as usize <= img.width,
        1 <= nh as usize <= img.height,
    ensures
        r.wf(),
        r.width == nw,
        r.height == nh,
        r.data@ == lanczos_resized(
            img.data@,
            img.width as int,
            img.height as int,
            nw as int,
            nh as int,
        ),
{
    let src = image::RgbaImage::from_raw(img.width as u32, img.height as u32, img.data.clone())
        .expect("buffer length matches dimensions");
    let out = image::imageops::resize(&src, nw, nh, image::imageops::FilterType::Lanczos3);
    RgbaBuffer { width: nw as usize, height: nh as usize, data: out.into_raw() }
}

/// The working image of a pipeline run: the input unchanged when both
/// dimensions already are multiples of eight, the Lanczos-resampled image
/// when both rounded-down dimensions are still positive, and the empty
/// image when a dimension rounds down to zero.
pub open spec fn spec_prepared(d: Seq<u8>, w: int, h: int) -> Seq<u8> {
    let tw8 = (w / 8) * 8;
    let th8 = (h / 8) * 8;
    if tw8 == w && th8 == h {
        d
    } else if tw8 >= 8 && th8 >= 8 {
        lanczos_resized(d, w, h, tw8, th8)
    } else {
        Seq::empty()
    }
}

/// Rounds the image down to dimensions that are multiples of eight. An
/// image whose dimensions already comply is returned unchanged and the flag
/// is false; otherwise the image is resampled down (Lanczos) and the flag
/// is true. A dimension below eight rounds down to zero and yields an empty
/// image.
pub fn resize_to_valid_dimensions(input: &RgbaBuffer) -> (r: (RgbaBuffer, bool))
    requires
        input.wf(),
    ensures
        r.0.wf(),
        r.0.width == (input.width / 8) * 8,
        r.0.height == (input.height / 8) * 8,
        r.1 == !(input.width % 8 == 0 && input.height % 8 == 0),
        r.0.data@ == spec_prepared(input.data@, input.width as int, input.height as int),
{
    let tw: usize = (input.width / 8) * 8;
    let th: usize = (input.height / 8) * 8;
    proof {
        vstd::arithmetic::div_mod::lemma_fundamental_div_mod(input.width as int, 8);
        vstd::arithmetic::div_mod::lemma_fundamental_div_mod(input.height as int, 8);
        vstd::arithmetic::div_mod::lemma_mod_bound(input.width as int, 8);
        vstd::arithmetic::div_mod::lemma_mod_bound(input.height as int, 8);
    }
    if tw == input.width && th == input.height {
        let mut data: Vec<u8> = Vec::new();
        let n = input.data.len();
        let mut i: usize = 0;
        while i < n
            invariant
                i <= n,
                n == input.data@.len(),
                data@.len() == i,
                forall|q: int| 0 <= q < i ==> data@[q] == input.data@[q],
            decreases n - i,
        {
            data.push(input.data[i]);
            i = i + 1;
        }
        let out = RgbaBuffer { width: tw, height: th, data };
        proof {
            assert(out.data@ =~= input.data@);
        }
        (out, false)
    } else if tw >= 8 && th >= 8 {
        let out = resize_lanczos(input, tw as u32, th as u32);
        (out, true)
    } else {
        proof {
            if tw < 8 {
                assert(tw == 0);
            }
            if th < 8 {
                assert(th == 0);
            }
            assert(4 * ((tw as int) * (th as int)) == 0) by (nonlinear_arith)
                requires
                    tw == 0 || th == 0,
            ;
        }
        let out = RgbaBuffer { width: tw, height: th, data: Vec::new() };
        proof {
            assert(out.data@ =~= Seq::<u8>::empty());
        }
        (out, true)
    }
}

/// The per-tile dominant directions of a gradient field, tiles row-major.
pub open spec fn spec_tile_dirs_seq(
    ang: Seq<i32>,
    val: Seq<bool>,
    w: int,
    h: int,
    thr: int,
) -> Seq<EdgeDirection> {
    Seq::new(
        ((w / 8) * (h / 8)) as nat,
        |t: int| spec_tile_direction(ang, val, w, thr, t, w / 8),
    )
}

/// The glyph grid of a pipeline run, from the working image's bytes and the
/// configuration: luminance, difference of Gaussians at `sigma` and
/// `sigma * sigma_scale`, Sobel angles, tile direction votes and tile
/// brightness, then one glyph per tile position.
pub open spec fn spec_pipeline_chars(rd: Seq<u8>, w8: int, h8: int, cfg: AsciiConfig)
    -> Seq<Seq<char>> {
    let lum = spec_lum_seq(rd, w8, h8);
    let s2 = cfg.sigma * cfg.sigma_scale / 1000;
    let dog = spec_dog_seq(
        lum,
        w8,
        h8,
        cfg.sigma as int,
        s2,
        cfg.kernel_size as int,
        cfg.tau as int,
        cfg.threshold as int,
    );
    let ang = spec_sobel_angles_seq(dog, w8, h8);
    let val = spec_sobel_valid_seq(dog, w8, h8);
    let dirs = spec_tile_dirs_seq(ang, val, w8, h8, cfg.edge_threshold as int);
    let lums = spec_tile_lums_seq(lum, w8, h8, 8);
    Seq::new(((w8 / 8) * (h8 / 8)) as nat, |t: int| spec_tile_chars(dirs[t], lums[t] as int, cfg))
}

/// The output bytes of a full solid-color pipeline run on an image.
pub open spec fn spec_process(d: Seq<u8>, w: int, h: int, cfg: AsciiConfig) -> Seq<u8> {
    let w8 = (w / 8) * 8;
    let h8 = (h / 8) * 8;
    let rd = spec_prepared(d, w, h);
    spec_render_seq(spec_pipeline_chars(rd, w8, h8, cfg), w8 / 8, h8 / 8, cfg, Option::None)
}

/// The output bytes of a full source-color pipeline run on an image.
pub open spec fn spec_process_preserve(d: Seq<u8>, w: int, h: int, cfg: AsciiConfig) -> Seq<u8> {
    let w8 = (w / 8) * 8;
    let h8 = (h / 8) * 8;
    let rd = spec_prepared(d, w, h);
    spec_render_seq(
        spec_pipeline_chars(rd, w8, h8, cfg),
        w8 / 8,
        h8 / 8,
        cfg,
        Option::Some(rd),
    )
}

/// The pipeline is a pure function: two runs over the same image and
/// configuration yield bit-identical output, in either color mode.
pub proof fn lemma_process_deterministic(
    d: Seq<u8>,
    w: int,
    h: int,
    cfg: AsciiConfig,
    r1: Seq<u8>,
    r2: Seq<u8>,
)
    requires
        r1 == spec_process(d, w, h, cfg) || r1 == spec_process_preserve(d, w, h, cfg),
        r2 == spec_process(d, w, h, cfg) || r2 == spec_process_preserve(d, w, h, cfg),
        r1 == spec_process(d, w, h, cfg) <==> r2 == spec_process(d, w, h, cfg),
    ensures
        r1 == r2,
{
}

/// Runs the glyph pipeline on a working image whose dimensions are
/// multiples of eight, and rasterizes either with solid colors or with the
/// working image's own colors.
fn run_pipeline(working: &RgbaBuffer, config: &AsciiConfig, preserve: bool) -> (r: RgbaBuffer)
    requires
        working.wf(),
        working.width % 8 == 0,
        working.height % 8 == 0,
        spec_config_valid(*config),
    ensures
        r.wf(),
        r.width == working.width,
        r.height == working.height,
        r.data@ == spec_render_seq(
            spec_pipeline_chars(
                working.data@,
                working.width as int,
                working.height as int,
                *config,
            ),
            working.width as int / 8,
            working.height as int / 8,
            *config,
            if preserve {
                Option::Some(working.data@)
            } else {
                Option::None
            },
        ),
{
    let w = working.width;
    let h = working.height;
    proof {
        vstd::arithmetic::div_mod::lemma_fundamental_div_mod(w as int, 8);
        vstd::arithmetic::div_mod::lemma_fundamental_div_mod(h as int, 8);
    }
    let lum = calculate_luminance(working);
    proof {
        assert(0 <= (config.sigma as int) * (config.sigma_scale as int) <= 25000000)
            by (nonlinear_arith)
            requires
                0 <= config.sigma <= 5000,
                0 <= config.sigma_scale <= 5000,
        ;
    }
    let sigma2: i32 = config.sigma * config.sigma_scale / 1000;
    let dog = difference_of_gaussians(
        &lum,
        config.sigma,
        sigma2,
        config.kernel_size,
        config.tau,
        config.threshold,
    );
    let sobel = sobel_filter(&dog);
    let angles = sobel.0;
    let valid = sobel.1;
    let edges = detect_edges_tiled(&angles, &valid, w, h, config.edge_threshold);
    let tile_lum = downscale_to_tiles(&lum, 8);
    let tile_w: usize = w / 8;
    let tile_h: usize = h / 8;
    let ghost w8 = w as int;
    let ghost h8 = h as int;
    let ghost cfg = *config;
    let ghost rd = working.data@;
    let ghost lum_s = spec_lum_seq(rd, w8, h8);
    let ghost dog_s = spec_dog_seq(
        lum_s,
        w8,
        h8,
        cfg.sigma as int,
        cfg.sigma * cfg.sigma_scale / 1000,
        cfg.kernel_size as int,
        cfg.tau as int,
        cfg.threshold as int,
    );
    let ghost dirs = spec_tile_dirs_seq(
        spec_sobel_angles_seq(dog_s, w8, h8),
        spec_sobel_valid_seq(dog_s, w8, h8),
        w8,
        h8,
        cfg.edge_threshold as int,
    );
    proof {
        assert(edges@ =~= dirs);
    }
    let chars = select_ascii_chars(&edges, &tile_lum, tile_w, tile_h, config);
    proof {
        assert(spec_views(chars@) =~= spec_pipeline_chars(rd, w8, h8, cfg));
        assert(tile_w * 8 == w && tile_h * 8 == h);
    }
    if preserve {
        render_ascii_to_image_with_source(&chars, tile_w, tile_h, config, Option::Some(working))
    } else {
        render_ascii_to_image(&chars, tile_w, tile_h, config)
    }
}

/// Converts an image to ASCII art rendered in the configured solid colors.
/// An image whose dimensions are not multiples of eight is first resampled
/// down to the nearest such dimensions.
///
/// The configuration must have passed [`AsciiConfig::validate`].
pub fn process_image(input: &RgbaBuffer, config: &AsciiConfig) -> (r: RgbaBuffer)
    requires
        input.wf(),
        spec_config_valid(*config),
    ensures
        r.wf(),
        r.width == (input.width / 8) * 8,
        r.height == (input.height / 8) * 8,
        r.data@ == spec_process(input.data@, input.width as int, input.height as int, *config),
{
    let prepared = resize_to_valid_dimensions(input);
    let working = prepared.0;
    proof {
        vstd::arithmetic::div_mod::lemma_fundamental_div_mod_converse(
            working.width as int,
            8,
            input.width as int / 8,
            0,
        );
        vstd::arithmetic::div_mod::lemma_fundamental_div_mod_converse(
            working.height as int,
            8,
            input.height as int / 8,
            0,
        );
    }
    run_pipeline(&working, config, false)
}

/// Converts an image to ASCII art that keeps the source colors: glyph ink
/// pixels copy the working image's pixels, background pixels keep them
/// darkened. The dimension handling matches [`process_image`].
///
/// The configuration must have passed [`AsciiConfig::validate`].
pub fn process_image_preserve_colors(input: &RgbaBuffer, config: &AsciiConfig) -> (r: RgbaBuffer)
    requires
        input.wf(),
        spec_config_valid(*config),
    ensures
        r.wf(),
        r.width == (input.width / 8) * 8,
        r.height == (input.height / 8) * 8,
        r.data@ == spec_process_preserve(
            input.data@,
            input.width as int,
            input.height as int,
            *config,
        ),
{
    let prepared = resize_to_valid_dimensions(input);
    let working = prepared.0;
    proof {
        vstd::arithmetic::div_mod::lemma_fundamental_div_mod_converse(
            working.width as int,
            8,
            input.width as int / 8,
            0,
        );
        vstd::arithmetic::div_mod::lemma_fundamental_div_mod_converse(
            working.height as int,
            8,
            input.height as int / 8,
            0,
        );
    }
    run_pipeline(&working, config, true)
}

} // verus!

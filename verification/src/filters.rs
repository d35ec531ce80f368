//! The per-pixel filter stages: luminance extraction, separable Gaussian
//! blur, difference-of-Gaussians edge detection, and the Sobel gradient.
//!
//! Brightness samples are 8-bit. Standard deviations come in thousandths of
//! a pixel, kernel weights are carried at scale `SCALE9`, and gradient
//! angles leave the Sobel stage as signed fractions of a half turn at scale
//! ten thousand.

use vstd::prelude::*;

use crate::buffer::GrayBuffer;
use crate::buffer::MAX_DIM;
use crate::buffer::RgbaBuffer;
use crate::buffer::lemma_dim_product_bound;
use crate::buffer::lemma_row_major_bound;
use crate::fixed::POW15;
use crate::fixed::SCALE9;
use crate::fixed::SQRT_TWO_PI_6;
use crate::fixed::exp_neg9;
use crate::fixed::kernel_weight;
use crate::fixed::lemma_exp_neg9_bounds;
use crate::fixed::lemma_kernel_weight_center;
use crate::fixed::lemma_kernel_weight_symmetric;
use crate::fixed::atan2_scaled;
use crate::fixed::spec_atan2_scaled;
use crate::fixed::spec_exp_neg9;
use crate::fixed::spec_gauss_z9;
use crate::fixed::spec_kernel_weight;

verus! {

/// The luminance of one pixel: `0.2127 R + 0.7152 G + 0.0722 B` over
/// channel values normalized to one, scaled back to 8 bits, evaluated in
/// ten-thousandths with a truncating division.
pub open spec fn spec_lum_px(r: u8, g: u8, b: u8) -> int {
    (2127 * r + 7152 * g + 722 * b) / 10000
}

/// The luminance field of a color image.
pub open spec fn spec_lum_seq(d: Seq<u8>, w: int, h: int) -> Seq<u8> {
    Seq::new((w * h) as nat, |p: int| spec_lum_px(d[4 * p], d[4 * p + 1], d[4 * p + 2]) as u8)
}

/// The per-pixel luminance never exceeds 8 bits: the coefficients sum to
/// `10001`, and `255 * 10001 / 10000` still truncates to `255`.
pub proof fn lemma_lum_px_bound(r: u8, g: u8, b: u8)
    ensures
        0 <= spec_lum_px(r, g, b) <= 255,
{
    vstd::arithmetic::div_mod::lemma_div_pos_is_pos(2127 * r + 7152 * g + 722 * b, 10000);
    vstd::arithmetic::div_mod::lemma_div_is_ordered(2127 * r + 7152 * g + 722 * b, 2550255, 10000);
}

/// On a uniform gray pixel the luminance is exactly the gray value: the
/// formula gives `v * 10001 / 10000`, and the excess `v` is swallowed by
/// the truncating division.
pub proof fn lemma_luminance_gray(v: u8)
    ensures
        spec_lum_px(v, v, v) == v,
{
    assert(2127 * v + 7152 * v + 722 * v == (v as int) * 10000 + v);
    vstd::arithmetic::div_mod::lemma_fundamental_div_mod_converse(
        (v as int) * 10000 + v,
        10000,
        v as int,
        v as int,
    );
}

/// Converts a color image to its per-pixel luminance field.
pub fn calculate_luminance(img: &RgbaBuffer) -> (r: GrayBuffer)
    requires
        img.wf(),
    ensures
        r.wf(),
        r.width == img.width,
        r.height == img.height,
        r.data@ == spec_lum_seq(img.data@, img.width as int, img.height as int),
{
    proof {
        lemma_dim_product_bound(img.width as int, img.height as int);
    }
    let count: usize = img.width * img.height;
    let mut data: Vec<u8> = Vec::new();
    let mut p: usize = 0;
    while p < count
        invariant
            p <= count,
            count == img.width * img.height,
            4 * count < usize::MAX,
            img.wf(),
            data@.len() == p,
            forall|q: int|
                0 <= q < p ==> data@[q] == spec_lum_seq(
                    img.data@,
                    img.width as int,
                    img.height as int,
                )[q],
        decreases count - p,
    {
        let r = img.data[4 * p];
        let g = img.data[4 * p + 1];
        let b = img.data[4 * p + 2];
        let num: u32 = 2127 * (r as u32) + 7152 * (g as u32) + 722 * (b as u32);
        let v: u32 = num / 10000;
        proof {
            lemma_lum_px_bound(r, g, b);
        }
        data.push(v as u8);
        p = p + 1;
    }
    let out = GrayBuffer { width: img.width, height: img.height, data };
    proof {
        assert(out.data@ =~= spec_lum_seq(img.data@, img.width as int, img.height as int));
    }
    out
}

/// The full Gaussian weight `exp(-pos^2 / (2 sigma^2)) / sqrt(2 pi sigma^2)`
/// at scale one million, with `sigma` in thousandths: the normalizing
/// prefactor at scale `SCALE9` divided down after the exponential.
pub open spec fn spec_gaussian(sigma_milli: int, pos: int) -> int {
    (POW15 as int) / (sigma_milli * (SQRT_TWO_PI_6 as int)) * spec_exp_neg9(
        spec_gauss_z9(sigma_milli, pos),
    ) / (SCALE9 as int)
}

/// The Gaussian weight depends on the position only through its square, so
/// it is symmetric around the center.
pub proof fn lemma_gaussian_symmetric(sigma_milli: int, pos: int)
    ensures
        spec_gaussian(sigma_milli, pos) == spec_gaussian(sigma_milli, -pos),
{
    assert((-pos) * (-pos) == pos * pos) by (nonlinear_arith);
}

/// The Gaussian weight at position `pos` (in whole pixels from the center)
/// for a standard deviation of `sigma` thousandths of a pixel, at scale one
/// million.
pub fn gaussian(sigma: i32, pos: i32) -> (w: u64)
    requires
        1 <= sigma <= 25000,
    ensures
        w == spec_gaussian(sigma as int, pos as int),
        w <= 399000000,
{
    let s: u64 = sigma as u64;
    let pa: u64 = if pos < 0 {
        (-(pos as i64)) as u64
    } else {
        pos as u64
    };
    proof {
        let pai = pa as int;
        let posi = pos as int;
        assert(pai == posi || pai == -posi);
        assert(pai * pai == posi * posi) by (nonlinear_arith)
            requires
                pai == posi || pai == -posi,
        ;
        assert((pa as u128) * (pa as u128) < 0x10000000000000000u128) by (nonlinear_arith)
            requires
                pa < 0x100000000u64,
        ;
        assert(1 <= (s as u128) * (s as u128) <= 625000000u128) by (nonlinear_arith)
            requires
                1 <= s <= 25000,
        ;
    }
    let sq: u128 = (pa as u128) * (pa as u128);
    let z_wide: u128 = sq * (POW15 as u128) / (2 * ((s as u128) * (s as u128)));
    proof {
        assert(sq * (POW15 as u128) <= 0x10000000000000000u128 * (POW15 as u128))
            by (nonlinear_arith)
            requires
                sq <= 0x10000000000000000u128,
        ;
        vstd::arithmetic::div_mod::lemma_div_pos_is_pos(
            (sq as int) * (POW15 as int),
            2 * ((s as int) * (s as int)),
        );
    }
    let z9: u64 = if z_wide >= 30000000000u128 {
        30000000000u64
    } else {
        z_wide as u64
    };
    let e: u64 = exp_neg9(z9);
    proof {
        let zi = spec_gauss_z9(sigma as int, pos as int);
        assert(2 * (sigma as int) * (sigma as int) == 2 * ((s as int) * (s as int)))
            by (nonlinear_arith)
            requires
                s as int == sigma as int,
        ;
        assert(zi == z_wide as int);
        if z_wide >= 30000000000u128 {
            assert(spec_exp_neg9(zi) == 0);
            assert(spec_exp_neg9(z9 as int) == 0);
        }
        assert(e == spec_exp_neg9(zi));
        assert(s * SQRT_TWO_PI_6 >= SQRT_TWO_PI_6 && s * SQRT_TWO_PI_6 <= 25000 * 2506628)
            by (nonlinear_arith)
            requires
                1 <= s <= 25000,
                SQRT_TWO_PI_6 == 2506628u64,
        ;
    }
    let pref: u64 = POW15 / (s * SQRT_TWO_PI_6);
    proof {
        vstd::arithmetic::div_mod::lemma_div_is_ordered_by_denominator(
            POW15 as int,
            SQRT_TWO_PI_6 as int,
            (s as int) * (SQRT_TWO_PI_6 as int),
        );
        assert(pref <= 398942324);
        assert(pref * e <= 398942324 * (SCALE9 as int)) by (nonlinear_arith)
            requires
                0 <= pref <= 398942324,
                0 <= e <= SCALE9 as int,
        ;
        vstd::arithmetic::div_mod::lemma_div_is_ordered(
            (pref as int) * (e as int),
            398942324 * (SCALE9 as int),
            SCALE9 as int,
        );
        vstd::arithmetic::div_mod::lemma_div_multiples_vanish(398942324, SCALE9 as int);
        vstd::arithmetic::div_mod::lemma_div_pos_is_pos((pref as int) * (e as int), SCALE9 as int);
    }
    pref * e / SCALE9
}

/// `v` clamped into `lo ..= hi`.
pub open spec fn spec_clampi(v: int, lo: int, hi: int) -> int {
    if v < lo {
        lo
    } else if v > hi {
        hi
    } else {
        v
    }
}

/// Partial horizontal convolution sum at `(x, y)`: the first `taps` kernel
/// taps, each a kernel weight times the sample at the clamped column.
pub open spec fn spec_conv_h_num(
    d: Seq<u8>,
    w: int,
    x: int,
    y: int,
    sm: int,
    k: int,
    taps: nat,
) -> int
    decreases taps,
{
    if taps == 0 {
        0
    } else {
        spec_conv_h_num(d, w, x, y, sm, k, (taps - 1) as nat) + spec_kernel_weight(sm, taps - 1 - k)
            * d[y * w + spec_clampi(x + taps - 1 - k, 0, w - 1)]
    }
}

/// Partial vertical convolution sum at `(x, y)`: like the horizontal one,
/// but sampling along the clamped row.
pub open spec fn spec_conv_v_num(
    d: Seq<u8>,
    w: int,
    h: int,
    x: int,
    y: int,
    sm: int,
    k: int,
    taps: nat,
) -> int
    decreases taps,
{
    if taps == 0 {
        0
    } else {
        spec_conv_v_num(d, w, h, x, y, sm, k, (taps - 1) as nat) + spec_kernel_weight(
            sm,
            taps - 1 - k,
        ) * d[spec_clampi(y + taps - 1 - k, 0, h - 1) * w + x]
    }
}

/// Partial kernel weight sum: the normalization denominator. No tap is ever
/// skipped at the borders, only clamped, so the denominator is the same for
/// every pixel.
pub open spec fn spec_kernel_den(sm: int, k: int, taps: nat) -> int
    decreases taps,
{
    if taps == 0 {
        0
    } else {
        spec_kernel_den(sm, k, (taps - 1) as nat) + spec_kernel_weight(sm, taps - 1 - k)
    }
}

/// One horizontally blurred sample: the weighted sum over the clamped
/// neighborhood divided by the weight sum. A zero standard deviation makes
/// the blur the identity.
pub open spec fn spec_blur_h_px(d: Seq<u8>, w: int, x: int, y: int, sm: int, k: int) -> int {
    if sm == 0 {
        d[y * w + x] as int
    } else {
        spec_conv_h_num(d, w, x, y, sm, k, (2 * k + 1) as nat) / spec_kernel_den(
            sm,
            k,
            (2 * k + 1) as nat,
        )
    }
}

/// One vertically blurred sample.
pub open spec fn spec_blur_v_px(d: Seq<u8>, w: int, h: int, x: int, y: int, sm: int, k: int)
    -> int {
    if sm == 0 {
        d[y * w + x] as int
    } else {
        spec_conv_v_num(d, w, h, x, y, sm, k, (2 * k + 1) as nat) / spec_kernel_den(
            sm,
            k,
            (2 * k + 1) as nat,
        )
    }
}

/// The horizontally blurred field.
pub open spec fn spec_blur_h_seq(d: Seq<u8>, w: int, h: int, sm: int, k: int) -> Seq<u8> {
    Seq::new((w * h) as nat, |p: int| spec_blur_h_px(d, w, p % w, p / w, sm, k) as u8)
}

/// The vertically blurred field.
pub open spec fn spec_blur_v_seq(d: Seq<u8>, w: int, h: int, sm: int, k: int) -> Seq<u8> {
    Seq::new((w * h) as nat, |p: int| spec_blur_v_px(d, w, h, p % w, p / w, sm, k) as u8)
}

/// The full separable blur: the horizontal pass followed by the vertical one.
pub open spec fn spec_blur2d_seq(d: Seq<u8>, w: int, h: int, sm: int, k: int) -> Seq<u8> {
    spec_blur_v_seq(spec_blur_h_seq(d, w, h, sm, k), w, h, sm, k)
}

/// Kernel weights are nonnegative and at most one, at scale.
pub proof fn lemma_kernel_weight_bounds(sm: int, o: int)
    requires
        sm >= 1,
    ensures
        0 <= spec_kernel_weight(sm, o) <= SCALE9,
{
    assert(o * o >= 0 && 2 * sm * sm > 0) by (nonlinear_arith)
        requires
            sm >= 1,
    ;
    assert((o * o) * (POW15 as int) >= 0) by (nonlinear_arith)
        requires
            o * o >= 0,
    ;
    vstd::arithmetic::div_mod::lemma_div_pos_is_pos(o * o * (POW15 as int), 2 * sm * sm);
    lemma_exp_neg9_bounds(spec_gauss_z9(sm, o));
}

/// The weight sum is nonnegative, grows at most one unit of scale per tap,
/// and reaches a full unit of scale once the center tap is in.
pub proof fn lemma_kernel_den_bounds(sm: int, k: int, taps: nat)
    requires
        sm >= 1,
        k >= 0,
    ensures
        0 <= spec_kernel_den(sm, k, taps) <= taps * SCALE9,
        taps >= k + 1 ==> spec_kernel_den(sm, k, taps) >= SCALE9,
    decreases taps,
{
    if taps == 0 {
    } else {
        lemma_kernel_den_bounds(sm, k, (taps - 1) as nat);
        lemma_kernel_weight_bounds(sm, taps - 1 - k);
        if taps - 1 == k {
            lemma_kernel_weight_center(sm);
        }
    }
}

/// The horizontal pass of the separable Gaussian blur: convolves each row
/// with the kernel, clamping sample columns to the image, and normalizes by
/// the weight sum. A zero `sigma` leaves the field unchanged.
pub fn gaussian_blur_h(img: &GrayBuffer, sigma: i32, kernel_size: u32) -> (r: GrayBuffer)
    requires
        img.wf(),
        0 <= sigma <= 25000,
        1 <= kernel_size <= 10,
    ensures
        r.wf(),
        r.width == img.width,
        r.height == img.height,
        r.data@ == spec_blur_h_seq(
            img.data@,
            img.width as int,
            img.height as int,
            sigma as int,
            kernel_size as int,
        ),
{
    let w = img.width;
    let h = img.height;
    proof {
        lemma_dim_product_bound(w as int, h as int);
    }
    let count: usize = w * h;
    let ghost target = spec_blur_h_seq(
        img.data@,
        w as int,
        h as int,
        sigma as int,
        kernel_size as int,
    );
    if sigma == 0 {
        let mut data: Vec<u8> = Vec::new();
        let mut p: usize = 0;
        while p < count
            invariant
                p <= count,
                count == w * h,
                img.wf(),
                w == img.width,
                h == img.height,
                data@.len() == p,
                forall|q: int| 0 <= q < p ==> data@[q] == img.data@[q],
            decreases count - p,
        {
            data.push(img.data[p]);
            p = p + 1;
        }
        let out = GrayBuffer { width: w, height: h, data };
        proof {
            assert forall|q: int| 0 <= q < count implies out.data@[q] == target[q] by {
                assert(w as int >= 1) by (nonlinear_arith)
                    requires
                        (w as int) * (h as int) > q,
                        q >= 0,
                        w as int >= 0,
                ;
                vstd::arithmetic::div_mod::lemma_mod_bound(q, w as int);
                vstd::arithmetic::div_mod::lemma_fundamental_div_mod(q, w as int);
                assert((q / (w as int)) * (w as int) + q % (w as int) == q);
            }
            assert(out.data@ =~= target);
        }
        return out;
    }
    let sm: u32 = sigma as u32;
    let k: usize = kernel_size as usize;
    let taps: usize = 2 * k + 1;
    let mut wts: Vec<u64> = Vec::new();
    let mut j: usize = 0;
    while j < taps
        invariant
            j <= taps,
            taps == 2 * k + 1,
            1 <= k <= 10,
            1 <= sm <= 25000,
            sm == sigma,
            k == kernel_size,
            wts@.len() == j,
            forall|i: int|
                0 <= i < j ==> wts@[i] == spec_kernel_weight(sm as int, i - k) && wts@[i]
                    <= SCALE9,
        decreases taps - j,
    {
        let off: u32 = if j < k {
            (k - j) as u32
        } else {
            (j - k) as u32
        };
        let wv = kernel_weight(sm, off);
        proof {
            if j < k {
                lemma_kernel_weight_symmetric(sm as int, j - k);
            }
        }
        wts.push(wv);
        j = j + 1;
    }
    let mut data: Vec<u8> = Vec::new();
    let mut p: usize = 0;
    while p < count
        invariant
            p <= count,
            count == w * h,
            w * h <= MAX_DIM * MAX_DIM,
            img.wf(),
            w == img.width,
            h == img.height,
            taps == 2 * k + 1,
            1 <= k <= 10,
            1 <= sm <= 25000,
            sm == sigma,
            k == kernel_size,
            wts@.len() == taps,
            forall|i: int|
                0 <= i < taps ==> wts@[i] == spec_kernel_weight(sm as int, i - k) && wts@[i]
                    <= SCALE9,
            data@.len() == p,
            forall|q: int| 0 <= q < p ==> data@[q] == target[q],
            target == spec_blur_h_seq(
                img.data@,
                w as int,
                h as int,
                sigma as int,
                kernel_size as int,
            ),
        decreases count - p,
    {
        proof {
            assert(w >= 1) by (nonlinear_arith)
                requires
                    (w as int) * (h as int) > p as int,
                    p as int >= 0,
                    w as int >= 0,
            ;
            vstd::arithmetic::div_mod::lemma_mod_bound(p as int, w as int);
            vstd::arithmetic::div_mod::lemma_fundamental_div_mod(p as int, w as int);
        }
        let x: usize = p % w;
        let y: usize = p / w;
        proof {
            assert(y < h) by (nonlinear_arith)
                requires
                    p as int == (w as int) * (y as int) + (x as int),
                    0 <= (x as int) && (x as int) < w as int,
                    (p as int) < (w as int) * (h as int),
                    0 <= y as int,
            ;
        }
        let mut num: u64 = 0;
        let mut den: u64 = 0;
        let mut j2: usize = 0;
        while j2 < taps
            invariant
                j2 <= taps,
                taps == 2 * k + 1,
                1 <= k <= 10,
                1 <= sm <= 25000,
                x < w,
                y < h,
                w == img.width,
                h == img.height,
                w * h <= MAX_DIM * MAX_DIM,
                img.wf(),
                wts@.len() == taps,
                forall|i: int|
                    0 <= i < taps ==> wts@[i] == spec_kernel_weight(sm as int, i - k) && wts@[i]
                        <= SCALE9,
                num == spec_conv_h_num(
                    img.data@,
                    w as int,
                    x as int,
                    y as int,
                    sm as int,
                    k as int,
                    j2 as nat,
                ),
                den == spec_kernel_den(sm as int, k as int, j2 as nat),
                num <= 255 * den,
                den <= j2 * (SCALE9 as int),
            decreases taps - j2,
        {
            let xi: i64 = x as i64 + j2 as i64 - k as i64;
            let sx: usize = if xi < 0 {
                0
            } else if xi > (w - 1) as i64 {
                w - 1
            } else {
                xi as usize
            };
            proof {
                assert(sx as int == spec_clampi(x as int + j2 as int - k as int, 0, w as int - 1));
                lemma_row_major_bound(sx as int, y as int, w as int, h as int);
                lemma_dim_product_bound(w as int, h as int);
            }
            let s = img.data[y * w + sx];
            let wv = wts[j2];
            proof {
                assert(wv * (s as u64) <= wv * 255) by (nonlinear_arith)
                    requires
                        s as int <= 255,
                        wv as int >= 0,
                ;
                assert(wv * 255 <= (SCALE9 as int) * 255) by (nonlinear_arith)
                    requires
                        0 <= wv <= SCALE9 as int,
                ;
            }
            num = num + wv * (s as u64);
            den = den + wv;
            j2 = j2 + 1;
        }
        proof {
            lemma_kernel_den_bounds(sm as int, k as int, (2 * k + 1) as nat);
            vstd::arithmetic::div_mod::lemma_div_is_ordered(
                num as int,
                255 * (den as int),
                den as int,
            );
            vstd::arithmetic::div_mod::lemma_div_multiples_vanish(255, den as int);
            vstd::arithmetic::div_mod::lemma_div_pos_is_pos(num as int, den as int);
        }
        let v: u64 = num / den;
        data.push(v as u8);
        p = p + 1;
    }
    let out = GrayBuffer { width: w, height: h, data };
    proof {
        assert(out.data@ =~= target);
    }
    out
}

/// The vertical pass of the separable Gaussian blur, sampling along clamped
/// rows; otherwise identical to the horizontal pass.
pub fn gaussian_blur_v(img: &GrayBuffer, sigma: i32, kernel_size: u32) -> (r: GrayBuffer)
    requires
        img.wf(),
        0 <= sigma <= 25000,
        1 <= kernel_size <= 10,
    ensures
        r.wf(),
        r.width == img.width,
        r.height == img.height,
        r.data@ == spec_blur_v_seq(
            img.data@,
            img.width as int,
            img.height as int,
            sigma as int,
            kernel_size as int,
        ),
{
    let w = img.width;
    let h = img.height;
    proof {
        lemma_dim_product_bound(w as int, h as int);
    }
    let count: usize = w * h;
    let ghost target = spec_blur_v_seq(
        img.data@,
        w as int,
        h as int,
        sigma as int,
        kernel_size as int,
    );
    if sigma == 0 {
        let mut data: Vec<u8> = Vec::new();
        let mut p: usize = 0;
        while p < count
            invariant
                p <= count,
                count == w * h,
                img.wf(),
                w == img.width,
                h == img.height,
                data@.len() == p,
                forall|q: int| 0 <= q < p ==> data@[q] == img.data@[q],
            decreases count - p,
        {
            data.push(img.data[p]);
            p = p + 1;
        }
        let out = GrayBuffer { width: w, height: h, data };
        proof {
            assert forall|q: int| 0 <= q < count implies out.data@[q] == target[q] by {
                assert(w as int >= 1) by (nonlinear_arith)
                    requires
                        (w as int) * (h as int) > q,
                        q >= 0,
                        w as int >= 0,
                ;
                vstd::arithmetic::div_mod::lemma_mod_bound(q, w as int);
                vstd::arithmetic::div_mod::lemma_fundamental_div_mod(q, w as int);
                assert((q / (w as int)) * (w as int) + q % (w as int) == q);
            }
            assert(out.data@ =~= target);
        }
        return out;
    }
    let sm: u32 = sigma as u32;
    let k: usize = kernel_size as usize;
    let taps: usize = 2 * k + 1;
    let mut wts: Vec<u64> = Vec::new();
    let mut j: usize = 0;
    while j < taps
        invariant
            j <= taps,
            taps == 2 * k + 1,
            1 <= k <= 10,
            1 <= sm <= 25000,
            sm == sigma,
            k == kernel_size,
            wts@.len() == j,
            forall|i: int|
                0 <= i < j ==> wts@[i] == spec_kernel_weight(sm as int, i - k) && wts@[i]
                    <= SCALE9,
        decreases taps - j,
    {
        let off: u32 = if j < k {
            (k - j) as u32
        } else {
            (j - k) as u32
        };
        let wv = kernel_weight(sm, off);
        proof {
            if j < k {
                lemma_kernel_weight_symmetric(sm as int, j - k);
            }
        }
        wts.push(wv);
        j = j + 1;
    }
    let mut data: Vec<u8> = Vec::new();
    let mut p: usize = 0;
    while p < count
        invariant
            p <= count,
            count == w * h,
            w * h <= MAX_DIM * MAX_DIM,
            img.wf(),
            w == img.width,
            h == img.height,
            taps == 2 * k + 1,
            1 <= k <= 10,
            1 <= sm <= 25000,
            sm == sigma,
            k == kernel_size,
            wts@.len() == taps,
            forall|i: int|
                0 <= i < taps ==> wts@[i] == spec_kernel_weight(sm as int, i - k) && wts@[i]
                    <= SCALE9,
            data@.len() == p,
            forall|q: int| 0 <= q < p ==> data@[q] == target[q],
            target == spec_blur_v_seq(
                img.data@,
                w as int,
                h as int,
                sigma as int,
                kernel_size as int,
            ),
        decreases count - p,
    {
        proof {
            assert(w >= 1) by (nonlinear_arith)
                requires
                    (w as int) * (h as int) > p as int,
                    p as int >= 0,
                    w as int >= 0,
            ;
            vstd::arithmetic::div_mod::lemma_mod_bound(p as int, w as int);
            vstd::arithmetic::div_mod::lemma_fundamental_div_mod(p as int, w as int);
        }
        let x: usize = p % w;
        let y: usize = p / w;
        proof {
            assert(y < h) by (nonlinear_arith)
                requires
                    p as int == (w as int) * (y as int) + (x as int),
                    0 <= (x as int) && (x as int) < w as int,
                    (p as int) < (w as int) * (h as int),
                    0 <= y as int,
            ;
        }
        let mut num: u64 = 0;
        let mut den: u64 = 0;
        let mut j2: usize = 0;
        while j2 < taps
            invariant
                j2 <= taps,
                taps == 2 * k + 1,
                1 <= k <= 10,
                1 <= sm <= 25000,
                x < w,
                y < h,
                w == img.width,
                h == img.height,
                w * h <= MAX_DIM * MAX_DIM,
                img.wf(),
                wts@.len() == taps,
                forall|i: int|
                    0 <= i < taps ==> wts@[i] == spec_kernel_weight(sm as int, i - k) && wts@[i]
                        <= SCALE9,
                num == spec_conv_v_num(
                    img.data@,
                    w as int,
                    h as int,
                    x as int,
                    y as int,
                    sm as int,
                    k as int,
                    j2 as nat,
                ),
                den == spec_kernel_den(sm as int, k as int, j2 as nat),
                num <= 255 * den,
                den <= j2 * (SCALE9 as int),
            decreases taps - j2,
        {
            let yi: i64 = y as i64 + j2 as i64 - k as i64;
            let sy: usize = if yi < 0 {
                0
            } else if yi > (h - 1) as i64 {
                h - 1
            } else {
                yi as usize
            };
            proof {
                assert(sy as int == spec_clampi(y as int + j2 as int - k as int, 0, h as int - 1));
                lemma_row_major_bound(x as int, sy as int, w as int, h as int);
                lemma_dim_product_bound(w as int, h as int);
            }
            let s = img.data[sy * w + x];
            let wv = wts[j2];
            proof {
                assert(wv * (s as u64) <= wv * 255) by (nonlinear_arith)
                    requires
                        s as int <= 255,
                        wv as int >= 0,
                ;
                assert(wv * 255 <= (SCALE9 as int) * 255) by (nonlinear_arith)
                    requires
                        0 <= wv <= SCALE9 as int,
                ;
            }
            num = num + wv * (s as u64);
            den = den + wv;
            j2 = j2 + 1;
        }
        proof {
            lemma_kernel_den_bounds(sm as int, k as int, (2 * k + 1) as nat);
            vstd::arithmetic::div_mod::lemma_div_is_ordered(
                num as int,
                255 * (den as int),
                den as int,
            );
            vstd::arithmetic::div_mod::lemma_div_multiples_vanish(255, den as int);
            vstd::arithmetic::div_mod::lemma_div_pos_is_pos(num as int, den as int);
        }
        let v: u64 = num / den;
        data.push(v as u8);
        p = p + 1;
    }
    let out = GrayBuffer { width: w, height: h, data };
    proof {
        assert(out.data@ =~= target);
    }
    out
}

/// The full separable Gaussian blur: the horizontal pass, then the vertical
/// pass on its output.
pub fn gaussian_blur(img: &GrayBuffer, sigma: i32, kernel_size: u32) -> (r: GrayBuffer)
    requires
        img.wf(),
        0 <= sigma <= 25000,
        1 <= kernel_size <= 10,
    ensures
        r.wf(),
        r.width == img.width,
        r.height == img.height,
        r.data@ == spec_blur2d_seq(
            img.data@,
            img.width as int,
            img.height as int,
            sigma as int,
            kernel_size as int,
        ),
{
    let temp = gaussian_blur_h(img, sigma, kernel_size);
    gaussian_blur_v(&temp, sigma, kernel_size)
}

/// One binary difference-of-Gaussians sample from the two blurred samples:
/// full brightness where `g1 - tau * g2 >= threshold` over normalized
/// values, zero elsewhere. `tau` and `threshold` come in thousandths, so
/// the comparison clears denominators: `1000 g1 >= tau g2 + 255 threshold`.
pub open spec fn spec_dog_px(g1: u8, g2: u8, tau: int, thr: int) -> int {
    if 1000 * g1 >= tau * g2 + 255 * thr {
        255
    } else {
        0
    }
}

/// The binary edge mask of a brightness field: blur at `s1` and at `s2`,
/// subtract with weight `tau`, threshold.
pub open spec fn spec_dog_seq(
    d: Seq<u8>,
    w: int,
    h: int,
    s1: int,
    s2: int,
    k: int,
    tau: int,
    thr: int,
) -> Seq<u8> {
    let b1 = spec_blur2d_seq(d, w, h, s1, k);
    let b2 = spec_blur2d_seq(d, w, h, s2, k);
    Seq::new((w * h) as nat, |p: int| spec_dog_px(b1[p], b2[p], tau, thr) as u8)
}

/// Difference-of-Gaussians edge detection: blurs the field at `sigma1` and
/// `sigma2`, subtracts the second blur weighted by `tau` (thousandths), and
/// thresholds at `threshold` (thousandths of full brightness). Every output
/// sample is exactly zero or full.
pub fn difference_of_gaussians(
    img: &GrayBuffer,
    sigma1: i32,
    sigma2: i32,
    kernel_size: u32,
    tau: i32,
    threshold: i32,
) -> (r: GrayBuffer)
    requires
        img.wf(),
        0 <= sigma1 <= 25000,
        0 <= sigma2 <= 25000,
        1 <= kernel_size <= 10,
        0 <= tau <= 1100,
        0 <= threshold <= 100,
    ensures
        r.wf(),
        r.width == img.width,
        r.height == img.height,
        r.data@ == spec_dog_seq(
            img.data@,
            img.width as int,
            img.height as int,
            sigma1 as int,
            sigma2 as int,
            kernel_size as int,
            tau as int,
            threshold as int,
        ),
        forall|i: int| 0 <= i < r.data@.len() ==> r.data@[i] == 0 || r.data@[i] == 255,
{
    let w = img.width;
    let h = img.height;
    proof {
        lemma_dim_product_bound(w as int, h as int);
    }
    let b1 = gaussian_blur(img, sigma1, kernel_size);
    let b2 = gaussian_blur(img, sigma2, kernel_size);
    let ghost target = spec_dog_seq(
        img.data@,
        w as int,
        h as int,
        sigma1 as int,
        sigma2 as int,
        kernel_size as int,
        tau as int,
        threshold as int,
    );
    let count: usize = w * h;
    let mut data: Vec<u8> = Vec::new();
    let mut p: usize = 0;
    while p < count
        invariant
            p <= count,
            count == w * h,
            b1.data@.len() == count,
            b2.data@.len() == count,
            b1.data@ == spec_blur2d_seq(
                img.data@,
                w as int,
                h as int,
                sigma1 as int,
                kernel_size as int,
            ),
            b2.data@ == spec_blur2d_seq(
                img.data@,
                w as int,
                h as int,
                sigma2 as int,
                kernel_size as int,
            ),
            target == spec_dog_seq(
                img.data@,
                w as int,
                h as int,
                sigma1 as int,
                sigma2 as int,
                kernel_size as int,
                tau as int,
                threshold as int,
            ),
            0 <= tau <= 1100,
            0 <= threshold <= 100,
            data@.len() == p,
            forall|q: int|
                0 <= q < p ==> data@[q] == target[q] && (data@[q] == 0 || data@[q] == 255),
        decreases count - p,
    {
        let g1 = b1.data[p];
        let g2 = b2.data[p];
        proof {
            assert((tau as int) * (g2 as int) <= 1100 * 255) by (nonlinear_arith)
                requires
                    0 <= tau <= 1100,
                    g2 <= 255,
            ;
        }
        let lhs: u32 = 1000 * (g1 as u32);
        let rhs: u32 = (tau as u32) * (g2 as u32) + 255 * (threshold as u32);
        let v: u8 = if lhs >= rhs {
            255
        } else {
            0
        };
        data.push(v);
        p = p + 1;
    }
    let out = GrayBuffer { width: w, height: h, data };
    proof {
        assert(out.data@ =~= target);
    }
    out
}

/// An edge-mask sample read as a bit: full brightness is one, anything
/// else is zero.
pub open spec fn spec_bit(v: u8) -> int {
    if v == 255 {
        1
    } else {
        0
    }
}

/// The horizontal Sobel response at an interior pixel, over mask bits:
/// the kernel `[-1 0 1; -2 0 2; -1 0 1]`.
pub open spec fn spec_gx(d: Seq<u8>, w: int, x: int, y: int) -> int {
    -spec_bit(d[(y - 1) * w + x - 1]) + spec_bit(d[(y - 1) * w + x + 1]) - 2 * spec_bit(
        d[y * w + x - 1],
    ) + 2 * spec_bit(d[y * w + x + 1]) - spec_bit(d[(y + 1) * w + x - 1]) + spec_bit(
        d[(y + 1) * w + x + 1],
    )
}

/// The vertical Sobel response at an interior pixel, over mask bits:
/// the kernel `[-1 -2 -1; 0 0 0; 1 2 1]`.
pub open spec fn spec_gy(d: Seq<u8>, w: int, x: int, y: int) -> int {
    -spec_bit(d[(y - 1) * w + x - 1]) - 2 * spec_bit(d[(y - 1) * w + x]) - spec_bit(
        d[(y - 1) * w + x + 1],
    ) + spec_bit(d[(y + 1) * w + x - 1]) + 2 * spec_bit(d[(y + 1) * w + x]) + spec_bit(
        d[(y + 1) * w + x + 1],
    )
}

/// Whether `(x, y)` has a full 3x3 neighborhood: the outermost one-pixel
/// border does not.
pub open spec fn spec_interior(w: int, h: int, x: int, y: int) -> bool {
    1 <= x && x < w - 1 && 1 <= y && y < h - 1
}

/// A pixel carries a valid gradient when it is interior and its Sobel
/// response is nonzero. On a binary mask any nonzero response has magnitude
/// at least one, so this is the magnitude floor of the design.
pub open spec fn spec_sobel_valid_px(d: Seq<u8>, w: int, h: int, x: int, y: int) -> bool {
    spec_interior(w, h, x, y) && (spec_gx(d, w, x, y) != 0 || spec_gy(d, w, x, y) != 0)
}

/// The gradient angle of a pixel: `atan2(gy, gx)` as a scaled half-turn
/// fraction for valid pixels, zero for the rest.
pub open spec fn spec_sobel_angle_px(d: Seq<u8>, w: int, h: int, x: int, y: int) -> int {
    if spec_sobel_valid_px(d, w, h, x, y) {
        spec_atan2_scaled(spec_gy(d, w, x, y), spec_gx(d, w, x, y))
    } else {
        0
    }
}

/// The per-pixel gradient angles of a mask.
pub open spec fn spec_sobel_angles_seq(d: Seq<u8>, w: int, h: int) -> Seq<i32> {
    Seq::new((w * h) as nat, |p: int| spec_sobel_angle_px(d, w, h, p % w, p / w) as i32)
}

/// The per-pixel gradient validity of a mask.
pub open spec fn spec_sobel_valid_seq(d: Seq<u8>, w: int, h: int) -> Seq<bool> {
    Seq::new((w * h) as nat, |p: int| spec_sobel_valid_px(d, w, h, p % w, p / w))
}

/// The Sobel response of one interior pixel: its gradient angle and
/// validity.
#[verifier::rlimit(100)]
fn sobel_px(edges: &GrayBuffer, x: usize, y: usize) -> (r: (i32, bool))
    requires
        edges.wf(),
        1 <= x && x + 1 < edges.width,
        1 <= y && y + 1 < edges.height,
    ensures
        r.1 == spec_sobel_valid_px(
            edges.data@,
            edges.width as int,
            edges.height as int,
            x as int,
            y as int,
        ),
        r.0 == spec_sobel_angle_px(
            edges.data@,
            edges.width as int,
            edges.height as int,
            x as int,
            y as int,
        ),
{
    let w = edges.width;
    let h = edges.height;
    proof {
        lemma_dim_product_bound(w as int, h as int);
        lemma_row_major_bound(x as int - 1, y as int - 1, w as int, h as int);
        lemma_row_major_bound(x as int, y as int - 1, w as int, h as int);
        lemma_row_major_bound(x as int + 1, y as int - 1, w as int, h as int);
        lemma_row_major_bound(x as int - 1, y as int, w as int, h as int);
        lemma_row_major_bound(x as int, y as int, w as int, h as int);
        lemma_row_major_bound(x as int + 1, y as int, w as int, h as int);
        lemma_row_major_bound(x as int - 1, y as int + 1, w as int, h as int);
        lemma_row_major_bound(x as int, y as int + 1, w as int, h as int);
        lemma_row_major_bound(x as int + 1, y as int + 1, w as int, h as int);
    }
    let row_n: usize = (y - 1) * w;
    let row_c: usize = y * w;
    let row_s: usize = (y + 1) * w;
    let b_nw: i32 = if edges.data[row_n + x - 1] == 255 { 1 } else { 0 };
    let b_n: i32 = if edges.data[row_n + x] == 255 { 1 } else { 0 };
    let b_ne: i32 = if edges.data[row_n + x + 1] == 255 { 1 } else { 0 };
    let b_w: i32 = if edges.data[row_c + x - 1] == 255 { 1 } else { 0 };
    let b_e: i32 = if edges.data[row_c + x + 1] == 255 { 1 } else { 0 };
    let b_sw: i32 = if edges.data[row_s + x - 1] == 255 { 1 } else { 0 };
    let b_s: i32 = if edges.data[row_s + x] == 255 { 1 } else { 0 };
    let b_se: i32 = if edges.data[row_s + x + 1] == 255 { 1 } else { 0 };
    let gx: i32 = -b_nw + b_ne - 2 * b_w + 2 * b_e - b_sw + b_se;
    let gy: i32 = -b_nw - 2 * b_n - b_ne + b_sw + 2 * b_s + b_se;
    proof {
        assert(gx as int == spec_gx(edges.data@, w as int, x as int, y as int));
        assert(gy as int == spec_gy(edges.data@, w as int, x as int, y as int));
    }
    if gx != 0 || gy != 0 {
        (atan2_scaled(gy, gx), true)
    } else {
        (0, false)
    }
}

/// Applies the 3x3 Sobel kernels to a binary edge mask and returns, per
/// pixel, the gradient angle (a signed half-turn fraction at scale ten
/// thousand) and whether the gradient is valid. Border pixels and pixels
/// with zero response are invalid and get angle zero.
pub fn sobel_filter(edges: &GrayBuffer) -> (r: (Vec<i32>, Vec<bool>))
    requires
        edges.wf(),
    ensures
        r.0@.len() == edges.width * edges.height,
        r.1@.len() == edges.width * edges.height,
        r.0@ == spec_sobel_angles_seq(edges.data@, edges.width as int, edges.height as int),
        r.1@ == spec_sobel_valid_seq(edges.data@, edges.width as int, edges.height as int),
{
    let w = edges.width;
    let h = edges.height;
    proof {
        lemma_dim_product_bound(w as int, h as int);
    }
    let count: usize = w * h;
    let ghost ta = spec_sobel_angles_seq(edges.data@, w as int, h as int);
    let ghost tv = spec_sobel_valid_seq(edges.data@, w as int, h as int);
    let mut angles: Vec<i32> = Vec::new();
    let mut valid: Vec<bool> = Vec::new();
    let mut p: usize = 0;
    while p < count
        invariant
            p <= count,
            count == w * h,
            w * h <= MAX_DIM * MAX_DIM,
            edges.wf(),
            w == edges.width,
            h == edges.height,
            angles@.len() == p,
            valid@.len() == p,
            ta == spec_sobel_angles_seq(edges.data@, w as int, h as int),
            tv == spec_sobel_valid_seq(edges.data@, w as int, h as int),
            forall|q: int| 0 <= q < p ==> angles@[q] == ta[q] && valid@[q] == tv[q],
        decreases count - p,
    {
        proof {
            assert(w >= 1) by (nonlinear_arith)
                requires
                    (w as int) * (h as int) > p as int,
                    p as int >= 0,
                    w as int >= 0,
            ;
            vstd::arithmetic::div_mod::lemma_mod_bound(p as int, w as int);
            vstd::arithmetic::div_mod::lemma_fundamental_div_mod(p as int, w as int);
        }
        let x: usize = p % w;
        let y: usize = p / w;
        proof {
            assert(y < h) by (nonlinear_arith)
                requires
                    p as int == (w as int) * (y as int) + (x as int),
                    0 <= (x as int) && (x as int) < w as int,
                    (p as int) < (w as int) * (h as int),
                    0 <= y as int,
            ;
        }
        if x >= 1 && x + 1 < w && y >= 1 && y + 1 < h {
            let px = sobel_px(edges, x, y);
            angles.push(px.0);
            valid.push(px.1);
        } else {
            angles.push(0);
            valid.push(false);
        }
        p = p + 1;
    }
    proof {
        assert(angles@ =~= ta);
        assert(valid@ =~= tv);
    }
    (angles, valid)
}

} // verus!

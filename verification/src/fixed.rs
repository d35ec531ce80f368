//! Fixed-point numeric kernels used by the filters.
//!
//! Real-valued formulas are evaluated in integer arithmetic at fixed scales:
//! `exp(-z)` and Gaussian weights at a scale of one billion (`SCALE9`),
//! standard deviations in thousandths of a pixel, and arc tangents as
//! fractions of a half turn at a scale of ten thousand. Every function here
//! is deterministic integer arithmetic, so its contract pins the result
//! exactly.

use vstd::prelude::*;

verus! {

/// Scale of the exponential fixed-point values: one billion.
pub const SCALE9: u64 = 1_000_000_000;

/// `exp(-1) * SCALE9`, rounded to nearest.
pub const EXP_NEG1_9: u64 = 367_879_441;

/// `sqrt(2 * pi) * 1_000_000`, rounded to nearest.
pub const SQRT_TWO_PI_6: u64 = 2_506_628;

/// Ten to the fifteenth, the product of `SCALE9` and the squared
/// thousandths scale of standard deviations.
pub const POW15: u64 = 1_000_000_000_000_000;

/// Number of Taylor terms summed for `exp` on a fractional argument.
pub const EXP_TERMS: u64 = 12;

/// Term `k` of the Taylor series of `exp(f / SCALE9)`, at scale `SCALE9`,
/// with the truncating divisions applied in evaluation order.
pub open spec fn spec_exp_term(f: int, k: nat) -> int
    decreases k,
{
    if k == 0 {
        SCALE9 as int
    } else {
        spec_exp_term(f, (k - 1) as nat) * f / (SCALE9 as int) / (k as int)
    }
}

/// Sum of the Taylor terms `0 ..= k`.
pub open spec fn spec_exp_partial(f: int, k: nat) -> int
    decreases k,
{
    if k == 0 {
        spec_exp_term(f, 0)
    } else {
        spec_exp_partial(f, (k - 1) as nat) + spec_exp_term(f, k)
    }
}

/// `exp(f / SCALE9) * SCALE9` for `0 <= f < SCALE9`, by truncated Taylor series.
pub open spec fn spec_exp_pos(f: int) -> int {
    spec_exp_partial(f, EXP_TERMS as nat)
}

/// `e` multiplied `n` times by `exp(-1)`, at scale `SCALE9`.
pub open spec fn spec_decay(e: int, n: nat) -> int
    decreases n,
{
    if n == 0 {
        e
    } else {
        spec_decay(e, (n - 1) as nat) * (EXP_NEG1_9 as int) / (SCALE9 as int)
    }
}

/// `exp(-z9 / SCALE9) * SCALE9`: split the argument into integer and
/// fractional parts, take the reciprocal of the series on the fraction, and
/// decay once per integer step. Arguments of thirty or more underflow to zero.
pub open spec fn spec_exp_neg9(z9: int) -> int {
    if z9 >= 30 * (SCALE9 as int) {
        0
    } else {
        spec_decay(
            (SCALE9 as int) * (SCALE9 as int) / spec_exp_pos(z9 % (SCALE9 as int)),
            (z9 / (SCALE9 as int)) as nat,
        )
    }
}

pub proof fn lemma_exp_term_bounds(f: int, k: nat)
    requires
        0 <= f < SCALE9,
    ensures
        0 <= spec_exp_term(f, k) <= SCALE9,
    decreases k,
{
    if k == 0 {
    } else {
        lemma_exp_term_bounds(f, (k - 1) as nat);
        let prev = spec_exp_term(f, (k - 1) as nat);
        let s = SCALE9 as int;
        assert(0 <= prev * f <= prev * s) by (nonlinear_arith)
            requires
                0 <= prev,
                0 <= f <= s,
        ;
        assert(prev * f / s <= prev * s / s) by {
            vstd::arithmetic::div_mod::lemma_div_is_ordered(prev * f, prev * s, s);
        }
        assert(prev * s / s == prev) by (nonlinear_arith)
            requires
                s == SCALE9 as int,
        ;
        assert(0 <= prev * f / s <= prev);
        assert(0 <= prev * f / s / (k as int) <= prev * f / s) by {
            vstd::arithmetic::div_mod::lemma_div_is_ordered_by_denominator(
                prev * f / s,
                1,
                k as int,
            );
        }
    }
}

pub proof fn lemma_exp_partial_bounds(f: int, k: nat)
    requires
        0 <= f < SCALE9,
    ensures
        SCALE9 <= spec_exp_partial(f, k) <= SCALE9 * (k + 1),
    decreases k,
{
    if k == 0 {
    } else {
        lemma_exp_partial_bounds(f, (k - 1) as nat);
        lemma_exp_term_bounds(f, k);
    }
}

pub proof fn lemma_decay_bounds(e: int, n: nat)
    requires
        0 <= e <= SCALE9,
    ensures
        0 <= spec_decay(e, n) <= e,
    decreases n,
{
    if n == 0 {
    } else {
        lemma_decay_bounds(e, (n - 1) as nat);
        let prev = spec_decay(e, (n - 1) as nat);
        let s = SCALE9 as int;
        let c = EXP_NEG1_9 as int;
        assert(0 <= prev * c <= prev * s) by (nonlinear_arith)
            requires
                0 <= prev,
                0 <= c <= s,
        ;
        assert(prev * c / s <= prev * s / s) by {
            vstd::arithmetic::div_mod::lemma_div_is_ordered(prev * c, prev * s, s);
        }
        assert(prev * s / s == prev) by (nonlinear_arith)
            requires
                s == SCALE9 as int,
        ;
    }
}

pub proof fn lemma_exp_neg9_bounds(z9: int)
    requires
        z9 >= 0,
    ensures
        0 <= spec_exp_neg9(z9) <= SCALE9,
{
    let s = SCALE9 as int;
    if z9 >= 30 * s {
    } else {
        let f = z9 % s;
        vstd::arithmetic::div_mod::lemma_mod_bound(z9, s);
        vstd::arithmetic::div_mod::lemma_div_pos_is_pos(z9, s);
        lemma_exp_partial_bounds(f, EXP_TERMS as nat);
        let p = spec_exp_pos(f);
        assert(s * s / p <= s * s / s) by {
            vstd::arithmetic::div_mod::lemma_div_is_ordered_by_denominator(s * s, s, p);
        }
        assert(s * s / s == s) by (nonlinear_arith)
            requires
                s == SCALE9 as int,
        ;
        vstd::arithmetic::div_mod::lemma_div_pos_is_pos(s * s, p);
        lemma_decay_bounds(s * s / p, (z9 / s) as nat);
    }
}

/// With a zero fractional part every Taylor term after the first is zero.
pub proof fn lemma_exp_term_zero(k: nat)
    requires
        k >= 1,
    ensures
        spec_exp_term(0, k) == 0,
    decreases k,
{
    if k > 1 {
        lemma_exp_term_zero((k - 1) as nat);
    }
}

pub proof fn lemma_exp_partial_zero(k: nat)
    ensures
        spec_exp_partial(0, k) == SCALE9,
    decreases k,
{
    if k > 0 {
        lemma_exp_partial_zero((k - 1) as nat);
        lemma_exp_term_zero(k);
    }
}

/// `exp(-0) == 1` exactly, at scale.
pub proof fn lemma_exp_neg9_zero()
    ensures
        spec_exp_neg9(0) == SCALE9,
{
    let s = SCALE9 as int;
    lemma_exp_partial_zero(EXP_TERMS as nat);
    assert(s * s / s == s) by (nonlinear_arith)
        requires
            s == SCALE9 as int,
    ;
}

/// Taylor series of `exp(f / SCALE9)` at scale `SCALE9`, truncating at each step.
pub fn exp_pos9(f: u64) -> (r: u64)
    requires
        f < SCALE9,
    ensures
        r == spec_exp_pos(f as int),
        SCALE9 <= r <= SCALE9 * (EXP_TERMS + 1),
{
    let mut term: u64 = SCALE9;
    let mut acc: u64 = SCALE9;
    let mut k: u64 = 1;
    proof {
        lemma_exp_partial_bounds(f as int, 0);
    }
    while k <= EXP_TERMS
        invariant
            1 <= k <= EXP_TERMS + 1,
            f < SCALE9,
            term == spec_exp_term(f as int, (k - 1) as nat),
            acc == spec_exp_partial(f as int, (k - 1) as nat),
            0 <= term <= SCALE9,
            SCALE9 <= acc <= SCALE9 * k,
        decreases EXP_TERMS + 1 - k,
    {
        proof {
            lemma_exp_term_bounds(f as int, (k - 1) as nat);
            lemma_exp_term_bounds(f as int, k as nat);
            lemma_exp_partial_bounds(f as int, k as nat);
            assert(term * f <= SCALE9 * SCALE9) by (nonlinear_arith)
                requires
                    0 <= term <= SCALE9,
                    0 <= f <= SCALE9,
            ;
        }
        term = term * f / SCALE9 / k;
        acc = acc + term;
        k = k + 1;
    }
    acc
}

/// `exp(-z9 / SCALE9)` at scale `SCALE9`.
pub fn exp_neg9(z9: u64) -> (r: u64)
    ensures
        r == spec_exp_neg9(z9 as int),
        r <= SCALE9,
{
    proof {
        lemma_exp_neg9_bounds(z9 as int);
    }
    if z9 >= 30 * SCALE9 {
        return 0;
    }
    let n: u64 = z9 / SCALE9;
    let f: u64 = z9 % SCALE9;
    let ep: u64 = exp_pos9(f);
    let mut e: u64 = (SCALE9 * SCALE9) / ep;
    proof {
        let s = SCALE9 as int;
        assert(e == spec_decay(s * s / spec_exp_pos(f as int), 0));
        assert(s * s / (ep as int) <= s * s / s) by {
            vstd::arithmetic::div_mod::lemma_div_is_ordered_by_denominator(s * s, s, ep as int);
        }
        assert(s * s / s == s) by (nonlinear_arith)
            requires
                s == SCALE9 as int,
        ;
    }
    let mut i: u64 = 0;
    while i < n
        invariant
            i <= n,
            e == spec_decay((SCALE9 as int) * (SCALE9 as int) / spec_exp_pos(f as int), i as nat),
            e <= SCALE9,
        decreases n - i,
    {
        proof {
            let s = SCALE9 as int;
            let c = EXP_NEG1_9 as int;
            assert(e * c <= e * s && e * c <= SCALE9 * SCALE9) by (nonlinear_arith)
                requires
                    0 <= e <= s,
                    0 <= c <= s,
                    s == SCALE9 as int,
            ;
            assert(e * c / s <= e * s / s) by {
                vstd::arithmetic::div_mod::lemma_div_is_ordered(e * c, e * s, s);
            }
            assert(e * s / s == e) by (nonlinear_arith)
                requires
                    s == SCALE9 as int,
            ;
        }
        e = e * EXP_NEG1_9 / SCALE9;
        i = i + 1;
    }
    e
}

/// The exponential argument `pos^2 / (2 sigma^2)` at scale `SCALE9`, with
/// `sigma` in thousandths.
pub open spec fn spec_gauss_z9(sigma_milli: int, pos: int) -> int {
    pos * pos * (POW15 as int) / (2 * sigma_milli * sigma_milli)
}

/// The relative Gaussian kernel weight `exp(-off^2 / (2 sigma^2))` at scale
/// `SCALE9`. The normalizing prefactor is left out: blur normalization
/// divides it away.
pub open spec fn spec_kernel_weight(sigma_milli: int, off: int) -> int {
    spec_exp_neg9(spec_gauss_z9(sigma_milli, off))
}

/// Relative kernel weight at an offset of `off` pixels from the center.
pub fn kernel_weight(sigma_milli: u32, off: u32) -> (w: u64)
    requires
        1 <= sigma_milli <= 25000,
        off <= 10,
    ensures
        w == spec_kernel_weight(sigma_milli as int, off as int),
        w <= SCALE9,
{
    let o: u64 = off as u64;
    let s: u64 = sigma_milli as u64;
    proof {
        assert(o * o <= 100 && (o * o) * POW15 <= 100 * POW15) by (nonlinear_arith)
            requires
                o <= 10,
        ;
        assert(1 <= s * s <= 25000 * 25000 && 2 * (s * s) <= 2 * (25000 * 25000))
            by (nonlinear_arith)
            requires
                1 <= s <= 25000,
        ;
    }
    let z9: u64 = o * o * POW15 / (2 * (s * s));
    proof {
        assert(spec_gauss_z9(sigma_milli as int, off as int) == z9) by (nonlinear_arith)
            requires
                o == off as int,
                s == sigma_milli as int,
                1 <= s,
                z9 == o * o * (POW15 as int) / (2 * (s * s)),
        ;
    }
    exp_neg9(z9)
}

/// The kernel weight at the center tap is exactly one, at scale.
pub proof fn lemma_kernel_weight_center(sigma_milli: int)
    requires
        sigma_milli >= 1,
    ensures
        spec_kernel_weight(sigma_milli, 0) == SCALE9,
{
    assert(2 * sigma_milli * sigma_milli > 0) by (nonlinear_arith)
        requires
            sigma_milli >= 1,
    ;
    assert(spec_gauss_z9(sigma_milli, 0) == 0) by {
        vstd::arithmetic::div_mod::lemma_basic_div(0, 2 * sigma_milli * sigma_milli);
    }
    lemma_exp_neg9_zero();
}

/// The kernel weight depends on the offset only through its square, so it is
/// symmetric around the center tap.
pub proof fn lemma_kernel_weight_symmetric(sigma_milli: int, off: int)
    ensures
        spec_kernel_weight(sigma_milli, off) == spec_kernel_weight(sigma_milli, -off),
{
    assert((-off) * (-off) == off * off) by (nonlinear_arith);
}

/// `atan(a / b)` as a fraction of a half turn at scale ten thousand, for the
/// first octant: `0 <= a <= b <= 4`, `b >= 1`. The reachable ratios are few,
/// so each is listed with its rounded arc tangent.
pub open spec fn spec_atan_octant(a: int, b: int) -> int {
    if a == 0 {
        0
    } else if b == 4 * a {
        780
    } else if b == 3 * a {
        1024
    } else if b == 2 * a {
        1476
    } else if 2 * b == 3 * a {
        1872
    } else if 3 * b == 4 * a {
        2048
    } else {
        2500
    }
}

/// `atan2(gy, gx)` as a signed fraction of a half turn at scale ten
/// thousand, for the small integer gradients of the Sobel stage. The sign
/// and quadrant conventions follow the mathematical `atan2`: the result lies
/// in `-10000 ..= 10000`, with `+10000` (not `-10000`) on the negative real
/// axis.
pub open spec fn spec_atan2_scaled(gy: int, gx: int) -> int {
    let a = if gy < 0 { -gy } else { gy };
    let b = if gx < 0 { -gx } else { gx };
    let t0 = if a <= b { spec_atan_octant(a, b) } else { 5000 - spec_atan_octant(b, a) };
    if gx > 0 {
        if gy >= 0 { t0 } else { -t0 }
    } else if gx < 0 {
        if gy >= 0 { 10000 - t0 } else { t0 - 10000 }
    } else {
        if gy > 0 { 5000 } else if gy < 0 { -5000 } else { 0 }
    }
}

fn atan_octant(a: i32, b: i32) -> (t: i32)
    requires
        0 <= a <= b,
        1 <= b <= 4,
    ensures
        t == spec_atan_octant(a as int, b as int),
        0 <= t <= 2500,
{
    if a == 0 {
        0
    } else if b == 4 * a {
        780
    } else if b == 3 * a {
        1024
    } else if b == 2 * a {
        1476
    } else if 2 * b == 3 * a {
        1872
    } else if 3 * b == 4 * a {
        2048
    } else {
        2500
    }
}

/// `atan2` over the small integer Sobel gradients, as a signed fraction of a
/// half turn at scale ten thousand.
pub fn atan2_scaled(gy: i32, gx: i32) -> (t: i32)
    requires
        -4 <= gy <= 4,
        -4 <= gx <= 4,
    ensures
        t == spec_atan2_scaled(gy as int, gx as int),
        -10000 <= t <= 10000,
{
    if gx == 0 {
        if gy > 0 {
            return 5000;
        } else if gy < 0 {
            return -5000;
        } else {
            return 0;
        }
    }
    let a: i32 = if gy < 0 { -gy } else { gy };
    let b: i32 = if gx < 0 { -gx } else { gx };
    let t0: i32 = if a <= b { atan_octant(a, b) } else { 5000 - atan_octant(b, a) };
    if gx > 0 {
        if gy >= 0 { t0 } else { -t0 }
    } else {
        if gy >= 0 { 10000 - t0 } else { t0 - 10000 }
    }
}

} // verus!

//! Fixed-point scalars.
//!
//! Every geometric quantity in this crate is an `i128` holding a real
//! number scaled by [`FP_ONE`]: the value `v` stands for `v / 10000.0`.
//! Multiplication and division of such scalars truncate toward zero,
//! which mirrors a narrowing numeric conversion.

use vstd::prelude::*;

verus! {

/// Sub-units per 1.0 of a fixed-point scalar.
pub const FP_ONE: i128 = 10_000;

/// Largest magnitude allowed for the product of two scalars handed to
/// [`mul_fx`]; keeps every intermediate far from `i128` overflow.
pub const PROD_LIM: i128 = 10_000_000_000_000_000_000_000_000_000_000_000_000;

/// Magnitude bound for scene inputs: mesh vertices, object offsets,
/// camera and light positions (1e4 in real units).
pub const LIM_IN: i128 = 100_000_000;

/// Magnitude bound for view and projection matrix entries.
pub const LIM_MAT: i128 = 1_000_000_000;

/// Magnitude bound for entries of a view-times-model matrix.
pub const LIM_VM: i128 = 40_000_000_000_000;

/// Magnitude bound for entries of a projection-times-view-times-model matrix.
pub const LIM_PVM: i128 = 16_000_000_000_000_000_000;

/// Magnitude bound for camera-space and clip-space vector components.
pub const LIM_CLIP: i128 = 640_000_000_000_000_000_000_000;

/// Normalized device coordinates beyond this magnitude are treated like a
/// non-finite projection result: the vertex is marked not visible.
pub const LIM_NDC: i128 = 1_000_000_000_000;

/// Magnitude bound for screen-space coordinates produced by the
/// transform stage.
pub const LIM_SCR: i128 = 200_000_000_000_000_000;

/// Largest image width or height the pipeline accepts.
pub const LIM_DIM: usize = 100_000;

/// Magnitude of an integer.
pub open spec fn iabs(a: int) -> int {
    if a < 0 {
        -a
    } else {
        a
    }
}

/// Quotient of `a` by `b`, truncated toward zero (the rounding of a
/// hardware integer division).
pub open spec fn divt(a: int, b: int) -> int {
    if (a < 0) == (b < 0) {
        iabs(a) / iabs(b)
    } else {
        -(iabs(a) / iabs(b))
    }
}

/// Product of two fixed-point scalars: `a * b` rescaled by [`FP_ONE`],
/// truncated toward zero.
pub open spec fn smul(a: int, b: int) -> int {
    divt(a * b, FP_ONE as int)
}

/// `v` clamped into `[lo, hi]`.
pub open spec fn sclamp(v: int, lo: int, hi: int) -> int {
    if v < lo {
        lo
    } else if v > hi {
        hi
    } else {
        v
    }
}

/// `r` is the integer square root of `n`.
pub open spec fn is_sqrt(n: int, r: int) -> bool {
    0 <= r && r * r <= n && n < (r + 1) * (r + 1)
}

/// The integer square root of `n` (meaningful for `n >= 0`).
pub open spec fn sqrtn(n: int) -> int {
    choose|r: int| is_sqrt(n, r)
}

/// Any witness of [`is_sqrt`] is the value [`sqrtn`] denotes.
pub proof fn lemma_sqrt_unique(n: int, r: int)
    requires
        is_sqrt(n, r),
    ensures
        r == sqrtn(n),
{
    assert(is_sqrt(n, sqrtn(n)));
    let q = sqrtn(n);
    assert(r == q) by (nonlinear_arith)
        requires
            0 <= r && r * r <= n && n < (r + 1) * (r + 1),
            0 <= q && q * q <= n && n < (q + 1) * (q + 1),
    ;
}

/// Truncated division stays within the magnitude of the dividend bound,
/// shrunk by the divisor.
pub proof fn lemma_divt_bound(a: int, b: int, m: int)
    requires
        1 <= b,
        iabs(a) <= m,
    ensures
        iabs(divt(a, b)) <= m / b,
        iabs(divt(a, b)) <= m,
{
    vstd::arithmetic::div_mod::lemma_div_is_ordered(iabs(a), m, b);
    vstd::arithmetic::div_mod::lemma_div_is_ordered_by_denominator(m, 1, b);
}

/// A magnitude bound for [`smul`] from bounds on its operands.
pub proof fn lemma_smul_bound(a: int, b: int, ma: int, mb: int)
    requires
        iabs(a) <= ma,
        iabs(b) <= mb,
    ensures
        iabs(a * b) <= ma * mb,
        iabs(smul(a, b)) <= (ma * mb) / (FP_ONE as int),
        iabs(smul(a, b)) <= ma * mb,
{
    assert(iabs(a * b) <= ma * mb) by (nonlinear_arith)
        requires
            iabs(a) <= ma,
            iabs(b) <= mb,
    ;
    lemma_divt_bound(a * b, FP_ONE as int, ma * mb);
}

/// Multiplying by the fixed-point unit is the identity; multiplying by
/// zero yields zero.
pub proof fn lemma_smul_unit(x: int)
    requires
        iabs(x) < PROD_LIM,
    ensures
        smul(FP_ONE as int, x) == x,
        smul(x, FP_ONE as int) == x,
        smul(0, x) == 0,
        smul(x, 0) == 0,
{
    vstd::arithmetic::div_mod::lemma_div_multiples_vanish(iabs(x), FP_ONE as int);
    assert(iabs(FP_ONE * x) == FP_ONE * iabs(x)) by (nonlinear_arith);
    assert(iabs(x * FP_ONE) == iabs(x) * FP_ONE) by (nonlinear_arith);
    assert((iabs(x) * FP_ONE) / (FP_ONE as int) == iabs(x)) by {
        vstd::arithmetic::div_mod::lemma_div_by_multiple(iabs(x), FP_ONE as int);
    }
}

/// Quotient of `a` by `b` truncated toward zero.
pub fn div_fx(a: i128, b: i128) -> (r: i128)
    requires
        b != 0,
        -PROD_LIM <= a <= PROD_LIM,
        -PROD_LIM <= b <= PROD_LIM,
    ensures
        r == divt(a as int, b as int),
        iabs(r as int) <= iabs(a as int),
{
    let an: u128 = if a >= 0 {
        a as u128
    } else {
        (-a) as u128
    };
    let bn: u128 = if b >= 0 {
        b as u128
    } else {
        (-b) as u128
    };
    let q: u128 = an / bn;
    proof {
        assert(an as int == iabs(a as int));
        assert(bn as int == iabs(b as int));
        vstd::arithmetic::div_mod::lemma_div_is_ordered_by_denominator(an as int, 1, bn as int);
        assert(q as int <= an as int);
    }
    if (a >= 0) == (b >= 0) {
        q as i128
    } else {
        -(q as i128)
    }
}

/// Fixed-point product of two scalars.
pub fn mul_fx(a: i128, b: i128) -> (r: i128)
    requires
        -PROD_LIM <= a * b <= PROD_LIM,
    ensures
        r == smul(a as int, b as int),
{
    let p: i128 = a * b;
    div_fx(p, FP_ONE)
}

/// `v` clamped into `[lo, hi]`.
pub fn clamp_fx(v: i128, lo: i128, hi: i128) -> (r: i128)
    requires
        lo <= hi,
    ensures
        r == sclamp(v as int, lo as int, hi as int),
{
    if v < lo {
        lo
    } else if v > hi {
        hi
    } else {
        v
    }
}

/// The smaller of two scalars.
pub fn min_fx(a: i128, b: i128) -> (r: i128)
    ensures
        r == vstd::math::min(a as int, b as int),
{
    if a < b {
        a
    } else {
        b
    }
}

/// The larger of two scalars.
pub fn max_fx(a: i128, b: i128) -> (r: i128)
    ensures
        r == vstd::math::max(a as int, b as int),
{
    if a > b {
        a
    } else {
        b
    }
}

/// Integer square root by bisection.
pub fn isqrt(n: u128) -> (r: u128)
    ensures
        is_sqrt(n as int, r as int),
        r as int == sqrtn(n as int),
{
    let mut lo: u128 = 0;
    let mut hi: u128 = 0x1_0000_0000_0000_0000;
    proof {
        assert(n < 0x1_0000_0000_0000_0000 * 0x1_0000_0000_0000_0000);
    }
    while lo + 1 < hi
        invariant
            lo < hi,
            hi <= 0x1_0000_0000_0000_0000,
            lo * lo <= n,
            n < hi * hi,
        decreases hi - lo,
    {
        let mid: u128 = lo + (hi - lo) / 2;
        proof {
            assert(lo < mid < hi);
            assert(mid * mid <= 0xffff_ffff_ffff_ffffu128 * 0xffff_ffff_ffff_ffffu128)
                by (nonlinear_arith)
                requires
                    mid <= 0xffff_ffff_ffff_ffffu128,
            ;
        }
        if mid * mid <= n {
            lo = mid;
        } else {
            hi = mid;
        }
    }
    proof {
        lemma_sqrt_unique(n as int, lo as int);
    }
    lo
}

} // verus!

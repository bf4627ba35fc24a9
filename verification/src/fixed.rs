//! Signed 16.16 fixed-point scalars.
//!
//! A real number `v` is represented by the `i64` closest to `v * 65536`.
//! Addition, subtraction, negation and multiplication saturate symmetrically
//! at `±i64::MAX`, so negation is always exact; multiplication and division
//! round toward zero, as hardware division does.  Every operation is specified
//! exactly over mathematical integers.

use vstd::prelude::*;

verus! {

/// Raw representation of the real number 1.0.
pub const FP_ONE: i64 = 65536;

/// Symmetric saturation bound: results are clamped to `[-FP_MAX, FP_MAX]`.
pub const FP_MAX: i64 = i64::MAX;

/// Clamp a mathematical integer into the symmetric representable range.
pub open spec fn sat(x: int) -> int {
    if x > FP_MAX as int {
        FP_MAX as int
    } else if x < -(FP_MAX as int) {
        -(FP_MAX as int)
    } else {
        x
    }
}

pub open spec fn abs_i(x: int) -> int {
    if x >= 0 {
        x
    } else {
        -x
    }
}

/// Division rounding toward zero, the behaviour of machine division.
pub open spec fn tdiv(a: int, b: int) -> int
    recommends
        b != 0,
{
    if (a >= 0) == (b >= 0) {
        abs_i(a) / abs_i(b)
    } else {
        -(abs_i(a) / abs_i(b))
    }
}

pub open spec fn fadd_s(a: int, b: int) -> int {
    sat(a + b)
}

pub open spec fn fsub_s(a: int, b: int) -> int {
    sat(a - b)
}

pub open spec fn fneg_s(a: int) -> int {
    sat(-a)
}

pub open spec fn fmul_s(a: int, b: int) -> int {
    sat(tdiv(a * b, FP_ONE as int))
}

pub open spec fn fdiv_s(a: int, b: int) -> int
    recommends
        b != 0,
{
    sat(tdiv(a * (FP_ONE as int), b))
}

/// `r` is the integer square root of `x`.
pub open spec fn is_isqrt(x: int, r: int) -> bool {
    0 <= r && r * r <= x && x < (r + 1) * (r + 1)
}

pub open spec fn sqrt_i(x: int) -> int {
    choose|r: int| is_isqrt(x, r)
}

/// Fixed-point square root: the representation of `sqrt(v)` is the integer
/// square root of `raw(v) * FP_ONE`.
pub open spec fn fsqrt_s(x: int) -> int {
    sqrt_i(x * (FP_ONE as int))
}

pub proof fn lemma_isqrt_unique(x: int, r1: int, r2: int)
    by (nonlinear_arith)
    requires
        is_isqrt(x, r1),
        is_isqrt(x, r2),
    ensures
        r1 == r2,
{
}

/// Every nonnegative integer has an integer square root, so `sqrt_i` is
/// well defined.
pub proof fn lemma_isqrt_exists(x: int)
    requires
        x >= 0,
    ensures
        is_isqrt(x, sqrt_i(x)),
    decreases x,
{
    if x == 0 {
        assert(is_isqrt(0, 0));
    } else {
        lemma_isqrt_exists(x - 1);
        let r = sqrt_i(x - 1);
        if (r + 1) * (r + 1) <= x {
            assert(x - 1 < (r + 1) * (r + 1));
            assert(x == (r + 1) * (r + 1));
            assert((r + 1) * (r + 1) < (r + 2) * (r + 2)) by (nonlinear_arith)
                requires
                    r >= 0,
            ;
            assert(is_isqrt(x, r + 1));
        } else {
            assert(is_isqrt(x, r));
        }
    }
}

pub proof fn lemma_sqrt_i(x: int, r: int)
    requires
        is_isqrt(x, r),
    ensures
        sqrt_i(x) == r,
{
    assert(is_isqrt(x, sqrt_i(x)));
    lemma_isqrt_unique(x, sqrt_i(x), r);
}

/// Truncating division is monotone in the numerator for a positive divisor.
pub proof fn lemma_tdiv_mono(a1: int, a2: int, b: int)
    requires
        a1 <= a2,
        b > 0,
    ensures
        tdiv(a1, b) <= tdiv(a2, b),
{
    if a1 >= 0 {
        vstd::arithmetic::div_mod::lemma_div_is_ordered(a1, a2, b);
    } else if a2 >= 0 {
        vstd::arithmetic::div_mod::lemma_div_pos_is_pos(-a1, b);
        vstd::arithmetic::div_mod::lemma_div_pos_is_pos(a2, b);
    } else {
        vstd::arithmetic::div_mod::lemma_div_is_ordered(-a2, -a1, b);
    }
}

/// Truncating division commutes with negating the numerator.
pub proof fn lemma_tdiv_neg(a: int, b: int)
    requires
        b > 0,
    ensures
        tdiv(-a, b) == -tdiv(a, b),
{
}

/// Saturation is symmetric, so negation is exact on every representable
/// value.
pub proof fn lemma_sat_neg(x: int)
    ensures
        sat(-x) == -sat(x),
{
}

/// Multiplying by an exactly-negated operand negates the product.
pub proof fn lemma_fmul_neg(a: int, b: int)
    requires
        -(FP_MAX as int) <= b <= FP_MAX as int,
    ensures
        fneg_s(b) == -b,
        fmul_s(a, fneg_s(b)) == fneg_s(fmul_s(a, b)),
{
    assert(a * (-b) == -(a * b)) by (nonlinear_arith);
    lemma_tdiv_neg(a * b, FP_ONE as int);
    lemma_sat_neg(tdiv(a * b, FP_ONE as int));
}

/// One is the multiplicative identity on every representable value.
pub proof fn lemma_fmul_one(c: int)
    requires
        -(FP_MAX as int) <= c <= FP_MAX as int,
    ensures
        fmul_s(c, FP_ONE as int) == c,
{
    assert((c >= 0) == (c * 65536 >= 0)) by (nonlinear_arith);
    assert(abs_i(c * 65536) == abs_i(c) * 65536) by (nonlinear_arith);
    assert(abs_i(c) * 65536 / 65536 == abs_i(c)) by (nonlinear_arith);
}

/// Truncated Maclaurin series for the sine of `x` radians, in Horner form:
/// `x (1 - x^2/6 (1 - x^2/20 (1 - x^2/42 (1 - x^2/72))))`.
pub open spec fn sin_s(x: int) -> int {
    let t = fmul_s(x, x);
    let p4 = fsub_s(FP_ONE as int, tdiv(t, 72));
    let p3 = fsub_s(FP_ONE as int, tdiv(fmul_s(t, p4), 42));
    let p2 = fsub_s(FP_ONE as int, tdiv(fmul_s(t, p3), 20));
    let p1 = fsub_s(FP_ONE as int, tdiv(fmul_s(t, p2), 6));
    fmul_s(x, p1)
}

/// Truncated Maclaurin series for the cosine of `x` radians, in Horner form:
/// `1 - x^2/2 (1 - x^2/12 (1 - x^2/30 (1 - x^2/56)))`.
pub open spec fn cos_s(x: int) -> int {
    let t = fmul_s(x, x);
    let q4 = fsub_s(FP_ONE as int, tdiv(t, 56));
    let q3 = fsub_s(FP_ONE as int, tdiv(fmul_s(t, q4), 30));
    let q2 = fsub_s(FP_ONE as int, tdiv(fmul_s(t, q3), 12));
    let q1 = fsub_s(FP_ONE as int, tdiv(fmul_s(t, q2), 2));
    q1
}

/// Divide a raw value by a plain positive integer (not a fixed-point value).
pub fn idiv(a: i64, k: i64) -> (r: i64)
    requires
        k > 0,
    ensures
        r as int == tdiv(a as int, k as int),
{
    let q: i128 = tdiv128(a as i128, k as i128);
    proof {
        assert(abs_i(a as int) / abs_i(k as int) <= abs_i(a as int)) by {
            vstd::arithmetic::div_mod::lemma_div_is_ordered_by_denominator(
                abs_i(a as int),
                1,
                abs_i(k as int),
            );
        }
    }
    q as i64
}

pub fn fp_sin(x: i64) -> (r: i64)
    ensures
        r as int == sin_s(x as int),
{
    let t: i64 = fmul(x, x);
    let p4: i64 = fsub(FP_ONE, idiv(t, 72));
    let p3: i64 = fsub(FP_ONE, idiv(fmul(t, p4), 42));
    let p2: i64 = fsub(FP_ONE, idiv(fmul(t, p3), 20));
    let p1: i64 = fsub(FP_ONE, idiv(fmul(t, p2), 6));
    fmul(x, p1)
}

pub fn fp_cos(x: i64) -> (r: i64)
    ensures
        r as int == cos_s(x as int),
{
    let t: i64 = fmul(x, x);
    let q4: i64 = fsub(FP_ONE, idiv(t, 56));
    let q3: i64 = fsub(FP_ONE, idiv(fmul(t, q4), 30));
    let q2: i64 = fsub(FP_ONE, idiv(fmul(t, q3), 12));
    let q1: i64 = fsub(FP_ONE, idiv(fmul(t, q2), 2));
    q1
}

/// A product of two fractions in `[0, 1]` stays in `[0, 1]`.
pub proof fn lemma_fmul_unit_range(a: int, b: int)
    by (nonlinear_arith)
    requires
        0 <= a <= FP_ONE as int,
        0 <= b <= FP_ONE as int,
    ensures
        0 <= fmul_s(a, b) <= b,
        fmul_s(a, b) <= FP_ONE as int,
        fmul_s(a, b) == fmul_s(b, a),
{
}

/// Clamp an `i128` intermediate into the symmetric `i64` range.
fn sat64(x: i128) -> (r: i64)
    ensures
        r as int == sat(x as int),
{
    if x > FP_MAX as i128 {
        FP_MAX
    } else if x < -(FP_MAX as i128) {
        -FP_MAX
    } else {
        x as i64
    }
}

/// Truncating division on `i128`, computed through unsigned magnitudes.
fn tdiv128(a: i128, b: i128) -> (r: i128)
    requires
        b != 0,
        a != i128::MIN,
        b != i128::MIN,
    ensures
        r as int == tdiv(a as int, b as int),
{
    let an: u128 = if a >= 0 {
        a as u128
    } else {
        (-a) as u128
    };
    let bn: u128 = if b >= 0 {
        b as u128
    } else {
        (-b) as u128
    };
    let q: u128 = an / bn;
    proof {
        assert(an as int == abs_i(a as int));
        assert(bn as int == abs_i(b as int));
        assert(q as int == abs_i(a as int) / abs_i(b as int));
        assert(q <= an) by {
            vstd::arithmetic::div_mod::lemma_div_is_ordered_by_denominator(
                an as int,
                1,
                bn as int,
            );
        }
    }
    if (a >= 0) == (b >= 0) {
        q as i128
    } else {
        -(q as i128)
    }
}

pub fn fadd(a: i64, b: i64) -> (r: i64)
    ensures
        r as int == fadd_s(a as int, b as int),
{
    sat64(a as i128 + b as i128)
}

pub fn fsub(a: i64, b: i64) -> (r: i64)
    ensures
        r as int == fsub_s(a as int, b as int),
{
    sat64(a as i128 - b as i128)
}

pub fn fneg(a: i64) -> (r: i64)
    ensures
        r as int == fneg_s(a as int),
{
    sat64(-(a as i128))
}

pub fn fmul(a: i64, b: i64) -> (r: i64)
    ensures
        r as int == fmul_s(a as int, b as int),
{
    proof {
        assert((a as int) * (b as int) <= i128::MAX as int && (a as int) * (b as int)
            > i128::MIN as int) by (nonlinear_arith)
            requires
                -0x8000000000000000 <= (a as int) <= 0x8000000000000000,
                -0x8000000000000000 <= (b as int) <= 0x8000000000000000,
                i128::MAX as int == 0x7fffffffffffffffffffffffffffffff,
                i128::MIN as int == -0x80000000000000000000000000000000,
        ;
    }
    let p: i128 = (a as i128) * (b as i128);
    let q: i128 = tdiv128(p, FP_ONE as i128);
    sat64(q)
}

pub fn fdiv(a: i64, b: i64) -> (r: i64)
    requires
        b != 0,
    ensures
        r as int == fdiv_s(a as int, b as int),
{
    proof {
        assert(-0x80000000000000000000 <= (a as int) * 65536 <= 0x80000000000000000000)
            by (nonlinear_arith)
            requires
                -0x8000000000000000 <= (a as int) <= 0x8000000000000000,
        ;
    }
    let p: i128 = (a as i128) * 65536i128;
    let q: i128 = tdiv128(p, b as i128);
    sat64(q)
}

/// Fixed-point square root by binary search on the integer square root of
/// `x * FP_ONE`.
pub fn fsqrt(x: i64) -> (r: i64)
    requires
        x >= 0,
    ensures
        r as int == fsqrt_s(x as int),
        is_isqrt((x as int) * (FP_ONE as int), r as int),
{
    proof {
        assert((x as int) * (FP_ONE as int) <= 0x7fffffffffffffff * 65536) by (nonlinear_arith)
            requires
                0 <= (x as int) <= 0x7fffffffffffffff,
                (FP_ONE as int) == 65536,
        ;
    }
    let n: u128 = (x as u128) * (FP_ONE as u128);
    let mut lo: u128 = 0;
    let mut hi: u128 = 0x10000000000u128;
    proof {
        assert(n < hi * hi) by (nonlinear_arith)
            requires
                n as int == (x as int) * (FP_ONE as int),
                0 <= (x as int) < 0x8000000000000000,
                (FP_ONE as int) == 65536,
                (hi as int) == 0x10000000000,
        ;
    }
    while lo + 1 < hi
        invariant
            n as int == (x as int) * (FP_ONE as int),
            lo < hi,
            hi <= 0x10000000000u128,
            (lo as int) * (lo as int) <= n as int,
            (n as int) < (hi as int) * (hi as int),
        decreases hi - lo,
    {
        let mid: u128 = lo + (hi - lo) / 2;
        proof {
            assert((mid as int) * (mid as int) <= 0x10000000000 * 0x10000000000) by (nonlinear_arith)
                requires
                    0 <= (mid as int) <= 0x10000000000,
            ;
        }
        if mid * mid <= n {
            lo = mid;
        } else {
            hi = mid;
        }
    }
    proof {
        assert(hi == lo + 1);
        assert(is_isqrt(n as int, lo as int));
        lemma_sqrt_i(n as int, lo as int);
        assert((lo as int) * (lo as int) <= n as int);
        assert(lo < 0x10000000000u128);
    }
    lo as i64
}

} // verus!

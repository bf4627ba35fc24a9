//! Angle conversion and the random samplers.
//!
//! The only trusted surface here is the interface to the `rand` crate: a
//! declaration of its thread-local generator and one wrapper that draws a
//! uniform fixed-point fraction in `[0, 1)`.  Everything built on top of a
//! sample is verified for every value the sample may take.

use vstd::prelude::*;
use crate::fixed::{
    fadd, fadd_s, fdiv, fdiv_s, fmul, fmul_s, fneg, fneg_s, fsub, fsub_s, lemma_isqrt_exists,
    FP_ONE,
};
use crate::vec3::{v_len, v_len2, v_unit, Vec3};

verus! {

/// Stand-in for "no upper bound" on a parametric interval.
pub const INFINITY: i64 = i64::MAX;

/// The closest 16.16 fixed-point value to the circle constant.
pub const PI: i64 = 205887;

/// Raw representation of 180 degrees.
pub const DEG_180: i64 = 180 * 65536;

#[verifier::external_type_specification]
#[verifier::external_body]
pub struct ExThreadRng(rand::rngs::ThreadRng);

/// Relies on rand::thread_rng: a handle to the thread-local generator.
pub assume_specification[ rand::thread_rng ]() -> (r: rand::rngs::ThreadRng);

/// Relies on rand::Rng::gen_range: a uniform sample in the given, non-empty
/// range, here `0..FP_ONE`, which is a uniform fixed-point fraction in
/// `[0, 1)`.
#[verifier::external_body]
fn sample_fraction(rng: &mut rand::rngs::ThreadRng) -> (r: i64)
    ensures
        0 <= r < FP_ONE,
{
    rand::Rng::gen_range(rng, 0..FP_ONE)
}

pub open spec fn degrees_to_radians_s(degrees: int) -> int {
    fdiv_s(fmul_s(degrees, PI as int), DEG_180 as int)
}

/// `degrees * pi / 180`.
pub fn degrees_to_radians(degrees: i64) -> (r: i64)
    ensures
        r as int == degrees_to_radians_s(degrees as int),
{
    fdiv(fmul(degrees, PI), DEG_180)
}

/// A uniform fixed-point fraction in `[0, 1)`.
pub fn random_double() -> (r: i64)
    ensures
        0 <= r < FP_ONE,
{
    let mut rng = rand::thread_rng();
    sample_fraction(&mut rng)
}

/// `min + |max - min| * u` for a fraction `u` in `[0, 1)`.
pub open spec fn mix_s(min: int, max: int, u: int) -> int {
    let range = fsub_s(max, min);
    let width = if range >= 0 {
        range
    } else {
        fneg_s(range)
    };
    fadd_s(min, fmul_s(width, u))
}

/// A mixed value stays between its bounds when they are ordered fractions.
pub proof fn lemma_mix_range(min: int, max: int, u: int)
    requires
        0 <= min <= max <= FP_ONE as int,
        0 <= u < FP_ONE as int,
    ensures
        min <= mix_s(min, max, u) <= max,
{
    let w = fsub_s(max, min);
    crate::fixed::lemma_fmul_unit_range(u, w);
}

pub fn random_between(min: i64, max: i64) -> (r: i64)
    ensures
        exists|u: int| 0 <= u < FP_ONE && r as int == mix_s(min as int, max as int, u),
{
    let range: i64 = fsub(max, min);
    let width: i64 = if range >= 0 {
        range
    } else {
        fneg(range)
    };
    let u: i64 = random_double();
    let r: i64 = fadd(min, fmul(width, u));
    proof {
        assert(r as int == mix_s(min as int, max as int, u as int));
    }
    r
}

/// A vector strictly inside the unit sphere and away from the origin, by
/// rejection sampling on the cube `[-1, 1)^3` with a deterministic in-sphere
/// fallback after a bounded number of attempts.
pub fn random_in_unit_sphere() -> (p: Vec3)
    ensures
        0 < v_len2(p) < FP_ONE as int,
{
    let mut rng = rand::thread_rng();
    let mut attempt: u32 = 0;
    while attempt < 64
        invariant
            true,
        decreases 64 - attempt,
    {
        let px: i64 = fsub(fmul(sample_fraction(&mut rng), 131072), FP_ONE);
        let py: i64 = fsub(fmul(sample_fraction(&mut rng), 131072), FP_ONE);
        let pz: i64 = fsub(fmul(sample_fraction(&mut rng), 131072), FP_ONE);
        let p = Vec3 { x: px, y: py, z: pz };
        let ls: i64 = p.length_squared();
        // also reject points so close to the origin that normalizing them
        // would lose most of the representation's precision
        if 6554 <= ls && ls < FP_ONE {
            return p;
        }
        attempt = attempt + 1;
    }
    let p = Vec3 { x: 32768, y: 0, z: 0 };
    proof {
        assert((p.x as int) * (p.x as int) == 1073741824) by (nonlinear_arith)
            requires
                p.x == 32768,
        ;
        assert((p.y as int) * (p.y as int) == 0) by (nonlinear_arith)
            requires
                p.y == 0,
        ;
        assert((p.z as int) * (p.z as int) == 0) by (nonlinear_arith)
            requires
                p.z == 0,
        ;
        assert(1073741824int / 65536int == 16384) by (nonlinear_arith);
        assert(v_len2(p) == 16384);
    }
    p
}

/// `v_len` is at least one whenever the squared length is positive, so such a
/// vector can be normalized.
pub proof fn lemma_len_pos(a: Vec3)
    requires
        v_len2(a) > 0,
    ensures
        v_len(a) >= 1,
{
    lemma_isqrt_exists(v_len2(a) * (FP_ONE as int));
    assert(v_len2(a) * (FP_ONE as int) >= FP_ONE as int) by (nonlinear_arith)
        requires
            v_len2(a) >= 1,
            (FP_ONE as int) == 65536,
    ;
    let r = crate::fixed::sqrt_i(v_len2(a) * (FP_ONE as int));
    if r == 0 {
        assert((r + 1) * (r + 1) == 1) by (nonlinear_arith)
            requires
                r == 0,
        ;
        assert(false);
    }
}

/// A unit-length direction: a rejection-sampled interior point, normalized.
pub fn random_unit_vector() -> (r: Vec3)
    ensures
        exists|p: Vec3| 0 < v_len2(p) < FP_ONE as int && r == v_unit(p),
{
    let p = random_in_unit_sphere();
    proof {
        lemma_len_pos(p);
    }
    let r = p.unit_vector();
    proof {
        assert(0 < v_len2(p) < FP_ONE as int && r == v_unit(p));
    }
    r
}

} // verus!

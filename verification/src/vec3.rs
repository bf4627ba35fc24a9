//! Three-component fixed-point vectors with value semantics.
//!
//! Every executable operation is specified exactly by a spec-level mirror
//! built from the scalar operations of [`crate::fixed`], so contracts further
//! up (rays, spheres, materials) can speak about vector arithmetic in closed
//! form.

use vstd::prelude::*;
use crate::fixed::{
    fadd, fadd_s, fdiv, fdiv_s, fmul, fmul_s, fneg, fneg_s, fsqrt, fsqrt_s, fsub, fsub_s, tdiv, FP_ONE,
};

verus! {

#[derive(Clone, Copy, Debug, PartialEq, Eq, Structural)]
pub struct Vec3 {
    pub x: i64,
    pub y: i64,
    pub z: i64,
}

pub open spec fn v_add(a: Vec3, b: Vec3) -> Vec3 {
    Vec3 {
        x: fadd_s(a.x as int, b.x as int) as i64,
        y: fadd_s(a.y as int, b.y as int) as i64,
        z: fadd_s(a.z as int, b.z as int) as i64,
    }
}

pub open spec fn v_sub(a: Vec3, b: Vec3) -> Vec3 {
    Vec3 {
        x: fsub_s(a.x as int, b.x as int) as i64,
        y: fsub_s(a.y as int, b.y as int) as i64,
        z: fsub_s(a.z as int, b.z as int) as i64,
    }
}

/// Componentwise (Hadamard) product, the attenuation product of colors.
pub open spec fn v_mul(a: Vec3, b: Vec3) -> Vec3 {
    Vec3 {
        x: fmul_s(a.x as int, b.x as int) as i64,
        y: fmul_s(a.y as int, b.y as int) as i64,
        z: fmul_s(a.z as int, b.z as int) as i64,
    }
}

pub open spec fn v_scale(a: Vec3, s: int) -> Vec3 {
    Vec3 {
        x: fmul_s(a.x as int, s) as i64,
        y: fmul_s(a.y as int, s) as i64,
        z: fmul_s(a.z as int, s) as i64,
    }
}

pub open spec fn v_div(a: Vec3, s: int) -> Vec3
    recommends
        s != 0,
{
    Vec3 {
        x: fdiv_s(a.x as int, s) as i64,
        y: fdiv_s(a.y as int, s) as i64,
        z: fdiv_s(a.z as int, s) as i64,
    }
}

pub open spec fn v_neg(a: Vec3) -> Vec3 {
    Vec3 {
        x: fneg_s(a.x as int) as i64,
        y: fneg_s(a.y as int) as i64,
        z: fneg_s(a.z as int) as i64,
    }
}

pub open spec fn v_dot(a: Vec3, b: Vec3) -> int {
    fadd_s(
        fadd_s(fmul_s(a.x as int, b.x as int), fmul_s(a.y as int, b.y as int)),
        fmul_s(a.z as int, b.z as int),
    )
}

pub open spec fn v_len2(a: Vec3) -> int {
    v_dot(a, a)
}

pub open spec fn v_len(a: Vec3) -> int {
    fsqrt_s(v_len2(a))
}

pub open spec fn v_unit(a: Vec3) -> Vec3
    recommends
        v_len(a) != 0,
{
    v_div(a, v_len(a))
}

pub open spec fn v_cross(a: Vec3, b: Vec3) -> Vec3 {
    Vec3 {
        x: fsub_s(fmul_s(a.y as int, b.z as int), fmul_s(a.z as int, b.y as int)) as i64,
        y: fsub_s(fmul_s(a.z as int, b.x as int), fmul_s(a.x as int, b.z as int)) as i64,
        z: fsub_s(fmul_s(a.x as int, b.y as int), fmul_s(a.y as int, b.x as int)) as i64,
    }
}

/// The fixed-point analogue of the "direction nearly cancels" test: every
/// component rounds to zero.
pub open spec fn v_near_zero(a: Vec3) -> bool {
    a.x == 0 && a.y == 0 && a.z == 0
}

impl Vec3 {
    pub open spec fn zero_spec() -> Vec3 {
        Vec3 { x: 0, y: 0, z: 0 }
    }

    pub fn new(x: i64, y: i64, z: i64) -> (r: Vec3)
        ensures
            r == (Vec3 { x, y, z }),
    {
        Vec3 { x, y, z }
    }

    pub fn zero() -> (r: Vec3)
        ensures
            r == Vec3::zero_spec(),
    {
        Vec3 { x: 0, y: 0, z: 0 }
    }

    pub fn add(self, other: Vec3) -> (r: Vec3)
        ensures
            r == v_add(self, other),
    {
        Vec3 { x: fadd(self.x, other.x), y: fadd(self.y, other.y), z: fadd(self.z, other.z) }
    }

    pub fn sub(self, other: Vec3) -> (r: Vec3)
        ensures
            r == v_sub(self, other),
    {
        Vec3 { x: fsub(self.x, other.x), y: fsub(self.y, other.y), z: fsub(self.z, other.z) }
    }

    pub fn mul(self, other: Vec3) -> (r: Vec3)
        ensures
            r == v_mul(self, other),
    {
        Vec3 { x: fmul(self.x, other.x), y: fmul(self.y, other.y), z: fmul(self.z, other.z) }
    }

    pub fn scale(self, s: i64) -> (r: Vec3)
        ensures
            r == v_scale(self, s as int),
    {
        Vec3 { x: fmul(self.x, s), y: fmul(self.y, s), z: fmul(self.z, s) }
    }

    pub fn div(self, s: i64) -> (r: Vec3)
        requires
            s != 0,
        ensures
            r == v_div(self, s as int),
    {
        Vec3 { x: fdiv(self.x, s), y: fdiv(self.y, s), z: fdiv(self.z, s) }
    }

    pub fn neg(self) -> (r: Vec3)
        ensures
            r == v_neg(self),
    {
        Vec3 { x: fneg(self.x), y: fneg(self.y), z: fneg(self.z) }
    }

    pub fn dot(self, other: Vec3) -> (r: i64)
        ensures
            r as int == v_dot(self, other),
    {
        fadd(fadd(fmul(self.x, other.x), fmul(self.y, other.y)), fmul(self.z, other.z))
    }

    pub fn length_squared(self) -> (r: i64)
        ensures
            r as int == v_len2(self),
            r >= 0,
    {
        let r = self.dot(self);
        proof {
            lemma_len2_nonneg(self);
        }
        r
    }

    pub fn length(self) -> (r: i64)
        ensures
            r as int == v_len(self),
            r >= 0,
    {
        let ls = self.length_squared();
        let r = fsqrt(ls);
        proof {
            crate::fixed::lemma_sqrt_i((ls as int) * (FP_ONE as int), r as int);
        }
        r
    }

    pub fn unit_vector(self) -> (r: Vec3)
        requires
            v_len(self) != 0,
        ensures
            r == v_unit(self),
    {
        let len = self.length();
        self.div(len)
    }

    pub fn cross(self, other: Vec3) -> (r: Vec3)
        ensures
            r == v_cross(self, other),
    {
        Vec3 {
            x: fsub(fmul(self.y, other.z), fmul(self.z, other.y)),
            y: fsub(fmul(self.z, other.x), fmul(self.x, other.z)),
            z: fsub(fmul(self.x, other.y), fmul(self.y, other.x)),
        }
    }

    pub fn near_zero(self) -> (r: bool)
        ensures
            r == v_near_zero(self),
    {
        self.x == 0 && self.y == 0 && self.z == 0
    }
}

/// A fixed-point square never represents a negative number, so a squared
/// length is nonnegative.
pub proof fn lemma_fmul_square_nonneg(a: int)
    ensures
        fmul_s(a, a) >= 0,
{
    assert(a * a >= 0) by (nonlinear_arith);
    assert(tdiv(a * a, FP_ONE as int) >= 0) by {
        vstd::arithmetic::div_mod::lemma_div_pos_is_pos(a * a, FP_ONE as int);
    }
}

pub proof fn lemma_len2_nonneg(a: Vec3)
    ensures
        v_len2(a) >= 0,
{
    lemma_fmul_square_nonneg(a.x as int);
    lemma_fmul_square_nonneg(a.y as int);
    lemma_fmul_square_nonneg(a.z as int);
}

} // verus!

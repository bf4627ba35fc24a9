//! A ray: an origin point plus a direction vector, evaluated at parametric
//! distances.  The direction need not be unit length.

use vstd::prelude::*;
use crate::vec3::{v_add, v_scale, Vec3};

verus! {

#[derive(Clone, Copy, Debug, PartialEq, Eq, Structural)]
pub struct Ray {
    pub origin: Vec3,
    pub direction: Vec3,
}

/// `origin + direction * t`, in fixed-point arithmetic.
pub open spec fn ray_at_s(r: Ray, t: int) -> Vec3 {
    v_add(r.origin, v_scale(r.direction, t))
}

impl Ray {
    pub fn at(self, t: i64) -> (p: Vec3)
        ensures
            p == ray_at_s(self, t as int),
    {
        self.origin.add(self.direction.scale(t))
    }
}

} // verus!

//! Surfaces, hit records and materials.
//!
//! The sphere intersection routine and the three scattering rules are the
//! numerical heart of the tracer; each is specified exactly by a spec-level
//! mirror of its fixed-point arithmetic, and the orientation and scattering
//! laws are proved below the definitions.

use vstd::prelude::*;
use crate::fixed::{
    fadd, fadd_s, fdiv, fdiv_s, fmul, fmul_s, fneg, fneg_s, fsqrt, fsqrt_s, fsub, fsub_s,
    FP_ONE,
};
use crate::ray::{ray_at_s, Ray};
use crate::vec3::{
    v_add, v_div, v_dot, v_len2, v_mul, v_near_zero, v_neg, v_scale, v_sub,
    v_unit, Vec3,
};
use crate::utility::{lemma_len_pos, random_in_unit_sphere, random_unit_vector, random_double};

verus! {

/// Why a scene object or camera was rejected at construction time.
#[derive(Clone, Copy, Debug, PartialEq, Eq, Structural)]
pub enum ConfigError {
    NonPositiveRadius,
    NonPositiveFieldOfView,
    FieldOfViewTooWide,
    NonPositiveAspectRatio,
    NegativeAperture,
    NonPositiveFocusDistance,
    DegenerateBasis,
}

#[derive(Clone, Copy, Debug, PartialEq, Eq, Structural)]
pub struct Lambert {
    pub albedo: Vec3,
}

#[derive(Clone, Copy, Debug, PartialEq, Eq, Structural)]
pub struct Metal {
    pub albedo: Vec3,
    pub roughness: i64,
}

#[derive(Clone, Copy, Debug, PartialEq, Eq, Structural)]
pub struct Dielectric {
    pub ior: i64,
}

/// The closed set of scattering behaviours, dispatched by tag.
#[derive(Clone, Copy, Debug, PartialEq, Eq, Structural)]
pub enum Material {
    Lambert(Lambert),
    Metal(Metal),
    Dielectric(Dielectric),
}

/// The outcome of testing one ray against one surface over a parametric
/// window.  A record is a short-lived value consumed by the driver within a
/// single intersection/scatter step.
#[derive(Clone, Copy, Debug)]
pub struct HitRecord {
    pub hit_anything: bool,
    pub p: Vec3,
    pub normal: Vec3,
    pub t: i64,
    pub front_face: bool,
    pub material: Option<Material>,
}

pub open spec fn no_hit_s() -> HitRecord {
    HitRecord {
        hit_anything: false,
        p: Vec3 { x: 0, y: 0, z: 0 },
        normal: Vec3 { x: 0, y: 0, z: 0 },
        t: 0,
        front_face: true,
        material: None,
    }
}

/// A ray strikes the outside of a surface when its direction opposes the
/// outward normal.
pub open spec fn is_front_face(r: Ray, outward_normal: Vec3) -> bool {
    v_dot(r.direction, outward_normal) < 0
}

/// The stored normal always opposes the incoming ray: the outward normal,
/// flipped when the ray arrives from inside.
pub open spec fn oriented_normal_s(r: Ray, outward_normal: Vec3) -> Vec3 {
    if is_front_face(r, outward_normal) {
        outward_normal
    } else {
        v_neg(outward_normal)
    }
}

impl HitRecord {
    pub fn no_hit() -> (rec: HitRecord)
        ensures
            rec == no_hit_s(),
    {
        HitRecord {
            hit_anything: false,
            p: Vec3 { x: 0, y: 0, z: 0 },
            normal: Vec3 { x: 0, y: 0, z: 0 },
            t: 0,
            front_face: true,
            material: None,
        }
    }

    pub fn set_face_normal(&mut self, r: Ray, outward_normal: Vec3)
        ensures
            final(self).front_face == is_front_face(r, outward_normal),
            final(self).normal == oriented_normal_s(r, outward_normal),
            final(self).hit_anything == old(self).hit_anything,
            final(self).p == old(self).p,
            final(self).t == old(self).t,
            final(self).material == old(self).material,
    {
        self.front_face = r.direction.dot(outward_normal) < 0;
        self.normal = if self.front_face {
            outward_normal
        } else {
            outward_normal.neg()
        };
    }
}

/// Anything that can be tested for intersection with a ray over a parametric
/// window.  `hit_spec` pins the exact record an implementation returns.
pub trait Hit {
    spec fn wf(&self) -> bool;

    spec fn hit_spec(&self, r: Ray, t_min: int, t_max: int) -> HitRecord;

    fn hit(&self, r: Ray, t_min: i64, t_max: i64) -> (rec: HitRecord)
        requires
            self.wf(),
            t_min <= t_max,
        ensures
            rec == self.hit_spec(r, t_min as int, t_max as int),
    ;
}

#[derive(Clone, Copy, Debug)]
pub struct Sphere {
    pub center: Vec3,
    pub radius: i64,
    pub material: Material,
}

pub open spec fn sphere_oc(s: Sphere, r: Ray) -> Vec3 {
    v_sub(r.origin, s.center)
}

pub open spec fn sphere_half_b(s: Sphere, r: Ray) -> int {
    v_dot(sphere_oc(s, r), r.direction)
}

pub open spec fn sphere_c(s: Sphere, r: Ray) -> int {
    fsub_s(v_len2(sphere_oc(s, r)), fmul_s(s.radius as int, s.radius as int))
}

/// The half-b form discriminant of `|O + tD - C|^2 = radius^2`.
pub open spec fn sphere_disc(s: Sphere, r: Ray) -> int {
    fsub_s(
        fmul_s(sphere_half_b(s, r), sphere_half_b(s, r)),
        fmul_s(v_len2(r.direction), sphere_c(s, r)),
    )
}

pub open spec fn sphere_sqrtd(s: Sphere, r: Ray) -> int {
    fsqrt_s(sphere_disc(s, r))
}

/// The smaller quadratic root, nearest along the ray.
pub open spec fn sphere_root1(s: Sphere, r: Ray) -> int {
    fdiv_s(fsub_s(fneg_s(sphere_half_b(s, r)), sphere_sqrtd(s, r)), v_len2(r.direction))
}

/// The larger quadratic root.
pub open spec fn sphere_root2(s: Sphere, r: Ray) -> int {
    fdiv_s(fadd_s(fneg_s(sphere_half_b(s, r)), sphere_sqrtd(s, r)), v_len2(r.direction))
}

/// The record a sphere produces once a root `t` has been accepted.
pub open spec fn sphere_rec(s: Sphere, r: Ray, t: int) -> HitRecord
    recommends
        s.radius != 0,
        -(i64::MAX as int) <= t <= i64::MAX as int,
{
    let p = ray_at_s(r, t);
    let outward = v_div(v_sub(p, s.center), s.radius as int);
    HitRecord {
        hit_anything: true,
        p: p,
        normal: oriented_normal_s(r, outward),
        t: t as i64,
        front_face: is_front_face(r, outward),
        material: Some(s.material),
    }
}

/// Exactly what `Sphere::hit` returns: no hit when the direction is
/// degenerate or the discriminant is negative, otherwise the nearest root
/// inside `[t_min, t_max]`, trying the farther root when the nearer one
/// falls outside the window.
pub open spec fn sphere_hit_s(s: Sphere, r: Ray, t_min: int, t_max: int) -> HitRecord {
    if v_len2(r.direction) == 0 || sphere_disc(s, r) < 0 {
        no_hit_s()
    } else {
        let r1 = sphere_root1(s, r);
        let r2 = sphere_root2(s, r);
        if t_min <= r1 && r1 <= t_max {
            sphere_rec(s, r, r1)
        } else if t_min <= r2 && r2 <= t_max {
            sphere_rec(s, r, r2)
        } else {
            no_hit_s()
        }
    }
}

impl Sphere {
    /// Fail fast on a degenerate sphere: a non-positive radius is a
    /// configuration error, rejected before any rendering work begins.
    pub fn new(center: Vec3, radius: i64, material: Material) -> (res: Result<Sphere, ConfigError>)
        ensures
            radius > 0 ==> res == Ok::<Sphere, ConfigError>(Sphere { center, radius, material }),
            radius <= 0 ==> res == Err::<Sphere, ConfigError>(ConfigError::NonPositiveRadius),
    {
        if radius <= 0 {
            Err(ConfigError::NonPositiveRadius)
        } else {
            Ok(Sphere { center, radius, material })
        }
    }
}

impl Hit for Sphere {
    open spec fn wf(&self) -> bool {
        self.radius > 0
    }

    open spec fn hit_spec(&self, r: Ray, t_min: int, t_max: int) -> HitRecord {
        sphere_hit_s(*self, r, t_min, t_max)
    }

    fn hit(&self, r: Ray, t_min: i64, t_max: i64) -> (rec: HitRecord) {
        let oc: Vec3 = r.origin.sub(self.center);
        let a: i64 = r.direction.length_squared();
        let half_b: i64 = oc.dot(r.direction);
        let c: i64 = fsub(oc.length_squared(), fmul(self.radius, self.radius));

        let discriminant: i64 = fsub(fmul(half_b, half_b), fmul(a, c));
        if a == 0 || discriminant < 0 {
            return HitRecord::no_hit();
        }
        let sqrtd: i64 = fsqrt(discriminant);

        // find the nearest root that lies in the acceptable range
        let mut root: i64 = fdiv(fsub(fneg(half_b), sqrtd), a);
        if root < t_min || t_max < root {
            root = fdiv(fadd(fneg(half_b), sqrtd), a);
            if root < t_min || t_max < root {
                return HitRecord::no_hit();
            }
        }

        let p: Vec3 = r.at(root);
        let outward_normal: Vec3 = p.sub(self.center).div(self.radius);
        let mut rec = HitRecord {
            t: root,
            p: p,
            normal: outward_normal,
            hit_anything: true,
            front_face: true,
            material: Some(self.material),
        };
        rec.set_face_normal(r, outward_normal);
        rec
    }
}

// materials

/// A color is a per-channel reflectance in `[0, 1]`.
pub open spec fn color_wf(c: Vec3) -> bool {
    &&& 0 <= c.x <= FP_ONE as int
    &&& 0 <= c.y <= FP_ONE as int
    &&& 0 <= c.z <= FP_ONE as int
}

pub open spec fn white_s() -> Vec3 {
    Vec3 { x: FP_ONE, y: FP_ONE, z: FP_ONE }
}

pub open spec fn min_s(a: int, b: int) -> int {
    if a < b {
        a
    } else {
        b
    }
}

pub open spec fn max0_s(a: int) -> int {
    if a >= 0 {
        a
    } else {
        0
    }
}

/// Mirror reflection of `v` about the normal `n`: `v - 2 (v . n) n`.
pub open spec fn reflect_s(v: Vec3, n: Vec3) -> Vec3 {
    v_sub(v, v_scale(v_scale(n, v_dot(v, n)), 131072))
}

pub fn reflect(v: Vec3, n: Vec3) -> (r: Vec3)
    ensures
        r == reflect_s(v, n),
{
    v.sub(n.scale(v.dot(n)).scale(131072))
}

/// Snell refraction of the unit direction `uv` at normal `n`, split into the
/// components perpendicular and parallel to `n`; `ratio` is the quotient of
/// refraction indices.
pub open spec fn refract_s(uv: Vec3, n: Vec3, ratio: int) -> Vec3 {
    let cos = min_s(v_dot(v_neg(uv), n), FP_ONE as int);
    let perp = v_scale(v_add(uv, v_scale(n, cos)), ratio);
    let k = max0_s(fsub_s(FP_ONE as int, v_len2(perp)));
    v_add(perp, v_scale(n, fneg_s(fsqrt_s(k))))
}

pub fn refract(uv: Vec3, n: Vec3, ratio: i64) -> (r: Vec3)
    ensures
        r == refract_s(uv, n, ratio as int),
{
    let d: i64 = uv.neg().dot(n);
    let cos: i64 = if d < FP_ONE {
        d
    } else {
        FP_ONE
    };
    let perp: Vec3 = uv.add(n.scale(cos)).scale(ratio);
    let k0: i64 = fsub(FP_ONE, perp.length_squared());
    let k: i64 = if k0 >= 0 {
        k0
    } else {
        0
    };
    perp.add(n.scale(fneg(fsqrt(k))))
}

/// Fifth power, the sharpening term of the Schlick approximation.
pub open spec fn pow5_s(x: int) -> int {
    fmul_s(fmul_s(fmul_s(fmul_s(x, x), x), x), x)
}

/// Schlick's estimate of Fresnel reflectance:
/// `r0 + (1 - r0) (1 - cos)^5` with `r0 = ((1 - ior) / (1 + ior))^2`.
pub open spec fn schlick_s(cos: int, ior: int) -> int
    recommends
        ior > 0,
{
    let r0 = fdiv_s(fsub_s(FP_ONE as int, ior), fadd_s(FP_ONE as int, ior));
    let r0s = fmul_s(r0, r0);
    fadd_s(r0s, fmul_s(fsub_s(FP_ONE as int, r0s), pow5_s(fsub_s(FP_ONE as int, cos))))
}

/// How a material may answer a scatter query: does the ray continue, the
/// per-channel attenuation, and the outgoing ray.  `scatter_ok` pins the
/// answer up to the random samples drawn inside.
pub trait Scatter {
    spec fn wf(&self) -> bool;

    spec fn scatter_ok(&self, r_in: Ray, rec: HitRecord, out: (bool, Vec3, Ray)) -> bool;

    fn scatter(&self, r_in: Ray, rec: HitRecord) -> (out: (bool, Vec3, Ray))
        requires
            self.wf(),
            v_len2(r_in.direction) > 0,
        ensures
            self.scatter_ok(r_in, rec, out),
    ;
}

/// The diffuse bounce for a given unit sample `u`: the normal nudged by `u`,
/// falling back to the bare normal when the sum nearly cancels.
pub open spec fn lambert_out(albedo: Vec3, rec: HitRecord, u: Vec3) -> (bool, Vec3, Ray) {
    let d0 = v_add(rec.normal, u);
    let d = if v_near_zero(d0) {
        rec.normal
    } else {
        d0
    };
    (true, albedo, Ray { origin: rec.p, direction: d })
}

impl Scatter for Lambert {
    open spec fn wf(&self) -> bool {
        color_wf(self.albedo)
    }

    /// A diffuse surface always scatters; attenuation is the albedo.
    open spec fn scatter_ok(&self, r_in: Ray, rec: HitRecord, out: (bool, Vec3, Ray)) -> bool {
        &&& out.0 == true
        &&& out.1 == self.albedo
        &&& exists|p: Vec3|
            0 < v_len2(p) < FP_ONE as int && out == lambert_out(self.albedo, rec, v_unit(p))
    }

    fn scatter(&self, r_in: Ray, rec: HitRecord) -> (out: (bool, Vec3, Ray)) {
        let uvec: Vec3 = random_unit_vector();
        let mut scatter_direction: Vec3 = rec.normal.add(uvec);
        if scatter_direction.near_zero() {
            scatter_direction = rec.normal;
        }
        let out = (true, self.albedo, Ray { origin: rec.p, direction: scatter_direction });
        proof {
            let pw = choose|p: Vec3| 0 < v_len2(p) < FP_ONE as int && uvec == v_unit(p);
            assert(out == lambert_out(self.albedo, rec, v_unit(pw)));
        }
        out
    }
}

/// The metallic bounce for a given in-sphere sample `q`: the mirror
/// reflection of the unit incoming direction, fuzzed by `roughness * q`.
pub open spec fn metal_out(m: Metal, r_in: Ray, rec: HitRecord, q: Vec3) -> (bool, Vec3, Ray) {
    let reflected = reflect_s(v_unit(r_in.direction), rec.normal);
    let dir = v_add(reflected, v_scale(q, m.roughness as int));
    (v_dot(dir, rec.normal) > 0, m.albedo, Ray { origin: rec.p, direction: dir })
}

impl Scatter for Metal {
    open spec fn wf(&self) -> bool {
        color_wf(self.albedo) && self.roughness >= 0
    }

    /// A metal scatters exactly when the fuzzed reflection still points away
    /// from the surface; attenuation is the albedo.
    open spec fn scatter_ok(&self, r_in: Ray, rec: HitRecord, out: (bool, Vec3, Ray)) -> bool {
        &&& out.0 == (v_dot(out.2.direction, rec.normal) > 0)
        &&& out.1 == self.albedo
        &&& exists|q: Vec3| 0 < v_len2(q) < FP_ONE as int && out == metal_out(*self, r_in, rec, q)
    }

    fn scatter(&self, r_in: Ray, rec: HitRecord) -> (out: (bool, Vec3, Ray)) {
        proof {
            lemma_len_pos(r_in.direction);
        }
        let reflected: Vec3 = reflect(r_in.direction.unit_vector(), rec.normal);
        let q: Vec3 = random_in_unit_sphere();
        let scattered = Ray { origin: rec.p, direction: reflected.add(q.scale(self.roughness)) };
        let can_scatter: bool = scattered.direction.dot(rec.normal) > 0;
        let out = (can_scatter, self.albedo, scattered);
        proof {
            assert(out == metal_out(*self, r_in, rec, q));
        }
        out
    }
}

/// The refractive bounce for a given reflectance draw `u`: refract by
/// Snell's law unless total internal reflection or the Schlick draw forces a
/// mirror reflection.  A dielectric never absorbs: attenuation is white.
pub open spec fn dielectric_out(d: Dielectric, r_in: Ray, rec: HitRecord, u: int) -> (
    bool,
    Vec3,
    Ray,
) {
    let ratio = if rec.front_face {
        fdiv_s(FP_ONE as int, d.ior as int)
    } else {
        d.ior as int
    };
    let ud = v_unit(r_in.direction);
    let cos = min_s(v_dot(v_neg(ud), rec.normal), FP_ONE as int);
    let sin = fsqrt_s(max0_s(fsub_s(FP_ONE as int, fmul_s(cos, cos))));
    let cannot_refract = fmul_s(ratio, sin) > FP_ONE as int;
    let dir = if cannot_refract || schlick_s(cos, d.ior as int) > u {
        reflect_s(ud, rec.normal)
    } else {
        refract_s(ud, rec.normal, ratio)
    };
    (true, white_s(), Ray { origin: rec.p, direction: dir })
}

impl Scatter for Dielectric {
    open spec fn wf(&self) -> bool {
        self.ior > 0
    }

    /// A dielectric always continues and never absorbs; the outgoing
    /// direction is the Snell refraction or, under total internal reflection
    /// or an unlucky Schlick draw, the mirror reflection.
    open spec fn scatter_ok(&self, r_in: Ray, rec: HitRecord, out: (bool, Vec3, Ray)) -> bool {
        &&& out.0 == true
        &&& out.1 == white_s()
        &&& exists|u: int| 0 <= u < FP_ONE as int && out == dielectric_out(*self, r_in, rec, u)
    }

    fn scatter(&self, r_in: Ray, rec: HitRecord) -> (out: (bool, Vec3, Ray)) {
        proof {
            lemma_len_pos(r_in.direction);
        }
        let ratio: i64 = if rec.front_face {
            fdiv(FP_ONE, self.ior)
        } else {
            self.ior
        };
        let unit_direction: Vec3 = r_in.direction.unit_vector();
        let d: i64 = unit_direction.neg().dot(rec.normal);
        let cos_theta: i64 = if d < FP_ONE {
            d
        } else {
            FP_ONE
        };
        let k0: i64 = fsub(FP_ONE, fmul(cos_theta, cos_theta));
        let k: i64 = if k0 >= 0 {
            k0
        } else {
            0
        };
        let sin_theta: i64 = fsqrt(k);
        let cannot_refract: bool = fmul(ratio, sin_theta) > FP_ONE;
        let u: i64 = random_double();
        let r0: i64 = fdiv(fsub(FP_ONE, self.ior), fadd(FP_ONE, self.ior));
        let r0s: i64 = fmul(r0, r0);
        let x: i64 = fsub(FP_ONE, cos_theta);
        let x5: i64 = fmul(fmul(fmul(fmul(x, x), x), x), x);
        let reflectance: i64 = fadd(r0s, fmul(fsub(FP_ONE, r0s), x5));
        let direction: Vec3 = if cannot_refract || reflectance > u {
            reflect(unit_direction, rec.normal)
        } else {
            refract(unit_direction, rec.normal, ratio)
        };
        let out = (true, Vec3 { x: FP_ONE, y: FP_ONE, z: FP_ONE }, Ray {
            origin: rec.p,
            direction,
        });
        proof {
            assert(out == dielectric_out(*self, r_in, rec, u as int));
        }
        out
    }
}

// laws

/// The components a saturating operation can produce never include the one
/// unrepresentable negation, `i64::MIN`.
pub open spec fn v_sym(n: Vec3) -> bool {
    &&& -(i64::MAX as int) <= n.x as int
    &&& -(i64::MAX as int) <= n.y as int
    &&& -(i64::MAX as int) <= n.z as int
}

/// Negating one side of a dot product negates the dot product.
pub proof fn lemma_dot_neg(d: Vec3, n: Vec3)
    requires
        v_sym(n),
    ensures
        v_dot(d, v_neg(n)) == -v_dot(d, n),
{
    crate::fixed::lemma_fmul_neg(d.x as int, n.x as int);
    crate::fixed::lemma_fmul_neg(d.y as int, n.y as int);
    crate::fixed::lemma_fmul_neg(d.z as int, n.z as int);
    let px = fmul_s(d.x as int, n.x as int);
    let py = fmul_s(d.y as int, n.y as int);
    let pz = fmul_s(d.z as int, n.z as int);
    crate::fixed::lemma_sat_neg(px + py);
    crate::fixed::lemma_sat_neg(fadd_s(px, py) + pz);
}

/// The oriented normal opposes the incoming ray.
pub proof fn lemma_oriented_normal_opposes(r: Ray, outward: Vec3)
    requires
        v_sym(outward),
    ensures
        v_dot(r.direction, oriented_normal_s(r, outward)) <= 0,
{
    if !is_front_face(r, outward) {
        lemma_dot_neg(r.direction, outward);
    }
}

/// Front-face law: whenever a sphere reports a hit, the record's normal
/// never points along the incoming ray: `dot(direction, normal) <= 0`.
pub proof fn lemma_front_face(s: Sphere, r: Ray, t_min: int, t_max: int)
    ensures
        sphere_hit_s(s, r, t_min, t_max).hit_anything ==> v_dot(
            r.direction,
            sphere_hit_s(s, r, t_min, t_max).normal,
        ) <= 0,
{
    let rec = sphere_hit_s(s, r, t_min, t_max);
    if rec.hit_anything {
        let r1 = sphere_root1(s, r);
        let r2 = sphere_root2(s, r);
        let root = if t_min <= r1 && r1 <= t_max {
            r1
        } else {
            r2
        };
        let p = ray_at_s(r, root);
        let outward = v_div(v_sub(p, s.center), s.radius as int);
        assert(rec == sphere_rec(s, r, root));
        lemma_oriented_normal_opposes(r, outward);
    }
}

/// Multiplying by pure white changes nothing: a dielectric's attenuation is
/// the identity on every representable color.
pub proof fn lemma_v_mul_white(c: Vec3)
    requires
        v_sym(c),
    ensures
        v_mul(c, white_s()) == c,
{
    crate::fixed::lemma_fmul_one(c.x as int);
    crate::fixed::lemma_fmul_one(c.y as int);
    crate::fixed::lemma_fmul_one(c.z as int);
}

/// The componentwise product of two colors is a color: attenuation can only
/// dim a channel, never push it outside `[0, 1]`.
pub proof fn lemma_mul_color(a: Vec3, b: Vec3)
    requires
        color_wf(a),
        color_wf(b),
    ensures
        color_wf(v_mul(a, b)),
{
    crate::fixed::lemma_fmul_unit_range(a.x as int, b.x as int);
    crate::fixed::lemma_fmul_unit_range(a.y as int, b.y as int);
    crate::fixed::lemma_fmul_unit_range(a.z as int, b.z as int);
}

/// Every attenuation a well-formed material can hand out is a color: an
/// albedo in `[0, 1]` per channel, or pure white.  Together with
/// `lemma_mul_color` and the background bound, each bounce keeps radiance
/// channels inside `[0, 1]`.
pub proof fn lemma_scatter_attenuation_is_color(
    m: Material,
    r_in: Ray,
    rec: HitRecord,
    out: (bool, Vec3, Ray),
)
    requires
        m.wf(),
        m.scatter_ok(r_in, rec, out),
    ensures
        color_wf(out.1),
{
}

/// The nearer root never exceeds the farther root.
pub proof fn lemma_roots_ordered(s: Sphere, r: Ray)
    requires
        sphere_disc(s, r) >= 0,
        v_len2(r.direction) > 0,
    ensures
        sphere_root1(s, r) <= sphere_root2(s, r),
{
    let disc = sphere_disc(s, r);
    assert(disc * (FP_ONE as int) >= 0) by (nonlinear_arith)
        requires
            disc >= 0,
            (FP_ONE as int) == 65536,
    ;
    crate::fixed::lemma_isqrt_exists(disc * (FP_ONE as int));
    let sq = sphere_sqrtd(s, r);
    assert(sq >= 0);
    let hb = sphere_half_b(s, r);
    let n1 = fsub_s(fneg_s(hb), sq);
    let n2 = fadd_s(fneg_s(hb), sq);
    assert(n1 <= n2);
    let a = v_len2(r.direction);
    assert(n1 * (FP_ONE as int) <= n2 * (FP_ONE as int)) by (nonlinear_arith)
        requires
            n1 <= n2,
            (FP_ONE as int) == 65536,
    ;
    crate::fixed::lemma_tdiv_mono(n1 * (FP_ONE as int), n2 * (FP_ONE as int), a);
}

/// Dielectric round-trip law, at normal incidence: Snell refraction leaves
/// a direction that exactly opposes the unit surface normal unchanged, for
/// any index ratio; crossing into and back out of a slab of matched
/// material therefore restores the original direction, and the sine term is
/// zero at both crossings, so total internal reflection cannot occur.
pub proof fn lemma_dielectric_round_trip(n: Vec3, d: Vec3, ratio_enter: int, ratio_exit: int)
    requires
        v_sym(n),
        v_len2(n) >= FP_ONE as int,
        d == v_neg(n),
    ensures
        refract_s(d, n, ratio_enter) == d,
        refract_s(refract_s(d, n, ratio_enter), n, ratio_exit) == d,
{
    lemma_refract_normal_incidence(n, d, ratio_enter);
    lemma_refract_normal_incidence(n, d, ratio_exit);
}

/// One interface of the round trip.
pub proof fn lemma_refract_normal_incidence(n: Vec3, d: Vec3, ratio: int)
    requires
        v_sym(n),
        v_len2(n) >= FP_ONE as int,
        d == v_neg(n),
    ensures
        refract_s(d, n, ratio) == d,
{
    // -d == n, so the cosine caps at exactly one
    assert(v_neg(d) == n);
    let cos = min_s(v_dot(v_neg(d), n), FP_ONE as int);
    assert(cos == FP_ONE as int);
    // uv + cos * n cancels exactly, so the perpendicular component is zero
    crate::fixed::lemma_fmul_one(n.x as int);
    crate::fixed::lemma_fmul_one(n.y as int);
    crate::fixed::lemma_fmul_one(n.z as int);
    assert(v_scale(n, cos) == n);
    let zero = Vec3 { x: 0, y: 0, z: 0 };
    assert(v_add(d, v_scale(n, cos)) == zero);
    assert(0int / 65536int == 0) by (nonlinear_arith);
    assert(v_scale(zero, ratio) == zero);
    let perp = v_scale(v_add(d, v_scale(n, cos)), ratio);
    assert(perp == zero);
    assert(v_len2(perp) == 0);
    // sqrt(1 - 0) is exactly one, so the parallel component is -n
    let k = max0_s(fsub_s(FP_ONE as int, v_len2(perp)));
    assert(k == FP_ONE as int);
    assert(65536int * 65536int == 0x100000000) by (nonlinear_arith);
    assert(crate::fixed::is_isqrt(0x100000000, 65536)) by (nonlinear_arith);
    crate::fixed::lemma_sqrt_i(0x100000000, 65536);
    assert(fsqrt_s(k) == FP_ONE as int);
    crate::fixed::lemma_fmul_neg(n.x as int, FP_ONE as int);
    crate::fixed::lemma_fmul_neg(n.y as int, FP_ONE as int);
    crate::fixed::lemma_fmul_neg(n.z as int, FP_ONE as int);
    assert(v_scale(n, fneg_s(fsqrt_s(k))) == v_neg(n));
    assert(v_add(perp, v_scale(n, fneg_s(fsqrt_s(k)))) == v_neg(n));
}

impl Scatter for Material {
    open spec fn wf(&self) -> bool {
        match *self {
            Material::Lambert(m) => m.wf(),
            Material::Metal(m) => m.wf(),
            Material::Dielectric(m) => m.wf(),
        }
    }

    open spec fn scatter_ok(&self, r_in: Ray, rec: HitRecord, out: (bool, Vec3, Ray)) -> bool {
        match *self {
            Material::Lambert(m) => m.scatter_ok(r_in, rec, out),
            Material::Metal(m) => m.scatter_ok(r_in, rec, out),
            Material::Dielectric(m) => m.scatter_ok(r_in, rec, out),
        }
    }

    fn scatter(&self, r_in: Ray, rec: HitRecord) -> (out: (bool, Vec3, Ray)) {
        match self {
            Material::Lambert(m) => m.scatter(r_in, rec),
            Material::Metal(m) => m.scatter(r_in, rec),
            Material::Dielectric(m) => m.scatter(r_in, rec),
        }
    }
}

} // verus!

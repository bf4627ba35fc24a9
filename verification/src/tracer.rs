//! The recursive path-tracing driver.
//!
//! Each call consumes one unit of the bounce budget: at zero depth the ray
//! contributes no radiance; a miss returns the vertical background gradient;
//! a hit defers to the struck material's scatter rule and recurses on the
//! scattered ray, attenuating the result per channel.

use vstd::prelude::*;
use crate::fixed::{fadd, fmul, fmul_s, fsub, fadd_s, fsub_s, FP_ONE};
use crate::ray::Ray;
use crate::scene::{lemma_scene_fold_material, scene_hit_fold, Scene};
use crate::surface::{v_sym, white_s, Dielectric, HitRecord, Material, Scatter};
use crate::utility::{lemma_len_pos, INFINITY};
use crate::vec3::{v_add, v_len2, v_mul, v_scale, v_unit, Vec3};

verus! {

/// Shadow-acne bias: the least parametric distance a new ray may travel
/// before it can strike a surface, about a thousandth of a unit.
pub const T_BIAS: i64 = 66;

pub open spec fn black_s() -> Vec3 {
    Vec3 { x: 0, y: 0, z: 0 }
}

/// The sky-blue endpoint of the background gradient.
pub open spec fn sky_blue_s() -> Vec3 {
    Vec3 { x: 32768, y: 45875, z: 65536 }
}

/// The background gradient: blend white and sky-blue by the vertical
/// component of the unit direction, `t = (unit_y + 1) / 2`.
pub open spec fn background_s(r: Ray) -> Vec3
    recommends
        v_len2(r.direction) > 0,
{
    let ud = v_unit(r.direction);
    let t = fmul_s(32768, fadd_s(ud.y as int, FP_ONE as int));
    v_add(
        v_scale(white_s(), fsub_s(FP_ONE as int, t)),
        v_scale(sky_blue_s(), t),
    )
}

/// The struck material admits `out` as a scatter outcome.  Kept opaque so
/// that reasoning about the driver's transition rule does not unfold the
/// per-material scatter bodies; `lemma_scatter_allowed` introduces it.
#[verifier::opaque]
pub open spec fn scatter_allowed(m: Material, r: Ray, rec: HitRecord, out: (bool, Vec3, Ray)) -> bool {
    m.scatter_ok(r, rec, out)
}

pub proof fn lemma_scatter_allowed(m: Material, r: Ray, rec: HitRecord, out: (bool, Vec3, Ray))
    requires
        m.scatter_ok(r, rec, out),
    ensures
        scatter_allowed(m, r, rec, out),
{
    reveal(scatter_allowed);
}

/// The record the driver queries the scene for: the nearest hit beyond the
/// shadow-acne bias, with no upper bound.
pub open spec fn driver_hit(world: Scene, r: Ray) -> HitRecord {
    scene_hit_fold(world.surfaces@, r, T_BIAS as int, INFINITY as int)
}

/// Everything the driver may return for `r` with `depth` bounces left,
/// branch by branch of the transition rule: an exhausted budget or a
/// degenerate direction is black; a miss of the whole scene is exactly the
/// background gradient; a hit whose scatter does not continue is black; a
/// hit whose scatter continues yields a radiance of the scattered ray,
/// attenuated componentwise.  The scatter outcome itself is quantified,
/// constrained by the struck material's `scatter_ok`.  Every such color has
/// components inside the symmetric saturation range.
#[verifier::opaque]
pub open spec fn possible_radiance(r: Ray, world: Scene, depth: nat, color: Vec3) -> bool
    decreases depth,
{
    v_sym(color) && if depth == 0 || v_len2(r.direction) == 0 {
        color == black_s()
    } else if !driver_hit(world, r).hit_anything {
        color == background_s(r)
    } else if driver_hit(world, r).material is Some {
        exists|out: (bool, Vec3, Ray)|
            #[trigger] scatter_allowed(
                driver_hit(world, r).material->Some_0,
                r,
                driver_hit(world, r),
                out,
            ) && (out.0 ==> exists|c: Vec3|
                #![trigger v_mul(c, out.1)]
                possible_radiance(out.2, world, (depth - 1) as nat, c) && color == v_mul(
                    c,
                    out.1,
                )) && (!out.0 ==> color == black_s())
    } else {
        color == black_s()
    }
}

/// Introduction form of `possible_radiance` for a bounce that continues:
/// whatever radiance the scattered ray may carry, its componentwise product
/// with the attenuation is a radiance of the incoming ray.
#[verifier::rlimit(100)]
pub proof fn lemma_radiance_step_continue(
    r: Ray,
    world: Scene,
    depth: nat,
    m: Material,
    out: (bool, Vec3, Ray),
    c: Vec3,
)
    requires
        depth > 0,
        v_len2(r.direction) != 0,
        driver_hit(world, r).hit_anything,
        driver_hit(world, r).material == Some(m),
        scatter_allowed(m, r, driver_hit(world, r), out),
        out.0,
        possible_radiance(out.2, world, (depth - 1) as nat, c),
    ensures
        possible_radiance(r, world, depth, v_mul(c, out.1)),
{
    reveal_with_fuel(possible_radiance, 1);
    assert(scatter_allowed(driver_hit(world, r).material->Some_0, r, driver_hit(world, r), out));
    // mention the product of the witnesses, the shape the quantifier
    // triggers on
    assert(possible_radiance(out.2, world, (depth - 1) as nat, c) && v_mul(c, out.1) == v_mul(
        c,
        out.1,
    ));
}

/// Introduction form of `possible_radiance` for a bounce that is absorbed:
/// the incoming ray's radiance is black.
#[verifier::rlimit(100)]
pub proof fn lemma_radiance_step_absorbed(
    r: Ray,
    world: Scene,
    depth: nat,
    m: Material,
    out: (bool, Vec3, Ray),
)
    requires
        depth > 0,
        v_len2(r.direction) != 0,
        driver_hit(world, r).hit_anything,
        driver_hit(world, r).material == Some(m),
        scatter_allowed(m, r, driver_hit(world, r), out),
        !out.0,
    ensures
        possible_radiance(r, world, depth, black_s()),
{
    reveal_with_fuel(possible_radiance, 1);
    assert(scatter_allowed(driver_hit(world, r).material->Some_0, r, driver_hit(world, r), out)
        && !out.0);
}

/// Every color the driver can return is representable: no component is the
/// one unrepresentable negation.
pub proof fn lemma_radiance_sym(r: Ray, world: Scene, depth: nat, color: Vec3)
    requires
        possible_radiance(r, world, depth, color),
    ensures
        v_sym(color),
{
    reveal_with_fuel(possible_radiance, 1);
}

/// A dielectric bounce passes radiance through unattenuated: every outcome
/// it admits continues with pure white attenuation, and multiplying any
/// radiance of the scattered ray by that attenuation returns it unchanged.
pub proof fn lemma_dielectric_unattenuated(
    d: Dielectric,
    r: Ray,
    rec: HitRecord,
    out: (bool, Vec3, Ray),
    world: Scene,
    depth: nat,
    c: Vec3,
)
    requires
        Material::Dielectric(d).scatter_ok(r, rec, out),
        possible_radiance(out.2, world, depth, c),
    ensures
        out.0,
        out.1 == white_s(),
        v_mul(c, out.1) == c,
{
    lemma_radiance_sym(out.2, world, depth, c);
    crate::surface::lemma_v_mul_white(c);
}

/// The background gradient is a color — every channel within `[0, 1]` —
/// whenever the normalized direction's vertical component is itself within
/// `[-1, 1]`.
pub proof fn lemma_background_is_color(r: Ray)
    requires
        -(FP_ONE as int) <= v_unit(r.direction).y as int <= FP_ONE as int,
    ensures
        crate::surface::color_wf(background_s(r)),
{
    let uy = v_unit(r.direction).y as int;
    let blend = fadd_s(uy, FP_ONE as int);
    assert(0 <= blend <= 131072);
    let t = fmul_s(32768, blend);
    assert(0 <= t <= FP_ONE as int) by (nonlinear_arith)
        requires
            t == crate::fixed::fmul_s(32768, blend),
            0 <= blend <= 131072,
            (FP_ONE as int) == 65536,
    ;
    let k = fsub_s(FP_ONE as int, t);
    assert(0 <= k <= FP_ONE as int);
    crate::fixed::lemma_fmul_unit_range(FP_ONE as int, k);
    crate::fixed::lemma_fmul_one(k);
    crate::fixed::lemma_fmul_unit_range(FP_ONE as int, t);
    crate::fixed::lemma_fmul_one(t);
    crate::fixed::lemma_fmul_unit_range(32768, t);
    crate::fixed::lemma_fmul_unit_range(45875, t);
}

/// Radiance carried back along `r` with `depth` bounces remaining.
///
/// `possible_radiance` pins the whole transition rule; every random sample
/// drawn on the way is constrained by the struck material's `scatter_ok`.
/// The remaining clauses restate the three sample-free branches directly:
/// exhausted depth and degenerate directions yield black, and a miss of the
/// whole scene yields exactly the background gradient.
#[verifier::rlimit(50)]
pub fn ray_color(r: Ray, world: &Scene, depth: u32) -> (color: Vec3)
    requires
        world.wf(),
    ensures
        possible_radiance(r, *world, depth as nat, color),
        depth == 0 ==> color == black_s(),
        depth > 0 && v_len2(r.direction) == 0 ==> color == black_s(),
        (depth > 0 && v_len2(r.direction) > 0 && !scene_hit_fold(
            world.surfaces@,
            r,
            T_BIAS as int,
            INFINITY as int,
        ).hit_anything) ==> color == background_s(r),
    decreases depth,
{
    proof {
        reveal_with_fuel(possible_radiance, 1);
    }
    if depth == 0 {
        return Vec3 { x: 0, y: 0, z: 0 };
    }
    // a ray whose direction rounds to zero carries no radiance
    if r.direction.length_squared() == 0 {
        return Vec3 { x: 0, y: 0, z: 0 };
    }
    // the lower bound is the shadow-acne bias
    let rec: HitRecord = world.hit(r, T_BIAS, INFINITY);
    if rec.hit_anything {
        proof {
            lemma_scene_fold_material(world.surfaces@, r, T_BIAS as int, INFINITY as int);
        }
        match rec.material {
            Some(m) => {
                let scatter: (bool, Vec3, Ray) = m.scatter(r, rec);
                if scatter.0 {
                    let attenuation: Vec3 = scatter.1;
                    let scattered_ray: Ray = scatter.2;
                    let sub: Vec3 = ray_color(scattered_ray, world, depth - 1);
                    let color: Vec3 = sub.mul(attenuation);
                    proof {
                        lemma_scatter_allowed(m, r, rec, scatter);
                        lemma_radiance_step_continue(
                            r,
                            *world,
                            depth as nat,
                            m,
                            scatter,
                            sub,
                        );
                        assert(color == v_mul(sub, scatter.1));
                    }
                    return color;
                } else {
                    proof {
                        lemma_scatter_allowed(m, r, rec, scatter);
                        lemma_radiance_step_absorbed(r, *world, depth as nat, m, scatter);
                    }
                    return Vec3 { x: 0, y: 0, z: 0 };
                }
            },
            None => {
                proof {
                    assert(false);
                }
                return Vec3 { x: 0, y: 0, z: 0 };
            },
        }
    }
    // background
    proof {
        lemma_len_pos(r.direction);
    }
    let unit_direction: Vec3 = r.direction.unit_vector();
    let t: i64 = fmul(32768, fadd(unit_direction.y, FP_ONE));
    Vec3 { x: FP_ONE, y: FP_ONE, z: FP_ONE }.scale(fsub(FP_ONE, t)).add(
        Vec3 { x: 32768, y: 45875, z: 65536 }.scale(t),
    )
}

} // verus!

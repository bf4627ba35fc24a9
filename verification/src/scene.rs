//! A scene: an ordered collection of spheres, resolved to the nearest hit.
//!
//! The linear scan shrinks the search window to the best `t` found so far,
//! so a later surface can replace the result only with a strictly closer
//! hit; at exactly equal `t` the earlier surface stays authoritative.

use vstd::prelude::*;
use crate::fixed::{fadd, fmul, lemma_fmul_unit_range, FP_ONE};
use crate::ray::Ray;
use crate::surface::{
    color_wf, no_hit_s, sphere_disc, sphere_hit_s, Dielectric, Hit, HitRecord, Lambert, Material,
    Metal, Scatter, Sphere,
};
use crate::utility::{lemma_mix_range, mix_s, random_between, random_double};
use crate::vec3::{v_len2, Vec3};

verus! {

/// The record after scanning a prefix of the surfaces: fold the scan from
/// the left, narrowing the window to the best `t` so far and keeping the
/// earlier record on ties.
pub open spec fn scene_hit_fold(surfaces: Seq<Sphere>, r: Ray, t_min: int, t_max: int) -> HitRecord
    decreases surfaces.len(),
{
    if surfaces.len() == 0 {
        no_hit_s()
    } else {
        let prev = scene_hit_fold(surfaces.drop_last(), r, t_min, t_max);
        let window = if prev.hit_anything {
            prev.t as int
        } else {
            t_max
        };
        let cur = sphere_hit_s(surfaces.last(), r, t_min, window);
        if cur.hit_anything && (!prev.hit_anything || cur.t < prev.t) {
            cur
        } else {
            prev
        }
    }
}

/// A sphere's own record keeps its `t` inside the queried window.
pub proof fn lemma_sphere_hit_t_in_window(s: Sphere, r: Ray, t_min: int, t_max: int)
    ensures
        sphere_hit_s(s, r, t_min, t_max).hit_anything ==> t_min <= sphere_hit_s(
            s,
            r,
            t_min,
            t_max,
        ).t as int <= t_max,
{
}

/// So does the fold over a whole scene.
pub proof fn lemma_scene_fold_t_in_window(surfaces: Seq<Sphere>, r: Ray, t_min: int, t_max: int)
    ensures
        scene_hit_fold(surfaces, r, t_min, t_max).hit_anything ==> t_min <= scene_hit_fold(
            surfaces,
            r,
            t_min,
            t_max,
        ).t as int <= t_max,
    decreases surfaces.len(),
{
    if surfaces.len() > 0 {
        lemma_scene_fold_t_in_window(surfaces.drop_last(), r, t_min, t_max);
        let prev = scene_hit_fold(surfaces.drop_last(), r, t_min, t_max);
        let window = if prev.hit_anything {
            prev.t as int
        } else {
            t_max
        };
        lemma_sphere_hit_t_in_window(surfaces.last(), r, t_min, window);
    }
}

/// A hit handed out by the fold carries the material of some well-formed
/// surface of the scene.
pub proof fn lemma_scene_fold_material(surfaces: Seq<Sphere>, r: Ray, t_min: int, t_max: int)
    requires
        forall|i: int|
            0 <= i < surfaces.len() ==> (#[trigger] surfaces[i]).wf() && surfaces[i].material.wf(),
    ensures
        scene_hit_fold(surfaces, r, t_min, t_max).hit_anything ==> match scene_hit_fold(
            surfaces,
            r,
            t_min,
            t_max,
        ).material {
            Some(m) => m.wf(),
            None => false,
        },
    decreases surfaces.len(),
{
    if surfaces.len() > 0 {
        assert(forall|i: int|
            0 <= i < surfaces.drop_last().len() ==> (#[trigger] surfaces.drop_last()[i]).wf()
                && surfaces.drop_last()[i].material.wf());
        lemma_scene_fold_material(surfaces.drop_last(), r, t_min, t_max);
        assert(surfaces.last() == surfaces[surfaces.len() - 1]);
    }
}

/// Shrinking the search window cannot change which record a sphere reports:
/// a record found in the narrow window is the full-window record, and the
/// full-window record survives narrowing as long as its `t` still fits.
pub proof fn lemma_sphere_shrink(s: Sphere, r: Ray, t_min: int, w1: int, w2: int)
    requires
        t_min <= w2 <= w1,
    ensures
        sphere_hit_s(s, r, t_min, w2).hit_anything ==> sphere_hit_s(s, r, t_min, w2)
            == sphere_hit_s(s, r, t_min, w1),
        (sphere_hit_s(s, r, t_min, w1).hit_anything && sphere_hit_s(s, r, t_min, w1).t as int
            <= w2) ==> sphere_hit_s(s, r, t_min, w2) == sphere_hit_s(s, r, t_min, w1),
{
    let a = v_len2(r.direction);
    crate::vec3::lemma_len2_nonneg(r.direction);
    if a != 0 && sphere_disc(s, r) >= 0 {
        crate::surface::lemma_roots_ordered(s, r);
    }
}

/// Nearest-hit law: the scan's answer is never farther than any single
/// surface's own answer over the full window — its `t` is the minimum of
/// the individual hit `t`s.
pub proof fn lemma_scene_nearest(surfaces: Seq<Sphere>, r: Ray, t_min: int, t_max: int, i: int)
    requires
        0 <= i < surfaces.len(),
    ensures
        sphere_hit_s(surfaces[i], r, t_min, t_max).hit_anything ==> (scene_hit_fold(
            surfaces,
            r,
            t_min,
            t_max,
        ).hit_anything && scene_hit_fold(surfaces, r, t_min, t_max).t as int <= sphere_hit_s(
            surfaces[i],
            r,
            t_min,
            t_max,
        ).t as int),
    decreases surfaces.len(),
{
    let ind = sphere_hit_s(surfaces[i], r, t_min, t_max);
    if ind.hit_anything {
        let prev = scene_hit_fold(surfaces.drop_last(), r, t_min, t_max);
        let window = if prev.hit_anything {
            prev.t as int
        } else {
            t_max
        };
        let cur = sphere_hit_s(surfaces.last(), r, t_min, window);
        lemma_scene_fold_t_in_window(surfaces.drop_last(), r, t_min, t_max);
        lemma_sphere_hit_t_in_window(surfaces[i], r, t_min, t_max);
        if i < surfaces.len() - 1 {
            assert(surfaces.drop_last()[i] == surfaces[i]);
            lemma_scene_nearest(surfaces.drop_last(), r, t_min, t_max, i);
            lemma_sphere_hit_t_in_window(surfaces.last(), r, t_min, window);
        } else {
            assert(surfaces.last() == surfaces[i]);
            lemma_sphere_hit_t_in_window(surfaces.last(), r, t_min, window);
            if prev.hit_anything {
                lemma_sphere_shrink(surfaces.last(), r, t_min, t_max, prev.t as int);
            }
        }
    }
}

/// The other half of the nearest-hit law: the scan's answer is not merely a
/// lower bound — it is exactly the full-window record of one of the
/// surfaces, so together with `lemma_scene_nearest` the reported `t` is the
/// attained minimum of the individual hit `t`s.
pub proof fn lemma_scene_hit_attained(surfaces: Seq<Sphere>, r: Ray, t_min: int, t_max: int)
    ensures
        scene_hit_fold(surfaces, r, t_min, t_max).hit_anything ==> exists|i: int|
            0 <= i < surfaces.len() && scene_hit_fold(surfaces, r, t_min, t_max)
                == sphere_hit_s(#[trigger] surfaces[i], r, t_min, t_max),
    decreases surfaces.len(),
{
    let fold = scene_hit_fold(surfaces, r, t_min, t_max);
    if fold.hit_anything {
        let prev = scene_hit_fold(surfaces.drop_last(), r, t_min, t_max);
        let window = if prev.hit_anything {
            prev.t as int
        } else {
            t_max
        };
        let cur = sphere_hit_s(surfaces.last(), r, t_min, window);
        lemma_scene_fold_t_in_window(surfaces.drop_last(), r, t_min, t_max);
        if cur.hit_anything && (!prev.hit_anything || cur.t < prev.t) {
            // the narrowed-window record is the full-window record
            lemma_sphere_hit_t_in_window(surfaces.last(), r, t_min, window);
            lemma_sphere_shrink(surfaces.last(), r, t_min, t_max, window);
            assert(fold == sphere_hit_s(surfaces[surfaces.len() - 1], r, t_min, t_max));
        } else {
            lemma_scene_hit_attained(surfaces.drop_last(), r, t_min, t_max);
            let j = choose|j: int|
                0 <= j < surfaces.drop_last().len() && prev == sphere_hit_s(
                    #[trigger] surfaces.drop_last()[j],
                    r,
                    t_min,
                    t_max,
                );
            assert(surfaces.drop_last()[j] == surfaces[j]);
            assert(fold == sphere_hit_s(surfaces[j], r, t_min, t_max));
        }
    }
}

/// The gray floor: a huge diffuse sphere whose top surface is the ground
/// plane.
pub open spec fn floor_sphere_s() -> Sphere {
    Sphere {
        center: Vec3 { x: 0, y: -65536000i64, z: -65536i64 },
        radius: 65536000,
        material: Material::Lambert(Lambert { albedo: Vec3 { x: 32768, y: 32768, z: 32768 } }),
    }
}

/// The central glass feature sphere.
pub open spec fn glass_feature_s() -> Sphere {
    Sphere {
        center: Vec3 { x: 0, y: 65536, z: 0 },
        radius: 65536,
        material: Material::Dielectric(Dielectric { ior: 98304 }),
    }
}

/// The brown diffuse feature sphere.
pub open spec fn diffuse_feature_s() -> Sphere {
    Sphere {
        center: Vec3 { x: -262144i64, y: 65536, z: 0 },
        radius: 65536,
        material: Material::Lambert(Lambert { albedo: Vec3 { x: 26214, y: 13107, z: 6554 } }),
    }
}

/// The polished metal feature sphere.
pub open spec fn metal_feature_s() -> Sphere {
    Sphere {
        center: Vec3 { x: 262144, y: 65536, z: 0 },
        radius: 65536,
        material: Material::Metal(
            Metal { albedo: Vec3 { x: 45875, y: 39322, z: 32768 }, roughness: 0 },
        ),
    }
}

/// One of the small grid spheres: a fifth of a unit in radius, resting at
/// that height, with a material drawn from the three families — a diffuse
/// sphere with any color, a metal sphere with a bright albedo and a bounded
/// fuzz, or glass.
pub open spec fn small_sphere_wf(s: Sphere) -> bool {
    &&& s.radius == 13107
    &&& s.center.y == 13107
    &&& match s.material {
        Material::Lambert(m) => color_wf(m.albedo),
        Material::Metal(m) => {
            &&& 32768 <= m.albedo.x <= 65536
            &&& 32768 <= m.albedo.y <= 65536
            &&& 32768 <= m.albedo.z <= 65536
            &&& 0 <= m.roughness <= 32768
        },
        Material::Dielectric(m) => m.ior == 98304,
    }
}

pub struct Scene {
    pub surfaces: Vec<Sphere>,
}

impl Scene {
    /// Every surface has a positive radius and a well-formed material.
    pub open spec fn wf(&self) -> bool {
        forall|i: int|
            0 <= i < self.surfaces@.len() ==> (#[trigger] self.surfaces@[i]).wf()
                && self.surfaces@[i].material.wf()
    }

    /// The nearest intersection over all surfaces in `[t_min, t_max]`, or
    /// the no-hit sentinel.
    pub fn hit(&self, r: Ray, t_min: i64, t_max: i64) -> (rec: HitRecord)
        requires
            self.wf(),
            t_min <= t_max,
        ensures
            rec == scene_hit_fold(self.surfaces@, r, t_min as int, t_max as int),
    {
        let ghost all: Seq<Sphere> = self.surfaces@;
        let mut rec: HitRecord = HitRecord::no_hit();
        let mut i: usize = 0;
        while i < self.surfaces.len()
            invariant
                self.wf(),
                t_min <= t_max,
                all == self.surfaces@,
                i <= all.len(),
                rec == scene_hit_fold(all.take(i as int), r, t_min as int, t_max as int),
                rec.hit_anything ==> t_min as int <= rec.t as int <= t_max as int,
            decreases all.len() - i,
        {
            let s: &Sphere = &self.surfaces[i];
            let closest_so_far: i64 = if rec.hit_anything {
                rec.t
            } else {
                t_max
            };
            let temp_rec: HitRecord = s.hit(r, t_min, closest_so_far);
            proof {
                lemma_sphere_hit_t_in_window(*s, r, t_min as int, closest_so_far as int);
                assert(all.take(i as int + 1).drop_last() =~= all.take(i as int));
                assert(all.take(i as int + 1).last() == all[i as int]);
            }
            if temp_rec.hit_anything && (!rec.hit_anything || temp_rec.t < rec.t) {
                rec = temp_rec;
            }
            i = i + 1;
        }
        proof {
            assert(all.take(all.len() as int) =~= all);
        }
        rec
    }

    /// The demonstration scene: a huge diffuse floor sphere, a grid of small
    /// randomly-colored spheres, and three large feature spheres.  The four
    /// fixed spheres always appear — the floor first and the features last —
    /// and everything in between is a small grid sphere; the grid has at
    /// most 22 by 22 cells.
    pub fn random_scene() -> (scene: Scene)
        ensures
            scene.wf(),
            4 <= scene.surfaces@.len() <= 488,
            scene.surfaces@[0] == floor_sphere_s(),
            scene.surfaces@[scene.surfaces@.len() - 3] == glass_feature_s(),
            scene.surfaces@[scene.surfaces@.len() - 2] == diffuse_feature_s(),
            scene.surfaces@[scene.surfaces@.len() - 1] == metal_feature_s(),
            forall|i: int|
                1 <= i < scene.surfaces@.len() - 3 ==> small_sphere_wf(
                    #[trigger] scene.surfaces@[i],
                ),
    {
        let mut scene: Scene = Scene { surfaces: Vec::new() };

        // world setup: the floor, radius 1000 at y = -1000
        let floor_material = Material::Lambert(
            Lambert { albedo: Vec3 { x: 32768, y: 32768, z: 32768 } },
        );
        scene.surfaces.push(
            Sphere {
                center: Vec3 { x: 0, y: -65536000, z: -65536 },
                radius: 65536000,
                material: floor_material,
            },
        );

        let mut a: i64 = -11;
        while a < 11
            invariant
                scene.wf(),
                -11 <= a <= 11,
                1 <= scene.surfaces@.len() <= 1 + (a + 11) * 22,
                scene.surfaces@[0] == floor_sphere_s(),
                forall|i: int|
                    1 <= i < scene.surfaces@.len() ==> small_sphere_wf(
                        #[trigger] scene.surfaces@[i],
                    ),
            decreases 11 - a,
        {
            let mut b: i64 = -11;
            while b < 11
                invariant
                    scene.wf(),
                    -11 <= a <= 10,
                    -11 <= b <= 11,
                    1 <= scene.surfaces@.len() <= 1 + (a + 11) * 22 + (b + 11),
                    scene.surfaces@[0] == floor_sphere_s(),
                    forall|i: int|
                        1 <= i < scene.surfaces@.len() ==> small_sphere_wf(
                            #[trigger] scene.surfaces@[i],
                        ),
                decreases 11 - b,
            {
                let choose_mat: i64 = random_double();
                let cx: i64 = fadd(a * 65536, fmul(58982, random_double()));
                let cz: i64 = fadd(b * 65536, fmul(58982, random_double()));
                let center = Vec3 { x: cx, y: 13107, z: cz };

                // keep the small spheres away from the big feature spheres
                if center.sub(Vec3 { x: 262144, y: 13107, z: 0 }).length() > 58982 {
                    let sphere_material: Material;
                    if choose_mat < 52429 {
                        // diffuse
                        let dx1: i64 = random_double();
                        let dx2: i64 = random_double();
                        let dy1: i64 = random_double();
                        let dy2: i64 = random_double();
                        let dz1: i64 = random_double();
                        let dz2: i64 = random_double();
                        let albedo = Vec3 {
                            x: fmul(dx1, dx2),
                            y: fmul(dy1, dy2),
                            z: fmul(dz1, dz2),
                        };
                        proof {
                            lemma_fmul_unit_range(dx1 as int, dx2 as int);
                            lemma_fmul_unit_range(dy1 as int, dy2 as int);
                            lemma_fmul_unit_range(dz1 as int, dz2 as int);
                        }
                        sphere_material = Material::Lambert(Lambert { albedo });
                    } else if choose_mat < 62259 {
                        // metal
                        let ax: i64 = random_between(32768, 65536);
                        let ay: i64 = random_between(32768, 65536);
                        let az: i64 = random_between(32768, 65536);
                        let roughness: i64 = random_between(0, 32768);
                        proof {
                            let ux = choose|u: int|
                                0 <= u < FP_ONE as int && ax as int == mix_s(32768, 65536, u);
                            lemma_mix_range(32768, 65536, ux);
                            let uy = choose|u: int|
                                0 <= u < FP_ONE as int && ay as int == mix_s(32768, 65536, u);
                            lemma_mix_range(32768, 65536, uy);
                            let uz = choose|u: int|
                                0 <= u < FP_ONE as int && az as int == mix_s(32768, 65536, u);
                            lemma_mix_range(32768, 65536, uz);
                            let ur = choose|u: int|
                                0 <= u < FP_ONE as int && roughness as int == mix_s(0, 32768, u);
                            lemma_mix_range(0, 32768, ur);
                        }
                        sphere_material = Material::Metal(
                            Metal { albedo: Vec3 { x: ax, y: ay, z: az }, roughness },
                        );
                    } else {
                        sphere_material = Material::Dielectric(Dielectric { ior: 98304 });
                    }
                    scene.surfaces.push(
                        Sphere { center, radius: 13107, material: sphere_material },
                    );
                }
                b = b + 1;
            }
            a = a + 1;
        }

        // add the big spheres
        let material1 = Material::Dielectric(Dielectric { ior: 98304 });
        let material2 = Material::Lambert(
            Lambert { albedo: Vec3 { x: 26214, y: 13107, z: 6554 } },
        );
        let material3 = Material::Metal(
            Metal { albedo: Vec3 { x: 45875, y: 39322, z: 32768 }, roughness: 0 },
        );
        scene.surfaces.push(
            Sphere { center: Vec3 { x: 0, y: 65536, z: 0 }, radius: 65536, material: material1 },
        );
        scene.surfaces.push(
            Sphere {
                center: Vec3 { x: -262144, y: 65536, z: 0 },
                radius: 65536,
                material: material2,
            },
        );
        scene.surfaces.push(
            Sphere {
                center: Vec3 { x: 262144, y: 65536, z: 0 },
                radius: 65536,
                material: material3,
            },
        );
        scene
    }
}

} // verus!

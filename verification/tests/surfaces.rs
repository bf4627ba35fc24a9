//! Closed-form intersection cases, the nearest-hit policy, and face
//! orientation.

use pathtracer::ray::Ray;
use pathtracer::scene::Scene;
use pathtracer::surface::{
    ConfigError, Hit, HitRecord, Lambert, Material, Sphere,
};
use pathtracer::vec3::Vec3;

fn gray() -> Material {
    Material::Lambert(Lambert { albedo: Vec3 { x: 32768, y: 32768, z: 32768 } })
}

fn unit_sphere_at(z: i64) -> Sphere {
    Sphere { center: Vec3 { x: 0, y: 0, z }, radius: 65536, material: gray() }
}

fn down_z_ray() -> Ray {
    Ray {
        origin: Vec3 { x: 0, y: 0, z: 0 },
        direction: Vec3 { x: 0, y: 0, z: -65536 },
    }
}

#[test]
fn ray_through_center_hits_near_root() {
    // unit sphere three units down the axis: |O-C| = 3, roots at t = 2 and 4
    let s = unit_sphere_at(-3 * 65536);
    let rec = s.hit(down_z_ray(), 66, i64::MAX);
    assert!(rec.hit_anything);
    assert_eq!(rec.t, 2 * 65536);
    assert_eq!(rec.p, Vec3 { x: 0, y: 0, z: -2 * 65536 });
    assert!(rec.front_face);
    assert_eq!(rec.normal, Vec3 { x: 0, y: 0, z: 65536 });
    assert!(rec.material.is_some());
}

#[test]
fn ray_through_center_far_root_when_near_excluded() {
    // excluding t = 2 from the window selects the far root t = 4
    let s = unit_sphere_at(-3 * 65536);
    let rec = s.hit(down_z_ray(), 3 * 65536, i64::MAX);
    assert!(rec.hit_anything);
    assert_eq!(rec.t, 4 * 65536);
    // the far intersection is the inside of the sphere: the normal flips
    assert!(!rec.front_face);
    assert_eq!(rec.normal, Vec3 { x: 0, y: 0, z: 65536 });
}

#[test]
fn tangent_ray_single_root() {
    // offset the origin one radius sideways: discriminant exactly zero
    let s = unit_sphere_at(-3 * 65536);
    let r = Ray {
        origin: Vec3 { x: 0, y: 65536, z: 0 },
        direction: Vec3 { x: 0, y: 0, z: -65536 },
    };
    let rec = s.hit(r, 66, i64::MAX);
    assert!(rec.hit_anything);
    assert_eq!(rec.t, 3 * 65536);
}

#[test]
fn missing_ray_reports_no_hit() {
    // two radii off axis: the line never comes within the radius
    let s = unit_sphere_at(-3 * 65536);
    let r = Ray {
        origin: Vec3 { x: 0, y: 2 * 65536, z: 0 },
        direction: Vec3 { x: 0, y: 0, z: -65536 },
    };
    let rec = s.hit(r, 66, i64::MAX);
    assert!(!rec.hit_anything);
}

#[test]
fn window_excluding_both_roots_reports_no_hit() {
    let s = unit_sphere_at(-3 * 65536);
    let rec = s.hit(down_z_ray(), 5 * 65536, 6 * 65536);
    assert!(!rec.hit_anything);
    let rec2 = s.hit(down_z_ray(), 66, 65536);
    assert!(!rec2.hit_anything);
}

#[test]
fn degenerate_direction_reports_no_hit() {
    let s = unit_sphere_at(-3 * 65536);
    let r = Ray {
        origin: Vec3 { x: 0, y: 0, z: 0 },
        direction: Vec3 { x: 0, y: 0, z: 0 },
    };
    assert!(!s.hit(r, 66, i64::MAX).hit_anything);
}

#[test]
fn sphere_rejects_non_positive_radius() {
    let c = Vec3 { x: 0, y: 0, z: 0 };
    assert_eq!(Sphere::new(c, 0, gray()).unwrap_err(), ConfigError::NonPositiveRadius);
    assert_eq!(Sphere::new(c, -65536, gray()).unwrap_err(), ConfigError::NonPositiveRadius);
    assert!(Sphere::new(c, 65536, gray()).is_ok());
}

#[test]
fn face_normal_orientation_follows_dot_sign() {
    let mut rec = HitRecord {
        hit_anything: true,
        p: Vec3 { x: 0, y: 0, z: 0 },
        normal: Vec3 { x: 0, y: 0, z: 0 },
        t: 0,
        front_face: true,
        material: None,
    };
    let outward = Vec3 { x: 0, y: 0, z: 65536 };
    // ray opposing the outward normal: front face, normal kept
    rec.set_face_normal(down_z_ray(), outward);
    assert!(rec.front_face);
    assert_eq!(rec.normal, outward);
    // ray along the outward normal: back face, normal flipped
    let up = Ray {
        origin: Vec3 { x: 0, y: 0, z: 0 },
        direction: Vec3 { x: 0, y: 0, z: 65536 },
    };
    rec.set_face_normal(up, outward);
    assert!(!rec.front_face);
    assert_eq!(rec.normal, outward.neg());
}

#[test]
fn overlapping_spheres_resolve_to_minimum_t() {
    // A hits at t = 2, B hits at t = 1 and 3: nearest is t = 1
    let a = unit_sphere_at(-3 * 65536);
    let b = unit_sphere_at(-2 * 65536);
    let ta = a.hit(down_z_ray(), 66, i64::MAX).t;
    let tb = b.hit(down_z_ray(), 66, i64::MAX).t;
    assert_eq!(ta, 2 * 65536);
    assert_eq!(tb, 65536);

    let scene_ab = Scene { surfaces: vec![a, b] };
    let scene_ba = Scene { surfaces: vec![b, a] };
    let rec_ab = scene_ab.hit(down_z_ray(), 66, i64::MAX);
    let rec_ba = scene_ba.hit(down_z_ray(), 66, i64::MAX);
    assert!(rec_ab.hit_anything && rec_ba.hit_anything);
    assert_eq!(rec_ab.t, ta.min(tb));
    assert_eq!(rec_ba.t, ta.min(tb));
}

#[test]
fn empty_scene_reports_no_hit() {
    let scene = Scene { surfaces: Vec::new() };
    assert!(!scene.hit(down_z_ray(), 66, i64::MAX).hit_anything);
}

#[test]
fn random_scene_fixed_spheres_and_count() {
    let scene = Scene::random_scene();
    let n = scene.surfaces.len();
    // the floor plus the three feature spheres, and at most a 22 x 22 grid
    assert!((4..=488).contains(&n));
    let floor = &scene.surfaces[0];
    assert_eq!(floor.center, Vec3 { x: 0, y: -65536000, z: -65536 });
    assert_eq!(floor.radius, 65536000);
    assert!(matches!(floor.material, Material::Lambert(_)));
    let glass = &scene.surfaces[n - 3];
    assert_eq!(glass.center, Vec3 { x: 0, y: 65536, z: 0 });
    assert_eq!(glass.radius, 65536);
    assert!(matches!(glass.material, Material::Dielectric(_)));
    let brown = &scene.surfaces[n - 2];
    assert_eq!(brown.center, Vec3 { x: -262144, y: 65536, z: 0 });
    assert!(matches!(brown.material, Material::Lambert(_)));
    let steel = &scene.surfaces[n - 1];
    assert_eq!(steel.center, Vec3 { x: 262144, y: 65536, z: 0 });
    assert!(matches!(steel.material, Material::Metal(_)));
    // everything in between is a small grid sphere resting on the floor
    for s in &scene.surfaces[1..n - 3] {
        assert_eq!(s.radius, 13107);
        assert_eq!(s.center.y, 13107);
        match s.material {
            Material::Lambert(m) => {
                for c in [m.albedo.x, m.albedo.y, m.albedo.z] {
                    assert!((0..=65536).contains(&c));
                }
            }
            Material::Metal(m) => {
                assert!((0..=32768).contains(&m.roughness));
                for c in [m.albedo.x, m.albedo.y, m.albedo.z] {
                    assert!((32768..=65536).contains(&c));
                }
            }
            Material::Dielectric(m) => assert_eq!(m.ior, 98304),
        }
    }
}

#[test]
fn random_scene_is_well_formed() {
    let scene = Scene::random_scene();
    assert!(scene.surfaces.len() >= 4);
    for s in &scene.surfaces {
        assert!(s.radius > 0);
        match s.material {
            Material::Lambert(m) => {
                for c in [m.albedo.x, m.albedo.y, m.albedo.z] {
                    assert!((0..=65536).contains(&c));
                }
            }
            Material::Metal(m) => {
                assert!(m.roughness >= 0);
                for c in [m.albedo.x, m.albedo.y, m.albedo.z] {
                    assert!((0..=65536).contains(&c));
                }
            }
            Material::Dielectric(m) => assert!(m.ior > 0),
        }
    }
}

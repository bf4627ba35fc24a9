//! Scattering behaviour: continuation flags, attenuations, and the
//! refraction round trip.

use pathtracer::ray::Ray;
use pathtracer::surface::{
    reflect, refract, Dielectric, HitRecord, Lambert, Material, Metal, Scatter,
};
use pathtracer::vec3::Vec3;

fn hit_at_origin(normal: Vec3, front_face: bool) -> HitRecord {
    HitRecord {
        hit_anything: true,
        p: Vec3 { x: 0, y: 0, z: 0 },
        normal,
        t: 65536,
        front_face,
        material: None,
    }
}

fn down_z_ray() -> Ray {
    Ray {
        origin: Vec3 { x: 0, y: 0, z: 65536 },
        direction: Vec3 { x: 0, y: 0, z: -65536 },
    }
}

#[test]
fn lambert_always_continues() {
    let m = Lambert { albedo: Vec3 { x: 45875, y: 19661, z: 19661 } };
    let rec = hit_at_origin(Vec3 { x: 0, y: 0, z: 65536 }, true);
    for _ in 0..50 {
        let (cont, attenuation, scattered) = m.scatter(down_z_ray(), rec);
        assert!(cont);
        assert_eq!(attenuation, m.albedo);
        assert_eq!(scattered.origin, rec.p);
    }
}

#[test]
fn mirror_reflection_exact() {
    // straight-on: reflection reverses the direction
    let n = Vec3 { x: 0, y: 0, z: 65536 };
    let v = Vec3 { x: 0, y: 0, z: -65536 };
    assert_eq!(reflect(v, n), Vec3 { x: 0, y: 0, z: 65536 });
    // 45 degrees in the x-z plane: x passes through, z flips
    let v45 = Vec3 { x: 65536, y: 0, z: -65536 };
    assert_eq!(reflect(v45, n), Vec3 { x: 65536, y: 0, z: 65536 });
}

#[test]
fn smooth_metal_reflects_exactly_and_continues() {
    let m = Metal { albedo: Vec3 { x: 45875, y: 39322, z: 32768 }, roughness: 0 };
    let rec = hit_at_origin(Vec3 { x: 0, y: 0, z: 65536 }, true);
    let (cont, attenuation, scattered) = m.scatter(down_z_ray(), rec);
    assert!(cont);
    assert_eq!(attenuation, m.albedo);
    assert_eq!(scattered.direction, Vec3 { x: 0, y: 0, z: 65536 });
}

#[test]
fn metal_absorbs_iff_reflection_points_into_surface() {
    // an inverted normal sends the mirror reflection into the surface:
    // the ray must be absorbed, and the flag must match the dot sign
    let m = Metal { albedo: Vec3 { x: 45875, y: 39322, z: 32768 }, roughness: 0 };
    let rec = hit_at_origin(Vec3 { x: 0, y: 0, z: -65536 }, true);
    let (cont, _, scattered) = m.scatter(down_z_ray(), rec);
    assert_eq!(cont, scattered.direction.dot(rec.normal) > 0);
    assert!(!cont);
}

#[test]
fn fuzzy_metal_flag_matches_dot_sign() {
    let m = Metal { albedo: Vec3 { x: 45875, y: 39322, z: 32768 }, roughness: 32768 };
    let rec = hit_at_origin(Vec3 { x: 0, y: 0, z: 65536 }, true);
    for _ in 0..50 {
        let (cont, _, scattered) = m.scatter(down_z_ray(), rec);
        assert_eq!(cont, scattered.direction.dot(rec.normal) > 0);
    }
}

#[test]
fn refraction_round_trip_at_normal_incidence() {
    // entering (ratio 1/1.5) and exiting (ratio 1.5) a slab of glass head-on
    // leaves the direction unchanged; the sine stays zero so total internal
    // reflection cannot occur
    let n = Vec3 { x: 0, y: 0, z: 65536 };
    let d = Vec3 { x: 0, y: 0, z: -65536 };
    let enter = refract(d, n, 43690);
    assert_eq!(enter, d);
    let exit = refract(enter, n, 98304);
    assert_eq!(exit, d);
}

#[test]
fn dielectric_always_continues_without_absorbing() {
    let m = Dielectric { ior: 98304 };
    let white = Vec3 { x: 65536, y: 65536, z: 65536 };
    let rec = hit_at_origin(Vec3 { x: 0, y: 0, z: 65536 }, true);
    for _ in 0..50 {
        let (cont, attenuation, scattered) = m.scatter(down_z_ray(), rec);
        assert!(cont);
        assert_eq!(attenuation, white);
        assert_eq!(scattered.origin, rec.p);
        // head-on, the outgoing direction is the refraction (unchanged) or
        // the mirror reflection (reversed), depending on the Schlick draw
        assert!(
            scattered.direction == Vec3 { x: 0, y: 0, z: -65536 }
                || scattered.direction == Vec3 { x: 0, y: 0, z: 65536 }
        );
    }
}

#[test]
fn matched_dielectric_at_normal_incidence_is_deterministic() {
    // with ior = 1 the Schlick reflectance is exactly zero: the ray always
    // refracts, and at normal incidence the direction is unchanged
    let m = Dielectric { ior: 65536 };
    let rec = hit_at_origin(Vec3 { x: 0, y: 0, z: 65536 }, true);
    for _ in 0..50 {
        let (cont, _, scattered) = m.scatter(down_z_ray(), rec);
        assert!(cont);
        assert_eq!(scattered.direction, Vec3 { x: 0, y: 0, z: -65536 });
    }
}

#[test]
fn material_enum_dispatches_to_variant() {
    let rec = hit_at_origin(Vec3 { x: 0, y: 0, z: 65536 }, true);
    let metal = Material::Metal(Metal { albedo: Vec3 { x: 45875, y: 39322, z: 32768 }, roughness: 0 });
    let (cont, attenuation, scattered) = metal.scatter(down_z_ray(), rec);
    assert!(cont);
    assert_eq!(attenuation, Vec3 { x: 45875, y: 39322, z: 32768 });
    assert_eq!(scattered.direction, Vec3 { x: 0, y: 0, z: 65536 });
}

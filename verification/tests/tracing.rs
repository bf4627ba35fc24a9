//! Driver-level behaviour: depth termination, the background gradient, an
//! end-to-end single-sphere scenario, and Monte Carlo convergence.

use pathtracer::camera::Camera;
use pathtracer::ray::Ray;
use pathtracer::scene::Scene;
use pathtracer::surface::{Dielectric, Lambert, Material, Sphere};
use pathtracer::tracer::ray_color;
use pathtracer::vec3::Vec3;

fn single_sphere_scene() -> Scene {
    // a unit-diameter Lambert sphere half a unit behind the image plane
    let material = Material::Lambert(Lambert { albedo: Vec3 { x: 45875, y: 19661, z: 19661 } });
    let sphere = Sphere {
        center: Vec3 { x: 0, y: 0, z: -65536 },
        radius: 32768,
        material,
    };
    Scene { surfaces: vec![sphere] }
}

fn p8_camera() -> Camera {
    Camera::new(
        Vec3 { x: 0, y: 0, z: 0 },
        Vec3 { x: 0, y: 0, z: -65536 },
        Vec3 { x: 0, y: 65536, z: 0 },
        90 * 65536,
        65536,
        0,
        65536,
    )
    .unwrap()
}

#[test]
fn zero_depth_is_black_for_any_ray_and_scene() {
    let scene = single_sphere_scene();
    let rays = [
        Ray { origin: Vec3 { x: 0, y: 0, z: 0 }, direction: Vec3 { x: 0, y: 0, z: -65536 } },
        Ray { origin: Vec3 { x: 9, y: -7, z: 3 }, direction: Vec3 { x: 65536, y: 65536, z: 0 } },
    ];
    for r in rays {
        assert_eq!(ray_color(r, &scene, 0), Vec3 { x: 0, y: 0, z: 0 });
    }
    let big = Scene::random_scene();
    for r in rays {
        assert_eq!(ray_color(r, &big, 0), Vec3 { x: 0, y: 0, z: 0 });
    }
}

#[test]
fn background_endpoints_exact() {
    let scene = single_sphere_scene();
    // straight up misses the sphere and lands on the sky-blue endpoint
    let up = Ray { origin: Vec3 { x: 0, y: 0, z: 0 }, direction: Vec3 { x: 0, y: 65536, z: 0 } };
    assert_eq!(ray_color(up, &scene, 5), Vec3 { x: 32768, y: 45875, z: 65536 });
    // straight down misses too and lands on pure white
    let down = Ray {
        origin: Vec3 { x: 0, y: 0, z: 0 },
        direction: Vec3 { x: 0, y: -65536, z: 0 },
    };
    assert_eq!(ray_color(down, &scene, 5), Vec3 { x: 65536, y: 65536, z: 65536 });
}

#[test]
fn end_to_end_single_sphere_center_pixel() {
    let scene = single_sphere_scene();
    let camera = p8_camera();
    // the center of the viewport: s = t = 0.5
    let ray = camera.get_ray(32768, 32768);
    // with a closed aperture the primary ray is exact
    assert_eq!(ray.origin, Vec3 { x: 0, y: 0, z: 0 });
    assert_eq!(ray.direction, Vec3 { x: 0, y: 0, z: -65536 });
    // the ray must strike the sphere
    let rec = scene.hit(ray, 66, i64::MAX);
    assert!(rec.hit_anything);
    assert_eq!(rec.t, 32768);
    // one bounce of attenuation: non-black, strictly dimmer than the albedo
    let color = ray_color(ray, &scene, 10);
    assert!(color != Vec3 { x: 0, y: 0, z: 0 });
    let brightness = color.x + color.y + color.z;
    let albedo_brightness = 45875 + 19661 + 19661;
    assert!(brightness > 0);
    assert!(brightness < albedo_brightness, "brightness = {brightness}");
}

#[test]
fn matched_glass_sphere_is_invisible_head_on() {
    // a dielectric with the ambient index never reflects (Schlick gives
    // exactly zero) and refracts head-on rays unchanged: entering and
    // exiting the sphere leaves the ray on its course, white attenuation
    // both times, so the driver returns the exact sky-blue background
    let glass = Sphere {
        center: Vec3 { x: 0, y: 2 * 65536, z: 0 },
        radius: 65536,
        material: Material::Dielectric(Dielectric { ior: 65536 }),
    };
    let scene = Scene { surfaces: vec![glass] };
    let up = Ray { origin: Vec3 { x: 0, y: 0, z: 0 }, direction: Vec3 { x: 0, y: 65536, z: 0 } };
    for _ in 0..20 {
        assert_eq!(ray_color(up, &scene, 5), Vec3 { x: 32768, y: 45875, z: 65536 });
    }
}

fn pixel_brightness(scene: &Scene, camera: &Camera, samples: u32) -> f64 {
    let mut sum = Vec3 { x: 0, y: 0, z: 0 };
    for _ in 0..samples {
        let ray = camera.get_ray(32768, 32768);
        sum = sum.add(ray_color(ray, scene, 10));
    }
    let total = (sum.x + sum.y + sum.z) as f64;
    total / samples as f64 / 65536.0
}

fn variance(values: &[f64]) -> f64 {
    let mean = values.iter().sum::<f64>() / values.len() as f64;
    values.iter().map(|v| (v - mean) * (v - mean)).sum::<f64>() / values.len() as f64
}

#[test]
fn more_samples_reduce_pixel_variance() {
    let scene = single_sphere_scene();
    let camera = p8_camera();
    let coarse: Vec<f64> = (0..25).map(|_| pixel_brightness(&scene, &camera, 1)).collect();
    let fine: Vec<f64> = (0..25).map(|_| pixel_brightness(&scene, &camera, 64)).collect();
    let var_coarse = variance(&coarse);
    let var_fine = variance(&fine);
    assert!(
        var_fine < var_coarse,
        "variance with 64 samples ({var_fine}) should be below variance with 1 ({var_coarse})"
    );
}

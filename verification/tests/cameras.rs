//! Camera construction, its validation, and the random samplers.

use pathtracer::camera::Camera;
use pathtracer::surface::ConfigError;
use pathtracer::utility::{random_between, random_double, random_in_unit_sphere, random_unit_vector};
use pathtracer::vec3::Vec3;

fn eye() -> Vec3 {
    Vec3 { x: 0, y: 0, z: 0 }
}

fn target() -> Vec3 {
    Vec3 { x: 0, y: 0, z: -65536 }
}

fn up() -> Vec3 {
    Vec3 { x: 0, y: 65536, z: 0 }
}

#[test]
fn camera_rejects_bad_configuration() {
    let new = |vfov, aspect, aperture, focus| Camera::new(eye(), target(), up(), vfov, aspect, aperture, focus);
    assert_eq!(new(0, 65536, 0, 65536).unwrap_err(), ConfigError::NonPositiveFieldOfView);
    assert_eq!(new(-65536, 65536, 0, 65536).unwrap_err(), ConfigError::NonPositiveFieldOfView);
    assert_eq!(new(180 * 65536, 65536, 0, 65536).unwrap_err(), ConfigError::FieldOfViewTooWide);
    assert_eq!(new(90 * 65536, 0, 0, 65536).unwrap_err(), ConfigError::NonPositiveAspectRatio);
    assert_eq!(new(90 * 65536, 65536, -1, 65536).unwrap_err(), ConfigError::NegativeAperture);
    assert_eq!(new(90 * 65536, 65536, 0, 0).unwrap_err(), ConfigError::NonPositiveFocusDistance);
    // eye and target coincide: no gaze direction
    assert_eq!(
        Camera::new(eye(), eye(), up(), 90 * 65536, 65536, 0, 65536).unwrap_err(),
        ConfigError::DegenerateBasis
    );
    // up parallel to the gaze: no sideways direction
    assert_eq!(
        Camera::new(eye(), target(), Vec3 { x: 0, y: 0, z: 65536 }, 90 * 65536, 65536, 0, 65536)
            .unwrap_err(),
        ConfigError::DegenerateBasis
    );
}

#[test]
fn camera_basis_for_axis_aligned_gaze() {
    let cam = Camera::new(eye(), target(), up(), 90 * 65536, 65536, 13107, 131072).unwrap();
    assert_eq!(cam.origin, eye());
    assert_eq!(cam.w, Vec3 { x: 0, y: 0, z: 65536 });
    assert_eq!(cam.u, Vec3 { x: 65536, y: 0, z: 0 });
    assert_eq!(cam.v, Vec3 { x: 0, y: 65536, z: 0 });
    // half the aperture
    assert_eq!(cam.lens_radius, 6553);
    // the viewport is 2 * tan(45 deg) ~ 2 units, scaled by the focus
    // distance along u and v; tangent truncation costs a few raw units
    assert!((cam.horizontal.x - 4 * 65536).abs() < 64, "horizontal = {}", cam.horizontal.x);
    assert_eq!(cam.horizontal.y, 0);
    assert!((cam.vertical.y - 4 * 65536).abs() < 64, "vertical = {}", cam.vertical.y);
}

#[test]
fn closed_aperture_center_ray_is_the_gaze() {
    let cam = Camera::new(eye(), target(), up(), 90 * 65536, 65536, 0, 65536).unwrap();
    for _ in 0..10 {
        let ray = cam.get_ray(32768, 32768);
        assert_eq!(ray.origin, eye());
        assert_eq!(ray.direction, Vec3 { x: 0, y: 0, z: -65536 });
    }
}

#[test]
fn open_aperture_offsets_stay_within_lens_radius() {
    let cam = Camera::new(eye(), target(), up(), 90 * 65536, 65536, 13107, 131072).unwrap();
    for _ in 0..100 {
        let ray = cam.get_ray(32768, 32768);
        // the origin is jittered on the lens disk around the eye
        assert!(ray.origin.x.abs() <= cam.lens_radius);
        assert!(ray.origin.y.abs() <= cam.lens_radius);
        assert_eq!(ray.origin.z, 0);
    }
}

#[test]
fn random_double_stays_in_unit_interval() {
    for _ in 0..200 {
        let r = random_double();
        assert!((0..65536).contains(&r));
    }
}

#[test]
fn random_between_stays_in_bounds() {
    for _ in 0..200 {
        let r = random_between(-65536, 65536);
        assert!((-65536..65536).contains(&r));
        let s = random_between(32768, 65536);
        assert!((32768..65536).contains(&s));
    }
}

#[test]
fn random_in_unit_sphere_is_interior_and_nonzero() {
    for _ in 0..200 {
        let p = random_in_unit_sphere();
        let ls = p.length_squared();
        assert!(0 < ls && ls < 65536, "length_squared = {ls}");
    }
}

#[test]
fn random_unit_vector_has_unit_length() {
    for _ in 0..200 {
        let u = random_unit_vector();
        let ls = u.length_squared();
        // normalization of a coarse fixed-point sample: close to one
        assert!((ls - 65536i64).abs() < 3000, "length_squared = {ls}");
    }
}

//! The camera: an immutable configuration computed once, mapping normalized
//! pixel coordinates (plus a random lens-disk offset for depth of field) to
//! primary rays.
//!
//! Construction validates its inputs and fails fast with a configuration
//! error; the derived basis and viewport are pinned exactly by
//! [`camera_new_s`].

use vstd::prelude::*;
use crate::fixed::{
    cos_s, fdiv, fdiv_s, fmul, fmul_s, fp_cos, fp_sin, idiv, sin_s, tdiv, FP_ONE,
};
use crate::ray::Ray;
use crate::surface::ConfigError;
use crate::utility::{
    degrees_to_radians, degrees_to_radians_s, lemma_len_pos, random_between, DEG_180,
};
use crate::vec3::{
    v_add, v_cross, v_div, v_len2, v_scale, v_sub, v_unit, Vec3,
};

verus! {

#[derive(Clone, Copy, Debug)]
pub struct Camera {
    pub origin: Vec3,
    pub horizontal: Vec3,
    pub vertical: Vec3,
    pub lower_left_corner: Vec3,
    pub u: Vec3,
    pub v: Vec3,
    pub w: Vec3,
    pub lens_radius: i64,
}

/// Half the field-of-view angle, in fixed-point radians.
pub open spec fn half_theta_s(vfov: int) -> int {
    tdiv(degrees_to_radians_s(vfov), 2)
}

/// Exactly what `Camera::new` returns: the first failing validation's
/// error, or the camera whose basis and viewport are derived from the
/// inputs.
pub open spec fn camera_new_s(
    look_from: Vec3,
    look_at: Vec3,
    v_up: Vec3,
    vfov: i64,
    aspect_ratio: i64,
    aperture: i64,
    focus_dist: i64,
) -> Result<Camera, ConfigError> {
    if vfov <= 0 {
        Err(ConfigError::NonPositiveFieldOfView)
    } else if vfov >= DEG_180 {
        Err(ConfigError::FieldOfViewTooWide)
    } else if aspect_ratio <= 0 {
        Err(ConfigError::NonPositiveAspectRatio)
    } else if aperture < 0 {
        Err(ConfigError::NegativeAperture)
    } else if focus_dist <= 0 {
        Err(ConfigError::NonPositiveFocusDistance)
    } else if cos_s(half_theta_s(vfov as int)) <= 0 {
        Err(ConfigError::FieldOfViewTooWide)
    } else if v_len2(v_sub(look_from, look_at)) == 0 {
        Err(ConfigError::DegenerateBasis)
    } else if v_len2(v_cross(v_up, v_unit(v_sub(look_from, look_at)))) == 0 {
        Err(ConfigError::DegenerateBasis)
    } else {
        let half = half_theta_s(vfov as int);
        let h = fdiv_s(sin_s(half), cos_s(half));
        let viewport_height = fmul_s(131072, h);
        let viewport_width = fmul_s(aspect_ratio as int, viewport_height);
        let w = v_unit(v_sub(look_from, look_at));
        let u = v_unit(v_cross(v_up, w));
        let v = v_cross(w, u);
        let origin = look_from;
        let horizontal = v_scale(v_scale(u, viewport_width), focus_dist as int);
        let vertical = v_scale(v_scale(v, viewport_height), focus_dist as int);
        let lower_left_corner = v_sub(
            v_sub(v_sub(origin, v_div(horizontal, 131072)), v_div(vertical, 131072)),
            v_scale(w, focus_dist as int),
        );
        Ok(
            Camera {
                origin,
                horizontal,
                vertical,
                lower_left_corner,
                u,
                v,
                w,
                lens_radius: fdiv_s(aperture as int, 131072) as i64,
            },
        )
    }
}

/// The primary ray for viewport coordinates `(s, t)` and lens-disk sample
/// `rd`.
pub open spec fn get_ray_s(cam: Camera, s: int, t: int, rd: Vec3) -> Ray {
    let scaled = v_scale(rd, cam.lens_radius as int);
    let offset = v_add(v_scale(cam.u, scaled.x as int), v_scale(cam.v, scaled.y as int));
    Ray {
        origin: v_add(cam.origin, offset),
        direction: v_sub(
            v_sub(
                v_add(v_add(cam.lower_left_corner, v_scale(cam.horizontal, s)), v_scale(cam.vertical, t)),
                cam.origin,
            ),
            offset,
        ),
    }
}

/// A sample in the unit disk of the lens plane, by bounded rejection with a
/// central fallback.
fn random_in_unit_disk() -> (p: Vec3)
    ensures
        v_len2(p) < FP_ONE as int,
        p.z == 0,
{
    let mut attempt: u32 = 0;
    while attempt < 64
        invariant
            true,
        decreases 64 - attempt,
    {
        let px: i64 = random_between(-65536, 65536);
        let py: i64 = random_between(-65536, 65536);
        let p = Vec3 { x: px, y: py, z: 0 };
        let ls: i64 = p.length_squared();
        if ls < FP_ONE {
            return p;
        }
        attempt = attempt + 1;
    }
    let p = Vec3 { x: 0, y: 0, z: 0 };
    proof {
        assert(v_len2(p) == 0);
    }
    p
}

impl Camera {
    /// The primary ray through viewport coordinates `(s, t)` in `[0, 1]`,
    /// with a random lens-disk offset simulating the aperture.
    pub fn get_ray(&self, s: i64, t: i64) -> (r: Ray)
        ensures
            exists|rd: Vec3|
                v_len2(rd) < FP_ONE as int && rd.z == 0 && r == get_ray_s(*self, s as int, t as int, rd),
    {
        let rd0: Vec3 = random_in_unit_disk();
        let rd: Vec3 = rd0.scale(self.lens_radius);
        let offset: Vec3 = self.u.scale(rd.x).add(self.v.scale(rd.y));
        let r = Ray {
            origin: self.origin.add(offset),
            direction: self.lower_left_corner.add(self.horizontal.scale(s)).add(
                self.vertical.scale(t),
            ).sub(self.origin).sub(offset),
        };
        proof {
            assert(r == get_ray_s(*self, s as int, t as int, rd0));
        }
        r
    }

    /// Derive the orthonormal-basis camera from eye position, look-at
    /// target, up vector, vertical field of view in degrees, aspect ratio,
    /// aperture and focus distance, rejecting invalid configurations.
    pub fn new(
        look_from: Vec3,
        look_at: Vec3,
        v_up: Vec3,
        vfov: i64,
        aspect_ratio: i64,
        aperture: i64,
        focus_dist: i64,
    ) -> (res: Result<Camera, ConfigError>)
        ensures
            res == camera_new_s(look_from, look_at, v_up, vfov, aspect_ratio, aperture, focus_dist),
    {
        if vfov <= 0 {
            return Err(ConfigError::NonPositiveFieldOfView);
        }
        if vfov >= DEG_180 {
            return Err(ConfigError::FieldOfViewTooWide);
        }
        if aspect_ratio <= 0 {
            return Err(ConfigError::NonPositiveAspectRatio);
        }
        if aperture < 0 {
            return Err(ConfigError::NegativeAperture);
        }
        if focus_dist <= 0 {
            return Err(ConfigError::NonPositiveFocusDistance);
        }
        let theta: i64 = degrees_to_radians(vfov);
        let half: i64 = idiv(theta, 2);
        let cos_half: i64 = fp_cos(half);
        if cos_half <= 0 {
            return Err(ConfigError::FieldOfViewTooWide);
        }
        let h: i64 = fdiv(fp_sin(half), cos_half);
        let viewport_height: i64 = fmul(131072, h);
        let viewport_width: i64 = fmul(aspect_ratio, viewport_height);

        let gaze: Vec3 = look_from.sub(look_at);
        if gaze.length_squared() == 0 {
            return Err(ConfigError::DegenerateBasis);
        }
        proof {
            lemma_len_pos(gaze);
        }
        let w: Vec3 = gaze.unit_vector();
        let side: Vec3 = v_up.cross(w);
        if side.length_squared() == 0 {
            return Err(ConfigError::DegenerateBasis);
        }
        proof {
            lemma_len_pos(side);
        }
        let u: Vec3 = side.unit_vector();
        let v: Vec3 = w.cross(u);

        let origin: Vec3 = look_from;
        let horizontal: Vec3 = u.scale(viewport_width).scale(focus_dist);
        let vertical: Vec3 = v.scale(viewport_height).scale(focus_dist);
        let lower_left_corner: Vec3 = origin.sub(horizontal.div(131072)).sub(
            vertical.div(131072),
        ).sub(w.scale(focus_dist));

        let lens_radius: i64 = fdiv(aperture, 131072);

        Ok(
            Camera {
                origin,
                horizontal,
                vertical,
                lower_left_corner,
                u,
                v,
                w,
                lens_radius,
            },
        )
    }
}

} // verus!

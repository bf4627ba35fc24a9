//! A path tracer whose arithmetic core is verified.
//!
//! All geometry and shading run on signed 16.16 fixed-point numbers, so that
//! every routine — sphere intersection, nearest-hit selection, material
//! scattering, the recursive radiance driver and the camera model — carries a
//! machine-checked contract.  Randomness comes from the `rand` crate through a
//! small set of trusted wrappers; everything downstream of a random sample is
//! verified for every value the sample may take.

pub mod camera;
pub mod fixed;
pub mod ray;
pub mod scene;
pub mod surface;
pub mod tracer;
pub mod utility;
pub mod vec3;

//! The decision core of a small path tracer: spheres, three materials, a
//! thin-lens camera and a plain-text image format.
//!
//! Numbers are IEEE 754 binary64 values held by their encoding (see
//! [`scalar`]). Everything here is exact: ordering, sign, clamping,
//! truncation, selection among candidates, the draws of the generator, and
//! the control of the trace and of the walk over the image. Rounded
//! arithmetic is left to the caller, who hands its results in.

pub mod scalar;
pub mod vec3;
pub mod interval;
pub mod color;
pub mod ray;
pub mod sphere;
pub mod material;
pub mod camera;
pub mod rng;

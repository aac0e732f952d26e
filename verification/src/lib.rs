//! A small Monte Carlo path tracer over fixed-point arithmetic.
//!
//! A scene is a list of spheres, each of a diffuse, metallic or glassy
//! material. A camera sends rays through the pixels of its image; each ray
//! is followed from surface to surface for a bounded number of bounces and
//! gathers the colour of the sky, attenuated by what it met. The image is
//! returned as a plain-text pixel map.
//!
//! Every quantity is a [`scalar::Scalar`]: a signed 64-bit number with 32
//! fractional bits whose operations saturate instead of overflowing, so that
//! every function of the crate is total and its result is a function of its
//! arguments alone. Randomness comes from an explicit
//! [`random::RandomSource`] that the caller seeds and passes along; the same
//! seed gives the same image.
//!
//! - [`scalar`], [`trig`]: numbers, their arithmetic and the tangent.
//! - [`vec3`], [`ray`], [`interval`]: geometry.
//! - [`random`]: the source of uniform scalars.
//! - [`hittable`], [`sphere`], [`hittable_list`]: what rays hit, and where.
//! - [`material`]: how a surface scatters a ray.
//! - [`color`], [`ppm`]: colours and their encoding as text.
//! - [`camera`]: rays for pixels, colours for rays, images for scenes.
//! - [`scene`]: two ready-made scenes.

pub mod camera;
pub mod color;
pub mod hittable;
pub mod hittable_list;
pub mod interval;
pub mod material;
pub mod ppm;
pub mod random;
pub mod ray;
pub mod scalar;
pub mod scene;
pub mod sphere;
pub mod trig;
pub mod vec3;

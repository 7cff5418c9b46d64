//! A recursive Monte Carlo ray tracer over IEEE-754 binary64 numbers.
//!
//! Numbers are carried as their bit patterns ([`scalar::Scalar`]). Order,
//! sign and integer conversion are decided on the bits by verified code;
//! rounding arithmetic is done by a software floating-point library and
//! enters the contracts under the names declared in [`scalar`].

pub mod camera;
pub mod convert;
pub mod hittable;
pub mod interval;
pub mod material;
pub mod random;
pub mod ray;
pub mod scalar;
pub mod scene;
pub mod sphere;
pub mod text;
pub mod vec3;

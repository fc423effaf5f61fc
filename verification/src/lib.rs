//! A small ray-tracing core over fixed-point arithmetic.
//!
//! Every scalar is an `i64` storing `value * ONE` (a 16-bit binary fraction),
//! so the geometry — camera frames, ray/primitive intersection, the nearest-hit
//! search, and Phong-style shading with hard shadows — is exact integer
//! arithmetic with stated rounding, and each step carries a proved contract.
//! Window handling, image decoding and pixel presentation are left to callers.

pub mod fixed;
pub mod vec3;
pub mod material;
pub mod light;
pub mod ray_intersect;
pub mod cube;
pub mod sphere;
pub mod trig;
pub mod camera;
pub mod texture;
pub mod framebuffer;
pub mod render;

pub use fixed::ONE;

//! A small path tracer: spheres (still or moving), diffuse, metal and glass
//! materials, a thin-lens camera with an open shutter, and the recursive
//! estimate of the light arriving along a ray.
//!
//! All arithmetic is saturating fixed point (`fixed::Fixed`, 16 fractional
//! bits), so each operation has an exact integer meaning that the contracts
//! state. Random draws come from `rand`; the contracts say what holds of
//! every draw.
pub mod camera;
pub mod dielectric;
pub mod fixed;
pub mod hit;
pub mod hit_list;
pub mod lambertian;
pub mod material;
pub mod metal;
pub mod moving_sphere;
pub mod ray;
pub mod render;
pub mod scene;
pub mod sphere;
pub mod vec3;

//! A stochastic ray tracer over fixed-point arithmetic: camera ray
//! generation with stratified super-sampling, sphere intersection with
//! nearest-hit resolution, recursive diffuse bouncing with a depth
//! cutoff, and per-pixel accumulation into 8-bit RGBA values. All
//! coordinates and colors are scaled integers (`fixed::SCALE` per
//! world unit), so every step of the pipeline carries a proved
//! contract.

pub mod camera;
pub mod fixed;
pub mod geometry;
pub mod image;
pub mod sampling;
pub mod scene;
pub mod vec3;

//! A Monte Carlo path tracer over spheres with diffuse, metallic and
//! dielectric materials.
//!
//! Scalars are saturating fixed-point numbers (see [`fixed`]); every
//! geometric and shading decision is stated over their exact model.

pub mod fixed;
pub mod util;
pub mod vec3;
pub mod ray;
pub mod hittable;
pub mod material;
pub mod sphere;
pub mod hittable_list;
pub mod camera;
pub mod render;
pub mod scene;
pub mod unit_length;

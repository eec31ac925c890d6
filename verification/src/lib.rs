//! A ray tracer over fixed-point arithmetic: geometry (rectangular faces and
//! boxes placed by rigid transforms), closest-hit resolution, Phong-style
//! shading with area lights and shadow rays, sub-pixel samplers, and
//! sequential and row-parallel renderers.

pub mod fixed;
pub mod vector;
pub mod transform;
pub mod trig;
pub mod util;
pub mod material;
pub mod objects;
pub mod ray;
pub mod light;
pub mod intersection;
pub mod camera;
pub mod scene;
pub mod raytracer;
pub mod algebra;

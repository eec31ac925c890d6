//! The rendering pipeline: sub-pixel samplers, the output raster, and the
//! sequential and row-parallel renderers.

pub mod sampler;
pub mod simple;
pub mod trace;

pub use self::sampler::{PixelSampler, Uniform, Jittered, Random};
pub use self::simple::{Simple, SimpleSettings, Renderer, ParallelRenderer, Image};

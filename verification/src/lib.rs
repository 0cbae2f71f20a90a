//! Differentiable tile-based rasterization of anisotropic 3D Gaussian splats.
//!
//! The pipeline projects 3D Gaussians to screen space, expands each projected
//! Gaussian into one intersection record per overlapped tile, sorts the records
//! by a composite (tile, depth) key, derives per-tile index ranges, and
//! alpha-composites each pixel front to back.  A matching backward pass
//! accumulates gradients of a pixel loss with respect to every Gaussian
//! parameter.
//!
//! All numeric state is carried in signed 64-bit fixed-point values
//! (see [`fixed`]), so every stage is a deterministic, fully specified
//! function of its inputs.

pub mod fixed;
pub mod grid;
pub mod isect;
pub mod project;
pub mod raster;
pub mod sh;
pub mod types;

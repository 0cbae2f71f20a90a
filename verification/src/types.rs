//! Plain value types shared by the pipeline stages.
//!
//! Every numeric field is a fixed-point value (see [`crate::fixed`]) unless
//! noted otherwise.

use vstd::prelude::*;

verus! {

/// A 2D point or vector.
#[derive(Clone, Copy, PartialEq, Eq, Structural, Debug)]
pub struct Vec2 {
    pub x: i64,
    pub y: i64,
}

/// A 3D point or vector.
#[derive(Clone, Copy, PartialEq, Eq, Structural, Debug)]
pub struct Vec3 {
    pub x: i64,
    pub y: i64,
    pub z: i64,
}

/// A rotation quaternion, scalar part first.
#[derive(Clone, Copy, PartialEq, Eq, Structural, Debug)]
pub struct Quat {
    pub w: i64,
    pub x: i64,
    pub y: i64,
    pub z: i64,
}

/// A 4x4 transform, row major.
#[derive(Clone, Copy, PartialEq, Eq, Structural, Debug)]
pub struct Mat4 {
    pub m00: i64,
    pub m01: i64,
    pub m02: i64,
    pub m03: i64,
    pub m10: i64,
    pub m11: i64,
    pub m12: i64,
    pub m13: i64,
    pub m20: i64,
    pub m21: i64,
    pub m22: i64,
    pub m23: i64,
    pub m30: i64,
    pub m31: i64,
    pub m32: i64,
    pub m33: i64,
}

/// A 3x3 matrix, row major.
#[derive(Clone, Copy, PartialEq, Eq, Structural, Debug)]
pub struct Mat3 {
    pub m00: i64,
    pub m01: i64,
    pub m02: i64,
    pub m10: i64,
    pub m11: i64,
    pub m12: i64,
    pub m20: i64,
    pub m21: i64,
    pub m22: i64,
}

/// The six upper-triangular entries of a symmetric 3x3 covariance.
#[derive(Clone, Copy, PartialEq, Eq, Structural, Debug)]
pub struct Cov3D {
    pub xx: i64,
    pub xy: i64,
    pub xz: i64,
    pub yy: i64,
    pub yz: i64,
    pub zz: i64,
}

/// The three upper-triangular entries of a symmetric 2x2 matrix; used both
/// for 2D covariances and for their inverses (conics).
#[derive(Clone, Copy, PartialEq, Eq, Structural, Debug)]
pub struct Cov2D {
    pub xx: i64,
    pub xy: i64,
    pub yy: i64,
}

/// An RGB color.
#[derive(Clone, Copy, PartialEq, Eq, Structural, Debug)]
pub struct Color {
    pub r: i64,
    pub g: i64,
    pub b: i64,
}

/// Everything the projector derives for one Gaussian.
///
/// A Gaussian that is clipped by the near plane, has a degenerate projected
/// covariance, or overlaps no tile is excluded: its `radius` and
/// `num_tiles_hit` are zero and the remaining fields are zero as well.
#[derive(Clone, Copy, PartialEq, Eq, Structural, Debug)]
pub struct ProjectedSplat {
    /// 3D covariance of the Gaussian in world space.
    pub cov3d: Cov3D,
    /// Screen-space center, in pixels.
    pub xy: Vec2,
    /// Camera-space depth.
    pub depth: i64,
    /// Radius of the projected footprint in whole pixels (a plain integer).
    pub radius: i64,
    /// Inverse of the regularized 2D covariance.
    pub conic: Cov2D,
    /// Intensity correction for the low-pass regularizer.
    pub compensation: i64,
    /// Number of tiles the footprint overlaps (a plain integer).
    pub num_tiles_hit: u64,
}

/// Gradients of the loss with respect to one Gaussian's 3D parameters.
#[derive(Clone, Copy, PartialEq, Eq, Structural, Debug)]
pub struct SplatGrad {
    pub mean3d: Vec3,
    pub scale: Vec3,
    pub quat: Quat,
}

/// Gradients of the loss with respect to one Gaussian's screen-space inputs,
/// accumulated over every pixel of every tile the Gaussian touches.
#[derive(Clone, Copy, PartialEq, Eq, Structural, Debug)]
pub struct RasterGrad {
    pub xy: Vec2,
    pub conic: Cov2D,
    pub color: Color,
    pub opacity: i64,
}

/// Error taxonomy of the pipeline: precondition violations are surfaced to
/// the caller before any work is done.
#[derive(Clone, Copy, PartialEq, Eq, Structural, Debug)]
pub enum GsplatError {
    /// Two inputs that must have one entry per Gaussian differ in length.
    MismatchedInputs,
    /// A record names a Gaussian or a tile outside the given bounds.
    IndexOutOfBounds,
    /// The total intersection count does not fit the machine word.
    TooManyIntersects,
}

} // verus!

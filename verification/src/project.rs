//! Projection of 3D Gaussians to screen space, and its backward pass.
//!
//! For each Gaussian: build the 3D covariance from scale and orientation,
//! transform the mean into camera space, discard Gaussians behind the near
//! plane, push the covariance through the camera Jacobian to a 2D covariance,
//! regularize it, invert it to a conic, derive a pixel radius from the larger
//! eigenvalue, and count the tiles the footprint overlaps.

use crate::fixed::{
    cadd, cneg, csub, dbl, fceil_pos, fclamp, fdiv, fmax, fmul, fsqrt, idiv, int_to_fix, sadd,
    sceil, sclamp, sdbl, sdiv, sfix, sidiv, smax, smul, sneg, ssqrt, ssub, FIX_ONE,
};
use crate::grid::{bbox_area, bbox_area_s, tile_bbox, tile_bbox_s};
use crate::types::{Cov2D, Cov3D, GsplatError, Mat3, Mat4, ProjectedSplat, Quat, SplatGrad, Vec2, Vec3};
use vstd::prelude::*;

verus! {

/// Diagonal low-pass regularizer added to every 2D covariance: 0.3 fixed.
pub const BLUR: i64 = 1288490188;

/// Camera-plane clamp factor for the projection Jacobian: 1.3 fixed.
pub const LIM_FACTOR: i64 = 5583457484;

/// Floor under the eigenvalue discriminant: 0.1 fixed.
pub const EIG_FLOOR: i64 = 429496729;

/// One half, fixed.
pub const HALF_FIX: i64 = 2147483648;

/// Near-plane clip threshold used when the caller does not give one: 0.01.
pub const CLIP_DEFAULT: i64 = 42949672;

/// Side of a screen tile in pixels.
pub const TILE_BLOCK: i64 = 16;

/// The rotation part of a view transform.
pub open spec fn view_rot_s(m: Mat4) -> Mat3 {
    Mat3 {
        m00: m.m00,
        m01: m.m01,
        m02: m.m02,
        m10: m.m10,
        m11: m.m11,
        m12: m.m12,
        m20: m.m20,
        m21: m.m21,
        m22: m.m22,
    }
}

/// Affine action of a 4x4 transform on a point.
pub open spec fn transform_point_s(m: Mat4, p: Vec3) -> Vec3 {
    Vec3 {
        x: sadd(sadd(smul(m.m00, p.x), smul(m.m01, p.y)), sadd(smul(m.m02, p.z), m.m03)),
        y: sadd(sadd(smul(m.m10, p.x), smul(m.m11, p.y)), sadd(smul(m.m12, p.z), m.m13)),
        z: sadd(sadd(smul(m.m20, p.x), smul(m.m21, p.y)), sadd(smul(m.m22, p.z), m.m23)),
    }
}

/// A quaternion scaled to unit length (zero quaternions collapse to zero).
pub open spec fn quat_norm_s(q: Quat) -> Quat {
    let n2 = sadd(sadd(smul(q.w, q.w), smul(q.x, q.x)), sadd(smul(q.y, q.y), smul(q.z, q.z)));
    let n = ssqrt(n2);
    Quat { w: sdiv(q.w, n), x: sdiv(q.x, n), y: sdiv(q.y, n), z: sdiv(q.z, n) }
}

/// Rotation matrix of a (normalized) quaternion.
#[verifier::opaque]
pub open spec fn quat_to_rotmat_s(q0: Quat) -> Mat3 {
    let q = quat_norm_s(q0);
    Mat3 {
        m00: ssub(FIX_ONE, sdbl(sadd(smul(q.y, q.y), smul(q.z, q.z)))),
        m01: sdbl(ssub(smul(q.x, q.y), smul(q.w, q.z))),
        m02: sdbl(sadd(smul(q.x, q.z), smul(q.w, q.y))),
        m10: sdbl(sadd(smul(q.x, q.y), smul(q.w, q.z))),
        m11: ssub(FIX_ONE, sdbl(sadd(smul(q.x, q.x), smul(q.z, q.z)))),
        m12: sdbl(ssub(smul(q.y, q.z), smul(q.w, q.x))),
        m20: sdbl(ssub(smul(q.x, q.z), smul(q.w, q.y))),
        m21: sdbl(sadd(smul(q.y, q.z), smul(q.w, q.x))),
        m22: ssub(FIX_ONE, sdbl(sadd(smul(q.x, q.x), smul(q.y, q.y)))),
    }
}

/// 3D covariance `M * M^T` with `M = R * diag(scale * glob_scale)`.
#[verifier::opaque]
pub open spec fn scale_rot_cov3d_s(scale: Vec3, glob: i64, q: Quat) -> Cov3D {
    let r = quat_to_rotmat_s(q);
    let sx = smul(scale.x, glob);
    let sy = smul(scale.y, glob);
    let sz = smul(scale.z, glob);
    let m00 = smul(r.m00, sx);
    let m01 = smul(r.m01, sy);
    let m02 = smul(r.m02, sz);
    let m10 = smul(r.m10, sx);
    let m11 = smul(r.m11, sy);
    let m12 = smul(r.m12, sz);
    let m20 = smul(r.m20, sx);
    let m21 = smul(r.m21, sy);
    let m22 = smul(r.m22, sz);
    Cov3D {
        xx: sadd(sadd(smul(m00, m00), smul(m01, m01)), smul(m02, m02)),
        xy: sadd(sadd(smul(m00, m10), smul(m01, m11)), smul(m02, m12)),
        xz: sadd(sadd(smul(m00, m20), smul(m01, m21)), smul(m02, m22)),
        yy: sadd(sadd(smul(m10, m10), smul(m11, m11)), smul(m12, m12)),
        yz: sadd(sadd(smul(m10, m20), smul(m11, m21)), smul(m12, m22)),
        zz: sadd(sadd(smul(m20, m20), smul(m21, m21)), smul(m22, m22)),
    }
}

/// Half-image tangent of the field of view.
pub open spec fn tan_fov_s(size: u32, focal: i64) -> i64 {
    sdiv(sidiv(sfix(size as i64), 2), focal)
}

/// 2D covariance of a Gaussian seen from a camera-space point `t`, by the
/// locally affine (first-order) approximation of the perspective projection.
#[verifier::opaque]
pub open spec fn project_cov2d_s(
    t: Vec3,
    c: Cov3D,
    w: Mat3,
    fx: i64,
    fy: i64,
    tan_fovx: i64,
    tan_fovy: i64,
) -> Cov2D {
    let limx = smul(LIM_FACTOR, tan_fovx);
    let limy = smul(LIM_FACTOR, tan_fovy);
    let tx = smul(sclamp(sdiv(t.x, t.z), sneg(limx), limx), t.z);
    let ty = smul(sclamp(sdiv(t.y, t.z), sneg(limy), limy), t.z);
    let rz = sdiv(FIX_ONE, t.z);
    let rz2 = smul(rz, rz);
    let j00 = smul(fx, rz);
    let j02 = sneg(smul(smul(fx, tx), rz2));
    let j11 = smul(fy, rz);
    let j12 = sneg(smul(smul(fy, ty), rz2));
    let t00 = sadd(smul(j00, w.m00), smul(j02, w.m20));
    let t01 = sadd(smul(j00, w.m01), smul(j02, w.m21));
    let t02 = sadd(smul(j00, w.m02), smul(j02, w.m22));
    let t10 = sadd(smul(j11, w.m10), smul(j12, w.m20));
    let t11 = sadd(smul(j11, w.m11), smul(j12, w.m21));
    let t12 = sadd(smul(j11, w.m12), smul(j12, w.m22));
    let u00 = sadd(sadd(smul(t00, c.xx), smul(t01, c.xy)), smul(t02, c.xz));
    let u01 = sadd(sadd(smul(t00, c.xy), smul(t01, c.yy)), smul(t02, c.yz));
    let u02 = sadd(sadd(smul(t00, c.xz), smul(t01, c.yz)), smul(t02, c.zz));
    let u10 = sadd(sadd(smul(t10, c.xx), smul(t11, c.xy)), smul(t12, c.xz));
    let u11 = sadd(sadd(smul(t10, c.xy), smul(t11, c.yy)), smul(t12, c.yz));
    let u12 = sadd(sadd(smul(t10, c.xz), smul(t11, c.yz)), smul(t12, c.zz));
    Cov2D {
        xx: sadd(sadd(smul(u00, t00), smul(u01, t01)), smul(u02, t02)),
        xy: sadd(sadd(smul(u00, t10), smul(u01, t11)), smul(u02, t12)),
        yy: sadd(sadd(smul(u10, t10), smul(u11, t11)), smul(u12, t12)),
    }
}

/// The low-pass regularizer on the diagonal.
pub open spec fn blur_cov2d_s(c: Cov2D) -> Cov2D {
    Cov2D { xx: sadd(c.xx, BLUR), xy: c.xy, yy: sadd(c.yy, BLUR) }
}

/// Determinant of a symmetric 2x2 matrix.
pub open spec fn det2_s(c: Cov2D) -> i64 {
    ssub(smul(c.xx, c.yy), smul(c.xy, c.xy))
}

/// Intensity compensation: `sqrt(det(c) / det(blur(c)))`, zero when the
/// ratio is not positive.
pub open spec fn compensation_s(c: Cov2D) -> i64 {
    ssqrt(sdiv(det2_s(c), det2_s(blur_cov2d_s(c))))
}

/// A 2D covariance is usable when it is not singular.
pub open spec fn cov2d_valid_s(c: Cov2D) -> bool {
    det2_s(c) != 0
}

/// Inverse of a symmetric 2x2 matrix (the conic of a covariance).
pub open spec fn conic_s(c: Cov2D) -> Cov2D {
    let det = det2_s(c);
    Cov2D { xx: sdiv(c.yy, det), xy: sneg(sdiv(c.xy, det)), yy: sdiv(c.xx, det) }
}

/// Pixel radius of a footprint: three standard deviations along the larger
/// eigenvalue of the 2D covariance, rounded up to whole pixels.
pub open spec fn radius_s(c: Cov2D) -> i64 {
    let det = det2_s(c);
    let b = sidiv(sadd(c.xx, c.yy), 2);
    let v1 = sadd(b, ssqrt(smax(ssub(smul(b, b), det), EIG_FLOOR)));
    sceil(smul(sfix(3), ssqrt(v1)))
}

/// Normalized device coordinate to pixel coordinate:
/// `0.5 * size * x + c - 0.5`.
pub open spec fn ndc2pix_s(x: i64, size_fix: i64, c: i64) -> i64 {
    sadd(ssub(sidiv(smul(x, size_fix), 2), HALF_FIX), c)
}

/// Screen position of a world point under a projection transform.
#[verifier::opaque]
pub open spec fn project_pix_s(proj: Mat4, p: Vec3, wfix: i64, hfix: i64, cx: i64, cy: i64)
    -> Vec2 {
    let hx = sadd(sadd(smul(proj.m00, p.x), smul(proj.m01, p.y)), sadd(smul(proj.m02, p.z), proj.m03));
    let hy = sadd(sadd(smul(proj.m10, p.x), smul(proj.m11, p.y)), sadd(smul(proj.m12, p.z), proj.m13));
    let hw = sadd(sadd(smul(proj.m30, p.x), smul(proj.m31, p.y)), sadd(smul(proj.m32, p.z), proj.m33));
    let rw = sdiv(FIX_ONE, hw);
    Vec2 { x: ndc2pix_s(smul(hx, rw), wfix, cx), y: ndc2pix_s(smul(hy, rw), hfix, cy) }
}

/// A Gaussian that takes no part in rasterization; `cov3d` is still reported
/// when it was computed before the Gaussian was excluded.
pub open spec fn excluded_splat_s(cov3d: Cov3D) -> ProjectedSplat {
    ProjectedSplat {
        cov3d,
        xy: Vec2 { x: 0, y: 0 },
        depth: 0,
        radius: 0,
        conic: Cov2D { xx: 0, xy: 0, yy: 0 },
        compensation: 0,
        num_tiles_hit: 0,
    }
}

/// Camera and grid parameters of one projection pass.
#[derive(Clone, Copy, Debug)]
pub struct ProjectGaussians {
    /// Multiplier applied to every scale.
    pub glob_scale: i64,
    pub fx: i64,
    pub fy: i64,
    pub cx: i64,
    pub cy: i64,
    pub img_height: u32,
    pub img_width: u32,
    /// Tiles per axis (the third entry is kept at one).
    pub tile_bounds: (u32, u32, u32),
    /// Gaussians at or behind this camera-space depth are excluded.
    pub clip_thresh: i64,
}

/// Everything the projector derives for one Gaussian; see the stage
/// functions above for each step.
#[verifier::opaque]
pub open spec fn project_splat_s(
    pg: ProjectGaussians,
    mean: Vec3,
    scale: Vec3,
    quat: Quat,
    view: Mat4,
    proj: Mat4,
) -> ProjectedSplat {
    let t = transform_point_s(view, mean);
    if t.z <= pg.clip_thresh {
        excluded_splat_s(Cov3D { xx: 0, xy: 0, xz: 0, yy: 0, yz: 0, zz: 0 })
    } else {
        let cov3d = scale_rot_cov3d_s(scale, pg.glob_scale, quat);
        let raw = project_cov2d_s(
            t,
            cov3d,
            view_rot_s(view),
            pg.fx,
            pg.fy,
            tan_fov_s(pg.img_width, pg.fx),
            tan_fov_s(pg.img_height, pg.fy),
        );
        let blurred = blur_cov2d_s(raw);
        if !cov2d_valid_s(blurred) {
            excluded_splat_s(cov3d)
        } else {
            let radius = radius_s(blurred);
            if radius <= 0 {
                excluded_splat_s(cov3d)
            } else {
                let center = project_pix_s(
                    proj,
                    mean,
                    sfix(pg.img_width as i64),
                    sfix(pg.img_height as i64),
                    pg.cx,
                    pg.cy,
                );
                let bbox = tile_bbox_s(center, radius, pg.tile_bounds.0, pg.tile_bounds.1, TILE_BLOCK);
                let area = bbox_area_s(bbox);
                if area == 0 {
                    excluded_splat_s(cov3d)
                } else {
                    ProjectedSplat {
                        cov3d,
                        xy: center,
                        depth: t.z,
                        radius,
                        conic: conic_s(blurred),
                        compensation: compensation_s(raw),
                        num_tiles_hit: area,
                    }
                }
            }
        }
    }
}

/// A footprint takes part in rasterization exactly when it has a positive
/// radius, and then it overlaps at least one tile.
#[verifier::rlimit(60)]
pub proof fn lemma_projected_splat_footprint(
    pg: ProjectGaussians,
    mean: Vec3,
    scale: Vec3,
    quat: Quat,
    view: Mat4,
    proj: Mat4,
)
    ensures
        project_splat_s(pg, mean, scale, quat, view, proj).radius == 0
            ==> project_splat_s(pg, mean, scale, quat, view, proj).num_tiles_hit == 0,
        project_splat_s(pg, mean, scale, quat, view, proj).radius > 0
            ==> project_splat_s(pg, mean, scale, quat, view, proj).num_tiles_hit >= 1,
{
    reveal(project_splat_s);
}

fn transform_point(m: Mat4, p: Vec3) -> (r: Vec3)
    ensures
        r == transform_point_s(m, p),
{
    Vec3 {
        x: cadd(cadd(fmul(m.m00, p.x), fmul(m.m01, p.y)), cadd(fmul(m.m02, p.z), m.m03)),
        y: cadd(cadd(fmul(m.m10, p.x), fmul(m.m11, p.y)), cadd(fmul(m.m12, p.z), m.m13)),
        z: cadd(cadd(fmul(m.m20, p.x), fmul(m.m21, p.y)), cadd(fmul(m.m22, p.z), m.m23)),
    }
}

fn quat_to_rotmat(q0: Quat) -> (r: Mat3)
    ensures
        r == quat_to_rotmat_s(q0),
{
    proof {
        reveal(quat_to_rotmat_s);
    }
    let n2 = cadd(cadd(fmul(q0.w, q0.w), fmul(q0.x, q0.x)), cadd(fmul(q0.y, q0.y), fmul(q0.z, q0.z)));
    let n = fsqrt(n2);
    let qw = fdiv(q0.w, n);
    let qx = fdiv(q0.x, n);
    let qy = fdiv(q0.y, n);
    let qz = fdiv(q0.z, n);
    Mat3 {
        m00: csub(FIX_ONE, dbl(cadd(fmul(qy, qy), fmul(qz, qz)))),
        m01: dbl(csub(fmul(qx, qy), fmul(qw, qz))),
        m02: dbl(cadd(fmul(qx, qz), fmul(qw, qy))),
        m10: dbl(cadd(fmul(qx, qy), fmul(qw, qz))),
        m11: csub(FIX_ONE, dbl(cadd(fmul(qx, qx), fmul(qz, qz)))),
        m12: dbl(csub(fmul(qy, qz), fmul(qw, qx))),
        m20: dbl(csub(fmul(qx, qz), fmul(qw, qy))),
        m21: dbl(cadd(fmul(qy, qz), fmul(qw, qx))),
        m22: csub(FIX_ONE, dbl(cadd(fmul(qx, qx), fmul(qy, qy)))),
    }
}

fn scale_rot_cov3d(scale: Vec3, glob: i64, q: Quat) -> (r: Cov3D)
    ensures
        r == scale_rot_cov3d_s(scale, glob, q),
{
    proof {
        reveal(scale_rot_cov3d_s);
    }
    let rm = quat_to_rotmat(q);
    let sx = fmul(scale.x, glob);
    let sy = fmul(scale.y, glob);
    let sz = fmul(scale.z, glob);
    let m00 = fmul(rm.m00, sx);
    let m01 = fmul(rm.m01, sy);
    let m02 = fmul(rm.m02, sz);
    let m10 = fmul(rm.m10, sx);
    let m11 = fmul(rm.m11, sy);
    let m12 = fmul(rm.m12, sz);
    let m20 = fmul(rm.m20, sx);
    let m21 = fmul(rm.m21, sy);
    let m22 = fmul(rm.m22, sz);
    Cov3D {
        xx: cadd(cadd(fmul(m00, m00), fmul(m01, m01)), fmul(m02, m02)),
        xy: cadd(cadd(fmul(m00, m10), fmul(m01, m11)), fmul(m02, m12)),
        xz: cadd(cadd(fmul(m00, m20), fmul(m01, m21)), fmul(m02, m22)),
        yy: cadd(cadd(fmul(m10, m10), fmul(m11, m11)), fmul(m12, m12)),
        yz: cadd(cadd(fmul(m10, m20), fmul(m11, m21)), fmul(m12, m22)),
        zz: cadd(cadd(fmul(m20, m20), fmul(m21, m21)), fmul(m22, m22)),
    }
}

#[verifier::rlimit(100)]
#[verifier::spinoff_prover]
fn project_cov2d(t: Vec3, c: Cov3D, w: Mat3, fx: i64, fy: i64, tan_fovx: i64, tan_fovy: i64) -> (r:
    Cov2D)
    ensures
        r == project_cov2d_s(t, c, w, fx, fy, tan_fovx, tan_fovy),
{
    proof {
        reveal(project_cov2d_s);
    }
    let limx = fmul(LIM_FACTOR, tan_fovx);
    let limy = fmul(LIM_FACTOR, tan_fovy);
    let tx = fmul(fclamp(fdiv(t.x, t.z), cneg(limx), limx), t.z);
    let ty = fmul(fclamp(fdiv(t.y, t.z), cneg(limy), limy), t.z);
    let rz = fdiv(FIX_ONE, t.z);
    let rz2 = fmul(rz, rz);
    let j00 = fmul(fx, rz);
    let j02 = cneg(fmul(fmul(fx, tx), rz2));
    let j11 = fmul(fy, rz);
    let j12 = cneg(fmul(fmul(fy, ty), rz2));
    let t00 = cadd(fmul(j00, w.m00), fmul(j02, w.m20));
    let t01 = cadd(fmul(j00, w.m01), fmul(j02, w.m21));
    let t02 = cadd(fmul(j00, w.m02), fmul(j02, w.m22));
    let t10 = cadd(fmul(j11, w.m10), fmul(j12, w.m20));
    let t11 = cadd(fmul(j11, w.m11), fmul(j12, w.m21));
    let t12 = cadd(fmul(j11, w.m12), fmul(j12, w.m22));
    let u00 = cadd(cadd(fmul(t00, c.xx), fmul(t01, c.xy)), fmul(t02, c.xz));
    let u01 = cadd(cadd(fmul(t00, c.xy), fmul(t01, c.yy)), fmul(t02, c.yz));
    let u02 = cadd(cadd(fmul(t00, c.xz), fmul(t01, c.yz)), fmul(t02, c.zz));
    let u10 = cadd(cadd(fmul(t10, c.xx), fmul(t11, c.xy)), fmul(t12, c.xz));
    let u11 = cadd(cadd(fmul(t10, c.xy), fmul(t11, c.yy)), fmul(t12, c.yz));
    let u12 = cadd(cadd(fmul(t10, c.xz), fmul(t11, c.yz)), fmul(t12, c.zz));
    Cov2D {
        xx: cadd(cadd(fmul(u00, t00), fmul(u01, t01)), fmul(u02, t02)),
        xy: cadd(cadd(fmul(u00, t10), fmul(u01, t11)), fmul(u02, t12)),
        yy: cadd(cadd(fmul(u10, t10), fmul(u11, t11)), fmul(u12, t12)),
    }
}

fn det2(c: Cov2D) -> (r: i64)
    ensures
        r == det2_s(c),
{
    csub(fmul(c.xx, c.yy), fmul(c.xy, c.xy))
}

fn conic_of(c: Cov2D) -> (r: Cov2D)
    ensures
        r == conic_s(c),
{
    let det = det2(c);
    Cov2D { xx: fdiv(c.yy, det), xy: cneg(fdiv(c.xy, det)), yy: fdiv(c.xx, det) }
}

fn radius_of(c: Cov2D) -> (r: i64)
    ensures
        r == radius_s(c),
{
    let det = det2(c);
    let b = idiv(cadd(c.xx, c.yy), 2);
    let v1 = cadd(b, fsqrt(fmax(csub(fmul(b, b), det), EIG_FLOOR)));
    fceil_pos(fmul(int_to_fix(3), fsqrt(v1)))
}

fn project_pix(proj: Mat4, p: Vec3, wfix: i64, hfix: i64, cx: i64, cy: i64) -> (r: Vec2)
    ensures
        r == project_pix_s(proj, p, wfix, hfix, cx, cy),
{
    proof {
        reveal(project_pix_s);
    }
    let hx = cadd(cadd(fmul(proj.m00, p.x), fmul(proj.m01, p.y)), cadd(fmul(proj.m02, p.z), proj.m03));
    let hy = cadd(cadd(fmul(proj.m10, p.x), fmul(proj.m11, p.y)), cadd(fmul(proj.m12, p.z), proj.m13));
    let hw = cadd(cadd(fmul(proj.m30, p.x), fmul(proj.m31, p.y)), cadd(fmul(proj.m32, p.z), proj.m33));
    let rw = fdiv(FIX_ONE, hw);
    let ndcx = fmul(hx, rw);
    let ndcy = fmul(hy, rw);
    Vec2 {
        x: cadd(csub(idiv(fmul(ndcx, wfix), 2), HALF_FIX), cx),
        y: cadd(csub(idiv(fmul(ndcy, hfix), 2), HALF_FIX), cy),
    }
}

fn excluded_splat(cov3d: Cov3D) -> (r: ProjectedSplat)
    ensures
        r == excluded_splat_s(cov3d),
{
    ProjectedSplat {
        cov3d,
        xy: Vec2 { x: 0, y: 0 },
        depth: 0,
        radius: 0,
        conic: Cov2D { xx: 0, xy: 0, yy: 0 },
        compensation: 0,
        num_tiles_hit: 0,
    }
}

/// Project one Gaussian; see [`project_splat_s`].
pub fn project_splat(pg: &ProjectGaussians, mean: Vec3, scale: Vec3, quat: Quat, view: Mat4, proj:
    Mat4) -> (r: ProjectedSplat)
    ensures
        r == project_splat_s(*pg, mean, scale, quat, view, proj),
{
    proof {
        reveal(project_splat_s);
    }
    let t = transform_point(view, mean);
    if t.z <= pg.clip_thresh {
        return excluded_splat(Cov3D { xx: 0, xy: 0, xz: 0, yy: 0, yz: 0, zz: 0 });
    }
    let cov3d = scale_rot_cov3d(scale, pg.glob_scale, quat);
    let raw = project_cov2d(
        t,
        cov3d,
        Mat3 {
            m00: view.m00,
            m01: view.m01,
            m02: view.m02,
            m10: view.m10,
            m11: view.m11,
            m12: view.m12,
            m20: view.m20,
            m21: view.m21,
            m22: view.m22,
        },
        pg.fx,
        pg.fy,
        fdiv(idiv(int_to_fix(pg.img_width as i64), 2), pg.fx),
        fdiv(idiv(int_to_fix(pg.img_height as i64), 2), pg.fy),
    );
    let blurred = Cov2D { xx: cadd(raw.xx, BLUR), xy: raw.xy, yy: cadd(raw.yy, BLUR) };
    let det = det2(blurred);
    if det == 0 {
        return excluded_splat(cov3d);
    }
    let radius = radius_of(blurred);
    if radius <= 0 {
        return excluded_splat(cov3d);
    }
    let center = project_pix(
        proj,
        mean,
        int_to_fix(pg.img_width as i64),
        int_to_fix(pg.img_height as i64),
        pg.cx,
        pg.cy,
    );
    let bbox = tile_bbox(center, radius, pg.tile_bounds.0, pg.tile_bounds.1, TILE_BLOCK);
    let area = bbox_area(bbox);
    if area == 0 {
        return excluded_splat(cov3d);
    }
    let comp_ratio = fdiv(det2(raw), det);
    ProjectedSplat {
        cov3d,
        xy: center,
        depth: t.z,
        radius,
        conic: conic_of(blurred),
        compensation: fsqrt(comp_ratio),
        num_tiles_hit: area,
    }
}

/// Conic and radius derived from one (already regularized) 2D covariance;
/// a singular covariance yields zeros.
pub open spec fn cov2d_bounds_s(c: Cov2D) -> (Cov2D, i64) {
    if cov2d_valid_s(c) {
        (conic_s(c), radius_s(c))
    } else {
        (Cov2D { xx: 0, xy: 0, yy: 0 }, 0)
    }
}

/// Conics and radii of a batch of 2D covariances; see [`cov2d_bounds_s`].
pub fn compute_cov2d_bounds(cov2d: &Vec<Cov2D>) -> (r: (Vec<Cov2D>, Vec<i64>))
    requires
        cov2d.len() > 0,
    ensures
        r.0.len() == cov2d.len(),
        r.1.len() == cov2d.len(),
        forall|i: int|
            0 <= i < cov2d.len() ==> #[trigger] r.0@[i] == cov2d_bounds_s(cov2d@[i]).0,
        forall|i: int|
            0 <= i < cov2d.len() ==> #[trigger] r.1@[i] == cov2d_bounds_s(cov2d@[i]).1,
{
    let mut conics: Vec<Cov2D> = Vec::new();
    let mut radii: Vec<i64> = Vec::new();
    let n = cov2d.len();
    let mut i: usize = 0;
    while i < n
        invariant
            i <= n,
            n == cov2d.len(),
            conics.len() == i,
            radii.len() == i,
            forall|j: int| 0 <= j < i ==> #[trigger] conics@[j] == cov2d_bounds_s(cov2d@[j]).0,
            forall|j: int| 0 <= j < i ==> #[trigger] radii@[j] == cov2d_bounds_s(cov2d@[j]).1,
        decreases n - i,
    {
        let c = cov2d[i];
        let det = det2(c);
        if det != 0 {
            conics.push(conic_of(c));
            radii.push(radius_of(c));
        } else {
            conics.push(Cov2D { xx: 0, xy: 0, yy: 0 });
            radii.push(0);
        }
        i = i + 1;
    }
    (conics, radii)
}

impl ProjectGaussians {
    /// Project every Gaussian of a scene.  Succeeds exactly when the three
    /// per-Gaussian inputs have one entry each per Gaussian; each output
    /// entry is pinned by [`project_splat_s`], and a footprint takes part in
    /// rasterization exactly when its radius is positive.
    pub fn fwd(
        &self,
        means3d: &Vec<Vec3>,
        scales: &Vec<Vec3>,
        quats: &Vec<Quat>,
        viewmat: &Mat4,
        projmat: &Mat4,
    ) -> (r: Result<Vec<ProjectedSplat>, GsplatError>)
        ensures
            r is Ok <==> (means3d.len() == scales.len() && means3d.len() == quats.len()),
            r is Err ==> r == Result::<Vec<ProjectedSplat>, GsplatError>::Err(
                GsplatError::MismatchedInputs,
            ),
            r is Ok ==> r->Ok_0.len() == means3d.len(),
            r is Ok ==> forall|i: int|
                0 <= i < means3d.len() ==> #[trigger] r->Ok_0@[i] == project_splat_s(
                    *self,
                    means3d@[i],
                    scales@[i],
                    quats@[i],
                    *viewmat,
                    *projmat,
                ),
            r is Ok ==> forall|i: int|
                0 <= i < means3d.len() ==> ((#[trigger] r->Ok_0@[i].radius == 0
                    ==> r->Ok_0@[i].num_tiles_hit == 0) && (r->Ok_0@[i].radius > 0
                    ==> r->Ok_0@[i].num_tiles_hit >= 1)),
    {
        let n = means3d.len();
        if scales.len() != n || quats.len() != n {
            return Err(GsplatError::MismatchedInputs);
        }
        let mut out: Vec<ProjectedSplat> = Vec::new();
        let mut i: usize = 0;
        while i < n
            invariant
                i <= n,
                n == means3d.len(),
                n == scales.len(),
                n == quats.len(),
                out.len() == i,
                forall|j: int|
                    0 <= j < i ==> #[trigger] out@[j] == project_splat_s(
                        *self,
                        means3d@[j],
                        scales@[j],
                        quats@[j],
                        *viewmat,
                        *projmat,
                    ),
            decreases n - i,
        {
            out.push(project_splat(self, means3d[i], scales[i], quats[i], *viewmat, *projmat));
            i = i + 1;
        }
        proof {
            assert forall|i: int|
                0 <= i < means3d.len() implies ((#[trigger] out@[i].radius == 0
                ==> out@[i].num_tiles_hit == 0) && (out@[i].radius > 0 ==> out@[i].num_tiles_hit
                >= 1)) by {
                lemma_projected_splat_footprint(
                    *self,
                    means3d@[i],
                    scales@[i],
                    quats@[i],
                    *viewmat,
                    *projmat,
                );
            }
        }
        Ok(out)
    }
}

/// The clip threshold an optional argument denotes.
pub open spec fn clip_or_default_s(c: Option<i64>) -> i64 {
    match c {
        Option::Some(v) => v,
        Option::None => CLIP_DEFAULT,
    }
}

/// The parameter record that the free-standing projection entry point
/// assembles from its arguments.
pub open spec fn project_params_s(
    glob_scale: i64,
    fx: i64,
    fy: i64,
    cx: i64,
    cy: i64,
    img_height: u32,
    img_width: u32,
    tile_bounds: (u32, u32, u32),
    clip_thresh: Option<i64>,
) -> ProjectGaussians {
    ProjectGaussians {
        glob_scale,
        fx,
        fy,
        cx,
        cy,
        img_height,
        img_width,
        tile_bounds,
        clip_thresh: clip_or_default_s(clip_thresh),
    }
}

/// Project a scene and hand the per-Gaussian outputs back as parallel
/// arrays: 3D covariances, screen centers, depths, radii, conics,
/// compensations, and tile-hit counts.
#[verifier::rlimit(100)]
#[verifier::spinoff_prover]
pub fn project_gaussians(
    means3d: &Vec<Vec3>,
    scales: &Vec<Vec3>,
    glob_scale: i64,
    quats: &Vec<Quat>,
    viewmat: &Mat4,
    projmat: &Mat4,
    fx: i64,
    fy: i64,
    cx: i64,
    cy: i64,
    img_height: u32,
    img_width: u32,
    tile_bounds: (u32, u32, u32),
    clip_thresh: Option<i64>,
) -> (r: Result<(Vec<Cov3D>, Vec<Vec2>, Vec<i64>, Vec<i64>, Vec<Cov2D>, Vec<i64>, Vec<u64>),
    GsplatError>)
    ensures
        r is Ok <==> (means3d.len() == scales.len() && means3d.len() == quats.len()),
        r is Ok ==> {
            let pg = project_params_s(
                glob_scale,
                fx,
                fy,
                cx,
                cy,
                img_height,
                img_width,
                tile_bounds,
                clip_thresh,
            );
            let out = r->Ok_0;
            &&& out.0.len() == means3d.len()
            &&& out.1.len() == means3d.len()
            &&& out.2.len() == means3d.len()
            &&& out.3.len() == means3d.len()
            &&& out.4.len() == means3d.len()
            &&& out.5.len() == means3d.len()
            &&& out.6.len() == means3d.len()
            &&& forall|i: int|
                0 <= i < means3d.len() ==> {
                    let s = #[trigger] project_splat_s(
                        pg,
                        means3d@[i],
                        scales@[i],
                        quats@[i],
                        *viewmat,
                        *projmat,
                    );
                    out.0@[i] == s.cov3d && out.1@[i] == s.xy && out.2@[i] == s.depth && out.3@[i]
                        == s.radius && out.4@[i] == s.conic && out.5@[i] == s.compensation
                        && out.6@[i] == s.num_tiles_hit
                }
        },
{
    let pg = ProjectGaussians {
        glob_scale,
        fx,
        fy,
        cx,
        cy,
        img_height,
        img_width,
        tile_bounds,
        clip_thresh: match clip_thresh {
            Some(v) => v,
            None => CLIP_DEFAULT,
        },
    };
    proof {
        assert(pg == project_params_s(
            glob_scale,
            fx,
            fy,
            cx,
            cy,
            img_height,
            img_width,
            tile_bounds,
            clip_thresh,
        ));
    }
    let splats = match pg.fwd(means3d, scales, quats, viewmat, projmat) {
        Ok(s) => s,
        Err(e) => {
            return Err(e);
        },
    };
    let mut cov3d: Vec<Cov3D> = Vec::new();
    let mut xys: Vec<Vec2> = Vec::new();
    let mut depths: Vec<i64> = Vec::new();
    let mut radii: Vec<i64> = Vec::new();
    let mut conics: Vec<Cov2D> = Vec::new();
    let mut compensation: Vec<i64> = Vec::new();
    let mut num_tiles_hit: Vec<u64> = Vec::new();
    let n = splats.len();
    let mut i: usize = 0;
    while i < n
        invariant
            i <= n,
            n == splats.len(),
            cov3d.len() == i,
            xys.len() == i,
            depths.len() == i,
            radii.len() == i,
            conics.len() == i,
            compensation.len() == i,
            num_tiles_hit.len() == i,
            forall|j: int|
                0 <= j < i ==> {
                    let s = #[trigger] splats@[j];
                    cov3d@[j] == s.cov3d && xys@[j] == s.xy && depths@[j] == s.depth && radii@[j]
                        == s.radius && conics@[j] == s.conic && compensation@[j] == s.compensation
                        && num_tiles_hit@[j] == s.num_tiles_hit
                },
        decreases n - i,
    {
        let s = splats[i];
        cov3d.push(s.cov3d);
        xys.push(s.xy);
        depths.push(s.depth);
        radii.push(s.radius);
        conics.push(s.conic);
        compensation.push(s.compensation);
        num_tiles_hit.push(s.num_tiles_hit);
        i = i + 1;
    }
    proof {
        assert forall|k: int| 0 <= k < n implies {
            let s = #[trigger] project_splat_s(
                pg,
                means3d@[k],
                scales@[k],
                quats@[k],
                *viewmat,
                *projmat,
            );
            cov3d@[k] == s.cov3d && xys@[k] == s.xy && depths@[k] == s.depth && radii@[k]
                == s.radius && conics@[k] == s.conic && compensation@[k] == s.compensation
                && num_tiles_hit@[k] == s.num_tiles_hit
        } by {
            assert(splats@[k] == project_splat_s(
                pg,
                means3d@[k],
                scales@[k],
                quats@[k],
                *viewmat,
                *projmat,
            ));
        }
    }
    Ok((cov3d, xys, depths, radii, conics, compensation, num_tiles_hit))
}

/// Gradient of the loss with respect to a 2D covariance, given the
/// gradient with respect to its inverse (the conic `c`).
pub open spec fn conic_vjp_s(c: Cov2D, v: Cov2D) -> Cov2D {
    Cov2D {
        xx: sneg(
            sadd(sadd(smul(smul(c.xx, c.xx), v.xx), smul(smul(c.xx, c.xy), v.xy)), smul(smul(c.xy, c.xy), v.yy)),
        ),
        xy: sneg(
            sadd(
                sadd(sdbl(smul(smul(c.xx, c.xy), v.xx)), smul(sadd(smul(c.xx, c.yy), smul(c.xy, c.xy)), v.xy)),
                sdbl(smul(smul(c.xy, c.yy), v.yy)),
            ),
        ),
        yy: sneg(
            sadd(sadd(smul(smul(c.xy, c.xy), v.xx), smul(smul(c.xy, c.yy), v.xy)), smul(smul(c.yy, c.yy), v.yy)),
        ),
    }
}

fn conic_vjp(c: Cov2D, v: Cov2D) -> (r: Cov2D)
    ensures
        r == conic_vjp_s(c, v),
{
    Cov2D {
        xx: cneg(
            cadd(cadd(fmul(fmul(c.xx, c.xx), v.xx), fmul(fmul(c.xx, c.xy), v.xy)), fmul(fmul(c.xy, c.xy), v.yy)),
        ),
        xy: cneg(
            cadd(
                cadd(dbl(fmul(fmul(c.xx, c.xy), v.xx)), fmul(cadd(fmul(c.xx, c.yy), fmul(c.xy, c.xy)), v.xy)),
                dbl(fmul(fmul(c.xy, c.yy), v.yy)),
            ),
        ),
        yy: cneg(
            cadd(cadd(fmul(fmul(c.xy, c.xy), v.xx), fmul(fmul(c.xy, c.yy), v.xy)), fmul(fmul(c.yy, c.yy), v.yy)),
        ),
    }
}

/// Gradients of the loss with respect to the 3D covariance and the
/// camera-space point, given the gradient with respect to the (regularized)
/// 2D covariance; the transpose of the projection step.
#[verifier::opaque]
pub open spec fn cov2d_vjp_s(
    t: Vec3,
    c: Cov3D,
    w: Mat3,
    fx: i64,
    fy: i64,
    tan_fovx: i64,
    tan_fovy: i64,
    vb: Cov2D,
) -> (Cov3D, Vec3) {
    let limx = smul(LIM_FACTOR, tan_fovx);
    let limy = smul(LIM_FACTOR, tan_fovy);
    let tx = smul(sclamp(sdiv(t.x, t.z), sneg(limx), limx), t.z);
    let ty = smul(sclamp(sdiv(t.y, t.z), sneg(limy), limy), t.z);
    let rz = sdiv(FIX_ONE, t.z);
    let rz2 = smul(rz, rz);
    let rz3 = smul(rz2, rz);
    let j00 = smul(fx, rz);
    let j02 = sneg(smul(smul(fx, tx), rz2));
    let j11 = smul(fy, rz);
    let j12 = sneg(smul(smul(fy, ty), rz2));
    let t00 = sadd(smul(j00, w.m00), smul(j02, w.m20));
    let t01 = sadd(smul(j00, w.m01), smul(j02, w.m21));
    let t02 = sadd(smul(j00, w.m02), smul(j02, w.m22));
    let t10 = sadd(smul(j11, w.m10), smul(j12, w.m20));
    let t11 = sadd(smul(j11, w.m11), smul(j12, w.m21));
    let t12 = sadd(smul(j11, w.m12), smul(j12, w.m22));
    let u00 = sadd(sadd(smul(t00, c.xx), smul(t01, c.xy)), smul(t02, c.xz));
    let u01 = sadd(sadd(smul(t00, c.xy), smul(t01, c.yy)), smul(t02, c.yz));
    let u02 = sadd(sadd(smul(t00, c.xz), smul(t01, c.yz)), smul(t02, c.zz));
    let u10 = sadd(sadd(smul(t10, c.xx), smul(t11, c.xy)), smul(t12, c.xz));
    let u11 = sadd(sadd(smul(t10, c.xy), smul(t11, c.yy)), smul(t12, c.yz));
    let u12 = sadd(sadd(smul(t10, c.xz), smul(t11, c.yz)), smul(t12, c.zz));
    let g00 = vb.xx;
    let g01 = sidiv(vb.xy, 2);
    let g11 = vb.yy;
    let vv00 = sadd(sadd(smul(smul(t00, g00), t00), sdbl(smul(smul(t00, g01), t10))), smul(smul(t10, g11), t10));
    let vv01 = sadd(
        sadd(smul(smul(t00, g00), t01), sadd(smul(smul(t00, g01), t11), smul(smul(t10, g01), t01))),
        smul(smul(t10, g11), t11),
    );
    let vv02 = sadd(
        sadd(smul(smul(t00, g00), t02), sadd(smul(smul(t00, g01), t12), smul(smul(t10, g01), t02))),
        smul(smul(t10, g11), t12),
    );
    let vv11 = sadd(sadd(smul(smul(t01, g00), t01), sdbl(smul(smul(t01, g01), t11))), smul(smul(t11, g11), t11));
    let vv12 = sadd(
        sadd(smul(smul(t01, g00), t02), sadd(smul(smul(t01, g01), t12), smul(smul(t11, g01), t02))),
        smul(smul(t11, g11), t12),
    );
    let vv22 = sadd(sadd(smul(smul(t02, g00), t02), sdbl(smul(smul(t02, g01), t12))), smul(smul(t12, g11), t12));
    let v_cov3d = Cov3D {
        xx: vv00,
        xy: sdbl(vv01),
        xz: sdbl(vv02),
        yy: vv11,
        yz: sdbl(vv12),
        zz: vv22,
    };
    let vt00 = sdbl(sadd(smul(g00, u00), smul(g01, u10)));
    let vt01 = sdbl(sadd(smul(g00, u01), smul(g01, u11)));
    let vt02 = sdbl(sadd(smul(g00, u02), smul(g01, u12)));
    let vt10 = sdbl(sadd(smul(g01, u00), smul(g11, u10)));
    let vt11 = sdbl(sadd(smul(g01, u01), smul(g11, u11)));
    let vt12 = sdbl(sadd(smul(g01, u02), smul(g11, u12)));
    let vj00 = sadd(sadd(smul(vt00, w.m00), smul(vt01, w.m01)), smul(vt02, w.m02));
    let vj02 = sadd(sadd(smul(vt00, w.m20), smul(vt01, w.m21)), smul(vt02, w.m22));
    let vj11 = sadd(sadd(smul(vt10, w.m10), smul(vt11, w.m11)), smul(vt12, w.m12));
    let vj12 = sadd(sadd(smul(vt10, w.m20), smul(vt11, w.m21)), smul(vt12, w.m22));
    let v_t = Vec3 {
        x: sneg(smul(smul(fx, rz2), vj02)),
        y: sneg(smul(smul(fy, rz2), vj12)),
        z: sadd(
            sadd(sneg(smul(smul(fx, rz2), vj00)), sdbl(smul(smul(smul(fx, tx), rz3), vj02))),
            sadd(sneg(smul(smul(fy, rz2), vj11)), sdbl(smul(smul(smul(fy, ty), rz3), vj12))),
        ),
    };
    (v_cov3d, v_t)
}

#[verifier::rlimit(100)]
#[verifier::spinoff_prover]
fn cov2d_vjp(t: Vec3, c: Cov3D, w: Mat3, fx: i64, fy: i64, tan_fovx: i64, tan_fovy: i64, vb: Cov2D)
    -> (r: (Cov3D, Vec3))
    ensures
        r == cov2d_vjp_s(t, c, w, fx, fy, tan_fovx, tan_fovy, vb),
{
    proof {
        reveal(cov2d_vjp_s);
    }
    let limx = fmul(LIM_FACTOR, tan_fovx);
    let limy = fmul(LIM_FACTOR, tan_fovy);
    let tx = fmul(fclamp(fdiv(t.x, t.z), cneg(limx), limx), t.z);
    let ty = fmul(fclamp(fdiv(t.y, t.z), cneg(limy), limy), t.z);
    let rz = fdiv(FIX_ONE, t.z);
    let rz2 = fmul(rz, rz);
    let rz3 = fmul(rz2, rz);
    let j00 = fmul(fx, rz);
    let j02 = cneg(fmul(fmul(fx, tx), rz2));
    let j11 = fmul(fy, rz);
    let j12 = cneg(fmul(fmul(fy, ty), rz2));
    let t00 = cadd(fmul(j00, w.m00), fmul(j02, w.m20));
    let t01 = cadd(fmul(j00, w.m01), fmul(j02, w.m21));
    let t02 = cadd(fmul(j00, w.m02), fmul(j02, w.m22));
    let t10 = cadd(fmul(j11, w.m10), fmul(j12, w.m20));
    let t11 = cadd(fmul(j11, w.m11), fmul(j12, w.m21));
    let t12 = cadd(fmul(j11, w.m12), fmul(j12, w.m22));
    let u00 = cadd(cadd(fmul(t00, c.xx), fmul(t01, c.xy)), fmul(t02, c.xz));
    let u01 = cadd(cadd(fmul(t00, c.xy), fmul(t01, c.yy)), fmul(t02, c.yz));
    let u02 = cadd(cadd(fmul(t00, c.xz), fmul(t01, c.yz)), fmul(t02, c.zz));
    let u10 = cadd(cadd(fmul(t10, c.xx), fmul(t11, c.xy)), fmul(t12, c.xz));
    let u11 = cadd(cadd(fmul(t10, c.xy), fmul(t11, c.yy)), fmul(t12, c.yz));
    let u12 = cadd(cadd(fmul(t10, c.xz), fmul(t11, c.yz)), fmul(t12, c.zz));
    let g00 = vb.xx;
    let g01 = idiv(vb.xy, 2);
    let g11 = vb.yy;
    let vv00 = cadd(cadd(fmul(fmul(t00, g00), t00), dbl(fmul(fmul(t00, g01), t10))), fmul(fmul(t10, g11), t10));
    let vv01 = cadd(
        cadd(fmul(fmul(t00, g00), t01), cadd(fmul(fmul(t00, g01), t11), fmul(fmul(t10, g01), t01))),
        fmul(fmul(t10, g11), t11),
    );
    let vv02 = cadd(
        cadd(fmul(fmul(t00, g00), t02), cadd(fmul(fmul(t00, g01), t12), fmul(fmul(t10, g01), t02))),
        fmul(fmul(t10, g11), t12),
    );
    let vv11 = cadd(cadd(fmul(fmul(t01, g00), t01), dbl(fmul(fmul(t01, g01), t11))), fmul(fmul(t11, g11), t11));
    let vv12 = cadd(
        cadd(fmul(fmul(t01, g00), t02), cadd(fmul(fmul(t01, g01), t12), fmul(fmul(t11, g01), t02))),
        fmul(fmul(t11, g11), t12),
    );
    let vv22 = cadd(cadd(fmul(fmul(t02, g00), t02), dbl(fmul(fmul(t02, g01), t12))), fmul(fmul(t12, g11), t12));
    let v_cov3d = Cov3D {
        xx: vv00,
        xy: dbl(vv01),
        xz: dbl(vv02),
        yy: vv11,
        yz: dbl(vv12),
        zz: vv22,
    };
    let vt00 = dbl(cadd(fmul(g00, u00), fmul(g01, u10)));
    let vt01 = dbl(cadd(fmul(g00, u01), fmul(g01, u11)));
    let vt02 = dbl(cadd(fmul(g00, u02), fmul(g01, u12)));
    let vt10 = dbl(cadd(fmul(g01, u00), fmul(g11, u10)));
    let vt11 = dbl(cadd(fmul(g01, u01), fmul(g11, u11)));
    let vt12 = dbl(cadd(fmul(g01, u02), fmul(g11, u12)));
    let vj00 = cadd(cadd(fmul(vt00, w.m00), fmul(vt01, w.m01)), fmul(vt02, w.m02));
    let vj02 = cadd(cadd(fmul(vt00, w.m20), fmul(vt01, w.m21)), fmul(vt02, w.m22));
    let vj11 = cadd(cadd(fmul(vt10, w.m10), fmul(vt11, w.m11)), fmul(vt12, w.m12));
    let vj12 = cadd(cadd(fmul(vt10, w.m20), fmul(vt11, w.m21)), fmul(vt12, w.m22));
    let v_t = Vec3 {
        x: cneg(fmul(fmul(fx, rz2), vj02)),
        y: cneg(fmul(fmul(fy, rz2), vj12)),
        z: cadd(
            cadd(cneg(fmul(fmul(fx, rz2), vj00)), dbl(fmul(fmul(fmul(fx, tx), rz3), vj02))),
            cadd(cneg(fmul(fmul(fy, rz2), vj11)), dbl(fmul(fmul(fmul(fy, ty), rz3), vj12))),
        ),
    };
    (v_cov3d, v_t)
}

/// Gradient of the loss with respect to the world-space mean through the
/// screen-position step; the transpose of [`project_pix_s`].
#[verifier::opaque]
pub open spec fn pix_vjp_s(proj: Mat4, p: Vec3, wfix: i64, hfix: i64, v_xy: Vec2) -> Vec3 {
    let hx = sadd(sadd(smul(proj.m00, p.x), smul(proj.m01, p.y)), sadd(smul(proj.m02, p.z), proj.m03));
    let hy = sadd(sadd(smul(proj.m10, p.x), smul(proj.m11, p.y)), sadd(smul(proj.m12, p.z), proj.m13));
    let hw = sadd(sadd(smul(proj.m30, p.x), smul(proj.m31, p.y)), sadd(smul(proj.m32, p.z), proj.m33));
    let rw = sdiv(FIX_ONE, hw);
    let vnx = sidiv(smul(wfix, v_xy.x), 2);
    let vny = sidiv(smul(hfix, v_xy.y), 2);
    let vpx = smul(vnx, rw);
    let vpy = smul(vny, rw);
    let vpw = sneg(smul(sadd(smul(vnx, hx), smul(vny, hy)), smul(rw, rw)));
    Vec3 {
        x: sadd(sadd(smul(proj.m00, vpx), smul(proj.m10, vpy)), smul(proj.m30, vpw)),
        y: sadd(sadd(smul(proj.m01, vpx), smul(proj.m11, vpy)), smul(proj.m31, vpw)),
        z: sadd(sadd(smul(proj.m02, vpx), smul(proj.m12, vpy)), smul(proj.m32, vpw)),
    }
}

fn pix_vjp(proj: Mat4, p: Vec3, wfix: i64, hfix: i64, v_xy: Vec2) -> (r: Vec3)
    ensures
        r == pix_vjp_s(proj, p, wfix, hfix, v_xy),
{
    proof {
        reveal(pix_vjp_s);
    }
    let hx = cadd(cadd(fmul(proj.m00, p.x), fmul(proj.m01, p.y)), cadd(fmul(proj.m02, p.z), proj.m03));
    let hy = cadd(cadd(fmul(proj.m10, p.x), fmul(proj.m11, p.y)), cadd(fmul(proj.m12, p.z), proj.m13));
    let hw = cadd(cadd(fmul(proj.m30, p.x), fmul(proj.m31, p.y)), cadd(fmul(proj.m32, p.z), proj.m33));
    let rw = fdiv(FIX_ONE, hw);
    let vnx = idiv(fmul(wfix, v_xy.x), 2);
    let vny = idiv(fmul(hfix, v_xy.y), 2);
    let vpx = fmul(vnx, rw);
    let vpy = fmul(vny, rw);
    let vpw = cneg(fmul(cadd(fmul(vnx, hx), fmul(vny, hy)), fmul(rw, rw)));
    Vec3 {
        x: cadd(cadd(fmul(proj.m00, vpx), fmul(proj.m10, vpy)), fmul(proj.m30, vpw)),
        y: cadd(cadd(fmul(proj.m01, vpx), fmul(proj.m11, vpy)), fmul(proj.m31, vpw)),
        z: cadd(cadd(fmul(proj.m02, vpx), fmul(proj.m12, vpy)), fmul(proj.m32, vpw)),
    }
}

/// Gradients of the loss with respect to scale and orientation through the
/// covariance-from-quaternion step; the transpose of [`scale_rot_cov3d_s`].
#[verifier::opaque]
pub open spec fn cov3d_vjp_s(scale: Vec3, glob: i64, q0: Quat, vc: Cov3D) -> (Vec3, Quat) {
    let r = quat_to_rotmat_s(q0);
    let sx = smul(scale.x, glob);
    let sy = smul(scale.y, glob);
    let sz = smul(scale.z, glob);
    let m00 = smul(r.m00, sx);
    let m01 = smul(r.m01, sy);
    let m02 = smul(r.m02, sz);
    let m10 = smul(r.m10, sx);
    let m11 = smul(r.m11, sy);
    let m12 = smul(r.m12, sz);
    let m20 = smul(r.m20, sx);
    let m21 = smul(r.m21, sy);
    let m22 = smul(r.m22, sz);
    let g01 = sidiv(vc.xy, 2);
    let g02 = sidiv(vc.xz, 2);
    let g12 = sidiv(vc.yz, 2);
    let vm00 = sdbl(sadd(sadd(smul(vc.xx, m00), smul(g01, m10)), smul(g02, m20)));
    let vm01 = sdbl(sadd(sadd(smul(vc.xx, m01), smul(g01, m11)), smul(g02, m21)));
    let vm02 = sdbl(sadd(sadd(smul(vc.xx, m02), smul(g01, m12)), smul(g02, m22)));
    let vm10 = sdbl(sadd(sadd(smul(g01, m00), smul(vc.yy, m10)), smul(g12, m20)));
    let vm11 = sdbl(sadd(sadd(smul(g01, m01), smul(vc.yy, m11)), smul(g12, m21)));
    let vm12 = sdbl(sadd(sadd(smul(g01, m02), smul(vc.yy, m12)), smul(g12, m22)));
    let vm20 = sdbl(sadd(sadd(smul(g02, m00), smul(g12, m10)), smul(vc.zz, m20)));
    let vm21 = sdbl(sadd(sadd(smul(g02, m01), smul(g12, m11)), smul(vc.zz, m21)));
    let vm22 = sdbl(sadd(sadd(smul(g02, m02), smul(g12, m12)), smul(vc.zz, m22)));
    let v_scale = Vec3 {
        x: smul(glob, sadd(sadd(smul(r.m00, vm00), smul(r.m10, vm10)), smul(r.m20, vm20))),
        y: smul(glob, sadd(sadd(smul(r.m01, vm01), smul(r.m11, vm11)), smul(r.m21, vm21))),
        z: smul(glob, sadd(sadd(smul(r.m02, vm02), smul(r.m12, vm12)), smul(r.m22, vm22))),
    };
    let vr00 = smul(vm00, sx);
    let vr01 = smul(vm01, sy);
    let vr02 = smul(vm02, sz);
    let vr10 = smul(vm10, sx);
    let vr11 = smul(vm11, sy);
    let vr12 = smul(vm12, sz);
    let vr20 = smul(vm20, sx);
    let vr21 = smul(vm21, sy);
    let vr22 = smul(vm22, sz);
    let qn = quat_norm_s(q0);
    let vqw = sdbl(
        sadd(
            sadd(sneg(smul(qn.z, vr01)), smul(qn.y, vr02)),
            sadd(
                sadd(smul(qn.z, vr10), sneg(smul(qn.x, vr12))),
                sadd(sneg(smul(qn.y, vr20)), smul(qn.x, vr21)),
            ),
        ),
    );
    let vqx = sdbl(
        sadd(
            sadd(smul(qn.y, vr01), smul(qn.z, vr02)),
            sadd(
                sadd(smul(qn.y, vr10), sneg(sdbl(smul(qn.x, vr11)))),
                sadd(
                    sadd(sneg(smul(qn.w, vr12)), smul(qn.z, vr20)),
                    sadd(smul(qn.w, vr21), sneg(sdbl(smul(qn.x, vr22)))),
                ),
            ),
        ),
    );
    let vqy = sdbl(
        sadd(
            sadd(sneg(sdbl(smul(qn.y, vr00))), smul(qn.x, vr01)),
            sadd(
                sadd(smul(qn.w, vr02), smul(qn.x, vr10)),
                sadd(
                    sadd(smul(qn.z, vr12), sneg(smul(qn.w, vr20))),
                    sadd(smul(qn.z, vr21), sneg(sdbl(smul(qn.y, vr22)))),
                ),
            ),
        ),
    );
    let vqz = sdbl(
        sadd(
            sadd(sneg(sdbl(smul(qn.z, vr00))), sneg(smul(qn.w, vr01))),
            sadd(
                sadd(smul(qn.x, vr02), smul(qn.w, vr10)),
                sadd(
                    sadd(sneg(sdbl(smul(qn.z, vr11))), smul(qn.y, vr12)),
                    sadd(smul(qn.x, vr20), smul(qn.y, vr21)),
                ),
            ),
        ),
    );
    let n2 = sadd(sadd(smul(q0.w, q0.w), smul(q0.x, q0.x)), sadd(smul(q0.y, q0.y), smul(q0.z, q0.z)));
    let invn = sdiv(FIX_ONE, ssqrt(n2));
    let dot = sadd(sadd(smul(qn.w, vqw), smul(qn.x, vqx)), sadd(smul(qn.y, vqy), smul(qn.z, vqz)));
    let v_quat = Quat {
        w: smul(invn, ssub(vqw, smul(qn.w, dot))),
        x: smul(invn, ssub(vqx, smul(qn.x, dot))),
        y: smul(invn, ssub(vqy, smul(qn.y, dot))),
        z: smul(invn, ssub(vqz, smul(qn.z, dot))),
    };
    (v_scale, v_quat)
}

#[verifier::rlimit(100)]
#[verifier::spinoff_prover]
fn cov3d_vjp(scale: Vec3, glob: i64, q0: Quat, vc: Cov3D) -> (res: (Vec3, Quat))
    ensures
        res == cov3d_vjp_s(scale, glob, q0, vc),
{
    proof {
        reveal(cov3d_vjp_s);
    }
    let r = quat_to_rotmat(q0);
    let sx = fmul(scale.x, glob);
    let sy = fmul(scale.y, glob);
    let sz = fmul(scale.z, glob);
    let m00 = fmul(r.m00, sx);
    let m01 = fmul(r.m01, sy);
    let m02 = fmul(r.m02, sz);
    let m10 = fmul(r.m10, sx);
    let m11 = fmul(r.m11, sy);
    let m12 = fmul(r.m12, sz);
    let m20 = fmul(r.m20, sx);
    let m21 = fmul(r.m21, sy);
    let m22 = fmul(r.m22, sz);
    let g01 = idiv(vc.xy, 2);
    let g02 = idiv(vc.xz, 2);
    let g12 = idiv(vc.yz, 2);
    let vm00 = dbl(cadd(cadd(fmul(vc.xx, m00), fmul(g01, m10)), fmul(g02, m20)));
    let vm01 = dbl(cadd(cadd(fmul(vc.xx, m01), fmul(g01, m11)), fmul(g02, m21)));
    let vm02 = dbl(cadd(cadd(fmul(vc.xx, m02), fmul(g01, m12)), fmul(g02, m22)));
    let vm10 = dbl(cadd(cadd(fmul(g01, m00), fmul(vc.yy, m10)), fmul(g12, m20)));
    let vm11 = dbl(cadd(cadd(fmul(g01, m01), fmul(vc.yy, m11)), fmul(g12, m21)));
    let vm12 = dbl(cadd(cadd(fmul(g01, m02), fmul(vc.yy, m12)), fmul(g12, m22)));
    let vm20 = dbl(cadd(cadd(fmul(g02, m00), fmul(g12, m10)), fmul(vc.zz, m20)));
    let vm21 = dbl(cadd(cadd(fmul(g02, m01), fmul(g12, m11)), fmul(vc.zz, m21)));
    let vm22 = dbl(cadd(cadd(fmul(g02, m02), fmul(g12, m12)), fmul(vc.zz, m22)));
    let v_scale = Vec3 {
        x: fmul(glob, cadd(cadd(fmul(r.m00, vm00), fmul(r.m10, vm10)), fmul(r.m20, vm20))),
        y: fmul(glob, cadd(cadd(fmul(r.m01, vm01), fmul(r.m11, vm11)), fmul(r.m21, vm21))),
        z: fmul(glob, cadd(cadd(fmul(r.m02, vm02), fmul(r.m12, vm12)), fmul(r.m22, vm22))),
    };
    let vr00 = fmul(vm00, sx);
    let vr01 = fmul(vm01, sy);
    let vr02 = fmul(vm02, sz);
    let vr10 = fmul(vm10, sx);
    let vr11 = fmul(vm11, sy);
    let vr12 = fmul(vm12, sz);
    let vr20 = fmul(vm20, sx);
    let vr21 = fmul(vm21, sy);
    let vr22 = fmul(vm22, sz);
    let n2q = cadd(cadd(fmul(q0.w, q0.w), fmul(q0.x, q0.x)), cadd(fmul(q0.y, q0.y), fmul(q0.z, q0.z)));
    let nq = fsqrt(n2q);
    let qnw = fdiv(q0.w, nq);
    let qnx = fdiv(q0.x, nq);
    let qny = fdiv(q0.y, nq);
    let qnz = fdiv(q0.z, nq);
    proof {
        assert(Quat { w: qnw, x: qnx, y: qny, z: qnz } == quat_norm_s(q0));
    }
    let vqw = dbl(
        cadd(
            cadd(cneg(fmul(qnz, vr01)), fmul(qny, vr02)),
            cadd(
                cadd(fmul(qnz, vr10), cneg(fmul(qnx, vr12))),
                cadd(cneg(fmul(qny, vr20)), fmul(qnx, vr21)),
            ),
        ),
    );
    let vqx = dbl(
        cadd(
            cadd(fmul(qny, vr01), fmul(qnz, vr02)),
            cadd(
                cadd(fmul(qny, vr10), cneg(dbl(fmul(qnx, vr11)))),
                cadd(
                    cadd(cneg(fmul(qnw, vr12)), fmul(qnz, vr20)),
                    cadd(fmul(qnw, vr21), cneg(dbl(fmul(qnx, vr22)))),
                ),
            ),
        ),
    );
    let vqy = dbl(
        cadd(
            cadd(cneg(dbl(fmul(qny, vr00))), fmul(qnx, vr01)),
            cadd(
                cadd(fmul(qnw, vr02), fmul(qnx, vr10)),
                cadd(
                    cadd(fmul(qnz, vr12), cneg(fmul(qnw, vr20))),
                    cadd(fmul(qnz, vr21), cneg(dbl(fmul(qny, vr22)))),
                ),
            ),
        ),
    );
    let vqz = dbl(
        cadd(
            cadd(cneg(dbl(fmul(qnz, vr00))), cneg(fmul(qnw, vr01))),
            cadd(
                cadd(fmul(qnx, vr02), fmul(qnw, vr10)),
                cadd(
                    cadd(cneg(dbl(fmul(qnz, vr11))), fmul(qny, vr12)),
                    cadd(fmul(qnx, vr20), fmul(qny, vr21)),
                ),
            ),
        ),
    );
    let invn = fdiv(FIX_ONE, fsqrt(n2q));
    let dot = cadd(cadd(fmul(qnw, vqw), fmul(qnx, vqx)), cadd(fmul(qny, vqy), fmul(qnz, vqz)));
    let v_quat = Quat {
        w: fmul(invn, csub(vqw, fmul(qnw, dot))),
        x: fmul(invn, csub(vqx, fmul(qnx, dot))),
        y: fmul(invn, csub(vqy, fmul(qny, dot))),
        z: fmul(invn, csub(vqz, fmul(qnz, dot))),
    };
    (v_scale, v_quat)
}

/// Gradients of the loss with respect to one Gaussian's 3D parameters,
/// given the gradients of its screen-space outputs: the transpose of every
/// forward step in turn.  Excluded Gaussians (radius zero) get zero
/// gradients.
#[verifier::opaque]
pub open spec fn project_splat_grad_s(
    pg: ProjectGaussians,
    mean: Vec3,
    scale: Vec3,
    quat: Quat,
    view: Mat4,
    proj: Mat4,
    radius: i64,
    conic: Cov2D,
    v_xy: Vec2,
    v_depth: i64,
    v_conic: Cov2D,
) -> SplatGrad {
    if radius <= 0 {
        SplatGrad {
            mean3d: Vec3 { x: 0, y: 0, z: 0 },
            scale: Vec3 { x: 0, y: 0, z: 0 },
            quat: Quat { w: 0, x: 0, y: 0, z: 0 },
        }
    } else {
        let t = transform_point_s(view, mean);
        let cov3d = scale_rot_cov3d_s(scale, pg.glob_scale, quat);
        let vb = conic_vjp_s(conic, v_conic);
        let vjp = cov2d_vjp_s(
            t,
            cov3d,
            view_rot_s(view),
            pg.fx,
            pg.fy,
            tan_fov_s(pg.img_width, pg.fx),
            tan_fov_s(pg.img_height, pg.fy),
            vb,
        );
        let v_cov3d = vjp.0;
        let v_t = vjp.1;
        let v_pix = pix_vjp_s(
            proj,
            mean,
            sfix(pg.img_width as i64),
            sfix(pg.img_height as i64),
            v_xy,
        );
        let sq = cov3d_vjp_s(scale, pg.glob_scale, quat, v_cov3d);
        SplatGrad {
            mean3d: Vec3 {
                x: sadd(
                    v_pix.x,
                    sadd(
                        sadd(smul(view.m00, v_t.x), smul(view.m10, v_t.y)),
                        smul(view.m20, sadd(v_t.z, v_depth)),
                    ),
                ),
                y: sadd(
                    v_pix.y,
                    sadd(
                        sadd(smul(view.m01, v_t.x), smul(view.m11, v_t.y)),
                        smul(view.m21, sadd(v_t.z, v_depth)),
                    ),
                ),
                z: sadd(
                    v_pix.z,
                    sadd(
                        sadd(smul(view.m02, v_t.x), smul(view.m12, v_t.y)),
                        smul(view.m22, sadd(v_t.z, v_depth)),
                    ),
                ),
            },
            scale: sq.0,
            quat: sq.1,
        }
    }
}

/// Backward projection of one Gaussian; see [`project_splat_grad_s`].
pub fn project_splat_grad(
    pg: &ProjectGaussians,
    mean: Vec3,
    scale: Vec3,
    quat: Quat,
    view: Mat4,
    proj: Mat4,
    radius: i64,
    conic: Cov2D,
    v_xy: Vec2,
    v_depth: i64,
    v_conic: Cov2D,
) -> (r: SplatGrad)
    ensures
        r == project_splat_grad_s(
            *pg,
            mean,
            scale,
            quat,
            view,
            proj,
            radius,
            conic,
            v_xy,
            v_depth,
            v_conic,
        ),
{
    proof {
        reveal(project_splat_grad_s);
    }
    if radius <= 0 {
        return SplatGrad {
            mean3d: Vec3 { x: 0, y: 0, z: 0 },
            scale: Vec3 { x: 0, y: 0, z: 0 },
            quat: Quat { w: 0, x: 0, y: 0, z: 0 },
        };
    }
    let t = transform_point(view, mean);
    let cov3d = scale_rot_cov3d(scale, pg.glob_scale, quat);
    let vb = conic_vjp(conic, v_conic);
    let (v_cov3d, v_t) = cov2d_vjp(
        t,
        cov3d,
        Mat3 {
            m00: view.m00,
            m01: view.m01,
            m02: view.m02,
            m10: view.m10,
            m11: view.m11,
            m12: view.m12,
            m20: view.m20,
            m21: view.m21,
            m22: view.m22,
        },
        pg.fx,
        pg.fy,
        fdiv(idiv(int_to_fix(pg.img_width as i64), 2), pg.fx),
        fdiv(idiv(int_to_fix(pg.img_height as i64), 2), pg.fy),
        vb,
    );
    let v_pix = pix_vjp(
        proj,
        mean,
        int_to_fix(pg.img_width as i64),
        int_to_fix(pg.img_height as i64),
        v_xy,
    );
    let (v_scale, v_quat) = cov3d_vjp(scale, pg.glob_scale, quat, v_cov3d);
    SplatGrad {
        mean3d: Vec3 {
            x: cadd(
                v_pix.x,
                cadd(
                    cadd(fmul(view.m00, v_t.x), fmul(view.m10, v_t.y)),
                    fmul(view.m20, cadd(v_t.z, v_depth)),
                ),
            ),
            y: cadd(
                v_pix.y,
                cadd(
                    cadd(fmul(view.m01, v_t.x), fmul(view.m11, v_t.y)),
                    fmul(view.m21, cadd(v_t.z, v_depth)),
                ),
            ),
            z: cadd(
                v_pix.z,
                cadd(
                    cadd(fmul(view.m02, v_t.x), fmul(view.m12, v_t.y)),
                    fmul(view.m22, cadd(v_t.z, v_depth)),
                ),
            ),
        },
        scale: v_scale,
        quat: v_quat,
    }
}

impl ProjectGaussians {
    /// Backward projection of a scene: per-Gaussian gradients with respect
    /// to mean, scale and orientation, given the gradients of the
    /// screen-space outputs.  Succeeds exactly when every per-Gaussian
    /// input has one entry per Gaussian; each entry is pinned by
    /// [`project_splat_grad_s`].
    pub fn bwd(
        &self,
        means3d: &Vec<Vec3>,
        scales: &Vec<Vec3>,
        quats: &Vec<Quat>,
        viewmat: &Mat4,
        projmat: &Mat4,
        radii: &Vec<i64>,
        conics: &Vec<Cov2D>,
        v_xy: &Vec<Vec2>,
        v_depth: &Vec<i64>,
        v_conic: &Vec<Cov2D>,
    ) -> (r: Result<Vec<SplatGrad>, GsplatError>)
        ensures
            r is Ok <==> (means3d.len() == scales.len() && means3d.len() == quats.len()
                && means3d.len() == radii.len() && means3d.len() == conics.len() && means3d.len()
                == v_xy.len() && means3d.len() == v_depth.len() && means3d.len()
                == v_conic.len()),
            r is Err ==> r == Result::<Vec<SplatGrad>, GsplatError>::Err(
                GsplatError::MismatchedInputs,
            ),
            r is Ok ==> r->Ok_0.len() == means3d.len(),
            r is Ok ==> forall|i: int|
                0 <= i < means3d.len() ==> #[trigger] r->Ok_0@[i] == project_splat_grad_s(
                    *self,
                    means3d@[i],
                    scales@[i],
                    quats@[i],
                    *viewmat,
                    *projmat,
                    radii@[i],
                    conics@[i],
                    v_xy@[i],
                    v_depth@[i],
                    v_conic@[i],
                ),
    {
        let n = means3d.len();
        if scales.len() != n || quats.len() != n || radii.len() != n || conics.len() != n
            || v_xy.len() != n || v_depth.len() != n || v_conic.len() != n {
            return Err(GsplatError::MismatchedInputs);
        }
        let mut out: Vec<SplatGrad> = Vec::new();
        let mut i: usize = 0;
        while i < n
            invariant
                i <= n,
                n == means3d.len(),
                n == scales.len(),
                n == quats.len(),
                n == radii.len(),
                n == conics.len(),
                n == v_xy.len(),
                n == v_depth.len(),
                n == v_conic.len(),
                out.len() == i,
                forall|j: int|
                    0 <= j < i ==> #[trigger] out@[j] == project_splat_grad_s(
                        *self,
                        means3d@[j],
                        scales@[j],
                        quats@[j],
                        *viewmat,
                        *projmat,
                        radii@[j],
                        conics@[j],
                        v_xy@[j],
                        v_depth@[j],
                        v_conic@[j],
                    ),
            decreases n - i,
        {
            out.push(
                project_splat_grad(
                    self,
                    means3d[i],
                    scales[i],
                    quats[i],
                    *viewmat,
                    *projmat,
                    radii[i],
                    conics[i],
                    v_xy[i],
                    v_depth[i],
                    v_conic[i],
                ),
            );
            i = i + 1;
        }
        Ok(out)
    }
}

} // verus!

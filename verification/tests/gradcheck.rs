//! Finite-difference check of the analytic backward pass: perturbing a
//! single mean, scale, or quaternion component and re-running the forward
//! pipeline must match the gradient the backward pass reports.
//!
//! The compositing model is only piecewise smooth: the weight floor (1/255)
//! and the whole-pixel footprint radius introduce small steps that a finite
//! difference straddles while the analytic gradient follows the smooth
//! part.  Directions that move no such boundary (screen position, color,
//! opacity) agree to many digits; directions that reshape the footprint
//! (covariance-derived) agree to a few percent.

use gsplat::fixed::FIX_ONE;
use gsplat::project::ProjectGaussians;
use gsplat::raster::RasterizeGaussians;
use gsplat::types::{Color, Cov2D, Mat4, Quat, SplatGrad, Vec2, Vec3};

fn fix(v: f64) -> i64 {
    (v * FIX_ONE as f64).round() as i64
}

fn unfix(v: i64) -> f64 {
    v as f64 / FIX_ONE as f64
}

fn identity_view() -> Mat4 {
    Mat4 {
        m00: FIX_ONE,
        m01: 0,
        m02: 0,
        m03: 0,
        m10: 0,
        m11: FIX_ONE,
        m12: 0,
        m13: 0,
        m20: 0,
        m21: 0,
        m22: FIX_ONE,
        m23: fix(8.0),
        m30: 0,
        m31: 0,
        m32: 0,
        m33: FIX_ONE,
    }
}

fn proj_matrix() -> Mat4 {
    // fx = fy = 32, W = H = 64, near 0.01, far 1000.
    let (f, n) = (1000.0f64, 0.01f64);
    Mat4 {
        m00: FIX_ONE,
        m01: 0,
        m02: 0,
        m03: 0,
        m10: 0,
        m11: FIX_ONE,
        m12: 0,
        m13: 0,
        m20: 0,
        m21: 0,
        m22: fix((f + n) / (f - n)),
        m23: fix(-2.0 * f * n / (f - n)),
        m30: 0,
        m31: 0,
        m32: FIX_ONE,
        m33: 0,
    }
}

fn camera() -> ProjectGaussians {
    ProjectGaussians {
        glob_scale: FIX_ONE,
        fx: fix(32.0),
        fy: fix(32.0),
        cx: fix(32.0),
        cy: fix(32.0),
        img_height: 64,
        img_width: 64,
        tile_bounds: (4, 4, 1),
        clip_thresh: fix(0.01),
    }
}

fn scene() -> (Vec<Vec3>, Vec<Vec3>, Vec<Quat>, Vec<Color>, Vec<i64>) {
    let means = vec![
        Vec3 { x: fix(0.3), y: fix(0.2), z: fix(10.0) },
        Vec3 { x: fix(-0.4), y: fix(0.5), z: fix(11.0) },
    ];
    let scales = vec![
        Vec3 { x: fix(1.0), y: fix(0.8), z: fix(1.2) },
        Vec3 { x: fix(0.9), y: fix(1.1), z: fix(1.0) },
    ];
    let quats = vec![
        Quat { w: fix(0.9), x: fix(0.1), y: fix(0.3), z: fix(0.2) },
        Quat { w: fix(0.8), x: fix(-0.2), y: fix(0.1), z: fix(0.4) },
    ];
    let colors = vec![
        Color { r: fix(0.9), g: fix(0.2), b: fix(0.1) },
        Color { r: fix(0.1), g: fix(0.7), b: fix(0.8) },
    ];
    let opacity = vec![fix(0.9), fix(0.85)];
    (means, scales, quats, colors, opacity)
}

struct ForwardOut {
    loss: f64,
    radii: Vec<i64>,
    conics: Vec<Cov2D>,
    ids: Vec<u64>,
    bins: Vec<(u64, u64)>,
    xys: Vec<Vec2>,
    final_ts: Vec<i64>,
    final_index: Vec<u64>,
}

fn forward(means: &Vec<Vec3>, scales: &Vec<Vec3>, quats: &Vec<Quat>) -> ForwardOut {
    let pg = camera();
    let view = identity_view();
    let proj = proj_matrix();
    let (_m, _s, _q, colors, opacity) = scene();
    let splats = pg.fwd(means, scales, quats, &view, &proj).unwrap();
    let xys: Vec<Vec2> = splats.iter().map(|s| s.xy).collect();
    let depths: Vec<i64> = splats.iter().map(|s| s.depth).collect();
    let radii: Vec<i64> = splats.iter().map(|s| s.radius).collect();
    let conics: Vec<Cov2D> = splats.iter().map(|s| s.conic).collect();
    let hits: Vec<u64> = splats.iter().map(|s| s.num_tiles_hit).collect();
    let (num, cum) = gsplat::isect::compute_cumulative_intersects(&hits).unwrap();
    let (_u, sorted, bins) = gsplat::isect::bin_and_sort_gaussians(
        means.len(),
        num,
        &xys,
        &depths,
        &radii,
        &cum,
        (4, 4, 1),
        16,
    )
    .unwrap();
    let ids: Vec<u64> = sorted.iter().map(|r| r.gaussian_id).collect();
    let rg = RasterizeGaussians {
        tile_bounds: (4, 4, 1),
        img_size: (64, 64, 1),
        block_width: 16,
        background: Color { r: 0, g: 0, b: 0 },
    };
    let (final_ts, final_index, out_img) = rg
        .fwd(&ids, &bins, &xys, &conics, &colors, &opacity)
        .unwrap();
    let mut loss = 0.0f64;
    for p in out_img.iter() {
        loss += unfix(p.r) + unfix(p.g) + unfix(p.b);
    }
    ForwardOut { loss, radii, conics, ids, bins, xys, final_ts, final_index }
}

fn analytic_grads(means: &Vec<Vec3>, scales: &Vec<Vec3>, quats: &Vec<Quat>) -> Vec<SplatGrad> {
    let pg = camera();
    let view = identity_view();
    let proj = proj_matrix();
    let (_m, _s, _q, colors, opacity) = scene();
    let f = forward(means, scales, quats);
    let rg = RasterizeGaussians {
        tile_bounds: (4, 4, 1),
        img_size: (64, 64, 1),
        block_width: 16,
        background: Color { r: 0, g: 0, b: 0 },
    };
    let npix = 64 * 64;
    let v_out = vec![Color { r: FIX_ONE, g: FIX_ONE, b: FIX_ONE }; npix];
    let v_out_alpha = vec![0i64; npix];
    let rgrads = rg
        .bwd(
            &f.ids,
            &f.bins,
            &f.xys,
            &f.conics,
            &colors,
            &opacity,
            &f.final_ts,
            &f.final_index,
            &v_out,
            &v_out_alpha,
        )
        .unwrap();
    let v_xy: Vec<Vec2> = rgrads.iter().map(|g| g.xy).collect();
    let v_conic: Vec<Cov2D> = rgrads.iter().map(|g| g.conic).collect();
    let v_depth = vec![0i64; means.len()];
    pg.bwd(
        means,
        scales,
        quats,
        &view,
        &proj,
        &f.radii,
        &f.conics,
        &v_xy,
        &v_depth,
        &v_conic,
    )
    .unwrap()
}

fn check(analytic: f64, plus: f64, minus: f64, eps: f64, what: &str) {
    let fd = (plus - minus) / (2.0 * eps);
    let denom = fd.abs().max(analytic.abs()).max(1.0);
    let rel = (fd - analytic).abs() / denom;
    assert!(
        rel < 0.12 || (fd - analytic).abs() < 1e-3,
        "{}: finite difference {} vs analytic {} (relative {})",
        what,
        fd,
        analytic,
        rel
    );
}

#[test]
fn test_gradcheck_mean() {
    let (means, scales, quats, _c, _o) = scene();
    let grads = analytic_grads(&means, &scales, &quats);
    let eps = 1.0 / 64.0;
    for axis in 0..3 {
        let mut mp = means.clone();
        let mut mm = means.clone();
        match axis {
            0 => {
                mp[0].x += fix(eps);
                mm[0].x -= fix(eps);
            },
            1 => {
                mp[0].y += fix(eps);
                mm[0].y -= fix(eps);
            },
            _ => {
                mp[0].z += fix(eps);
                mm[0].z -= fix(eps);
            },
        }
        let lp = forward(&mp, &scales, &quats).loss;
        let lm = forward(&mm, &scales, &quats).loss;
        let a = match axis {
            0 => unfix(grads[0].mean3d.x),
            1 => unfix(grads[0].mean3d.y),
            _ => unfix(grads[0].mean3d.z),
        };
        check(a, lp, lm, eps, "mean component");
    }
}

#[test]
fn test_gradcheck_scale() {
    let (means, scales, quats, _c, _o) = scene();
    let grads = analytic_grads(&means, &scales, &quats);
    let eps = 1.0 / 64.0;
    let mut sp = scales.clone();
    let mut sm = scales.clone();
    sp[1].y += fix(eps);
    sm[1].y -= fix(eps);
    let lp = forward(&means, &sp, &quats).loss;
    let lm = forward(&means, &sm, &quats).loss;
    check(unfix(grads[1].scale.y), lp, lm, eps, "scale component");
}

#[test]
fn test_gradcheck_quat() {
    let (means, scales, quats, _c, _o) = scene();
    let grads = analytic_grads(&means, &scales, &quats);
    let eps = 1.0 / 64.0;
    let mut qp = quats.clone();
    let mut qm = quats.clone();
    qp[0].x += fix(eps);
    qm[0].x -= fix(eps);
    let lp = forward(&means, &scales, &qp).loss;
    let lm = forward(&means, &scales, &qm).loss;
    check(unfix(grads[0].quat.x), lp, lm, eps, "quaternion component");
}

fn raster_loss(xys: &Vec<Vec2>, conics: &Vec<Cov2D>, colors: &Vec<Color>, opacity: &Vec<i64>) -> f64 {
    let depths = vec![fix(10.0), fix(11.0)];
    let radii: Vec<i64> = vec![8, 8];
    let hits: Vec<u64> = vec![4, 4];
    let rg = RasterizeGaussians {
        tile_bounds: (4, 4, 1),
        img_size: (64, 64, 1),
        block_width: 16,
        background: Color { r: 0, g: 0, b: 0 },
    };
    let (num, cum) = gsplat::isect::compute_cumulative_intersects(&hits).unwrap();
    let (_u, sorted, bins) =
        gsplat::isect::bin_and_sort_gaussians(2, num, xys, &depths, &radii, &cum, (4, 4, 1), 16)
            .unwrap();
    let ids: Vec<u64> = sorted.iter().map(|r| r.gaussian_id).collect();
    let (_t, _i, img) = rg.fwd(&ids, &bins, xys, conics, colors, opacity).unwrap();
    img.iter().map(|p| unfix(p.r) + unfix(p.g) + unfix(p.b)).sum()
}

#[test]
fn test_gradcheck_raster_smooth_directions() {
    let xys = vec![
        Vec2 { x: fix(32.5), y: fix(32.3) },
        Vec2 { x: fix(31.2), y: fix(33.0) },
    ];
    let conics = vec![
        Cov2D { xx: fix(0.3), xy: fix(0.05), yy: fix(0.35) },
        Cov2D { xx: fix(0.28), xy: fix(-0.03), yy: fix(0.3) },
    ];
    let colors = vec![
        Color { r: fix(0.9), g: fix(0.2), b: fix(0.1) },
        Color { r: fix(0.1), g: fix(0.7), b: fix(0.8) },
    ];
    let opacity = vec![fix(0.9), fix(0.85)];
    let depths = vec![fix(10.0), fix(11.0)];
    let radii: Vec<i64> = vec![8, 8];
    let hits: Vec<u64> = vec![4, 4];
    let rg = RasterizeGaussians {
        tile_bounds: (4, 4, 1),
        img_size: (64, 64, 1),
        block_width: 16,
        background: Color { r: 0, g: 0, b: 0 },
    };
    let (num, cum) = gsplat::isect::compute_cumulative_intersects(&hits).unwrap();
    let (_u, sorted, bins) =
        gsplat::isect::bin_and_sort_gaussians(2, num, &xys, &depths, &radii, &cum, (4, 4, 1), 16)
            .unwrap();
    let ids: Vec<u64> = sorted.iter().map(|r| r.gaussian_id).collect();
    let (fts, fidx, _img) = rg.fwd(&ids, &bins, &xys, &conics, &colors, &opacity).unwrap();
    let v_out = vec![Color { r: FIX_ONE, g: FIX_ONE, b: FIX_ONE }; 64 * 64];
    let v_out_alpha = vec![0i64; 64 * 64];
    let g = rg
        .bwd(&ids, &bins, &xys, &conics, &colors, &opacity, &fts, &fidx, &v_out, &v_out_alpha)
        .unwrap();
    let eps = 1.0 / 128.0;
    let mut xp = xys.clone();
    let mut xm = xys.clone();
    xp[0].x += fix(eps);
    xm[0].x -= fix(eps);
    let fd_xy = (raster_loss(&xp, &conics, &colors, &opacity)
        - raster_loss(&xm, &conics, &colors, &opacity)) / (2.0 * eps);
    assert!((fd_xy - unfix(g[0].xy.x)).abs() < 1e-3 * fd_xy.abs().max(1.0));
    let mut op = opacity.clone();
    let mut om = opacity.clone();
    op[0] += fix(eps);
    om[0] -= fix(eps);
    let fd_op = (raster_loss(&xys, &conics, &colors, &op)
        - raster_loss(&xys, &conics, &colors, &om)) / (2.0 * eps);
    assert!((fd_op - unfix(g[0].opacity)).abs() < 1e-3 * fd_op.abs().max(1.0));
    let mut rp = colors.clone();
    let mut rm = colors.clone();
    rp[1].r += fix(eps);
    rm[1].r -= fix(eps);
    let fd_cr = (raster_loss(&xys, &conics, &rp, &opacity)
        - raster_loss(&xys, &conics, &rm, &opacity)) / (2.0 * eps);
    assert!((fd_cr - unfix(g[1].color.r)).abs() < 1e-3 * fd_cr.abs().max(1.0));
}

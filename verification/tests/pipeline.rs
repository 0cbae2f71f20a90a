//! End-to-end scenarios: projection, binning, and rasterization on small
//! scenes with known reference values.

use gsplat::fixed::FIX_ONE;
use gsplat::project::{project_gaussians, ProjectGaussians};
use gsplat::raster::{rasterize_gaussians, RasterizeGaussians};
use gsplat::types::{Color, Cov2D, Mat4, Quat, Vec2, Vec3};

fn fix(v: f64) -> i64 {
    (v * FIX_ONE as f64).round() as i64
}

fn unfix(v: i64) -> f64 {
    v as f64 / FIX_ONE as f64
}

fn mat4(rows: [[f64; 4]; 4]) -> Mat4 {
    Mat4 {
        m00: fix(rows[0][0]),
        m01: fix(rows[0][1]),
        m02: fix(rows[0][2]),
        m03: fix(rows[0][3]),
        m10: fix(rows[1][0]),
        m11: fix(rows[1][1]),
        m12: fix(rows[1][2]),
        m13: fix(rows[1][3]),
        m20: fix(rows[2][0]),
        m21: fix(rows[2][1]),
        m22: fix(rows[2][2]),
        m23: fix(rows[2][3]),
        m30: fix(rows[3][0]),
        m31: fix(rows[3][1]),
        m32: fix(rows[3][2]),
        m33: fix(rows[3][3]),
    }
}

fn projection_matrix(fx: f64, fy: f64, w: f64, h: f64, n: f64, f: f64) -> Mat4 {
    mat4([
        [2.0 * fx / w, 0.0, 0.0, 0.0],
        [0.0, 2.0 * fy / h, 0.0, 0.0],
        [0.0, 0.0, (f + n) / (f - n), -2.0 * f * n / (f - n)],
        [0.0, 0.0, 1.0, 0.0],
    ])
}

fn small_scene() -> (Vec<Vec3>, Vec<Vec3>, Vec<Quat>, Mat4, Mat4) {
    let means = vec![
        Vec3 { x: 0, y: 0, z: fix(10.0) },
        Vec3 { x: 0, y: 0, z: fix(10.0) },
    ];
    let scales = vec![
        Vec3 { x: FIX_ONE, y: FIX_ONE, z: FIX_ONE },
        Vec3 { x: FIX_ONE, y: FIX_ONE, z: FIX_ONE },
    ];
    let quats = vec![
        Quat { w: 0, x: 0, y: 0, z: FIX_ONE },
        Quat { w: 0, x: 0, y: 0, z: FIX_ONE },
    ];
    let viewmat = mat4([
        [1.0, 0.0, 0.0, 0.0],
        [0.0, 1.0, 0.0, 0.0],
        [0.0, 0.0, 1.0, 8.0],
        [0.0, 0.0, 0.0, 1.0],
    ]);
    let projmat = projection_matrix(256.0, 256.0, 512.0, 512.0, 0.01, 1000.0);
    (means, scales, quats, viewmat, projmat)
}

#[test]
fn test_project_gaussians_fwd_small() {
    let (means, scales, quats, viewmat, projmat) = small_scene();
    let (cov3d, xys, depths, radii, conics, compensation, num_tiles_hit) = project_gaussians(
        &means,
        &scales,
        FIX_ONE,
        &quats,
        &viewmat,
        &projmat,
        fix(256.0),
        fix(256.0),
        fix(256.0),
        fix(256.0),
        512,
        512,
        (32, 32, 1),
        Some(fix(0.01)),
    )
    .unwrap();
    assert_eq!(cov3d.len(), 2);
    for i in 0..2 {
        assert!((unfix(cov3d[i].xx) - 1.0).abs() < 1e-4);
        assert!(unfix(cov3d[i].xy).abs() < 1e-4);
        assert!((unfix(cov3d[i].zz) - 1.0).abs() < 1e-4);
        assert!((unfix(depths[i]) - 18.0).abs() < 1e-6);
        assert!((unfix(xys[i].x) - 255.5).abs() < 1e-3);
        assert!((unfix(xys[i].y) - 255.5).abs() < 1e-3);
        assert!((unfix(conics[i].xx) - 0.0049).abs() < 1e-4);
        assert!(unfix(conics[i].xy).abs() < 1e-5);
        assert!((unfix(conics[i].yy) - 0.0049).abs() < 1e-4);
        assert!((unfix(compensation[i]) - 0.9985).abs() < 1e-3);
        assert_eq!(radii[i], 43);
        assert_eq!(num_tiles_hit[i], 36);
    }
}

#[test]
fn test_rasterize_gaussian_fwd_small() {
    let xys = vec![
        Vec2 { x: fix(255.5), y: fix(255.5) },
        Vec2 { x: fix(255.5), y: fix(255.5) },
    ];
    let depths = vec![fix(18.0), fix(18.0)];
    let radii: Vec<i64> = vec![43, 43];
    let conics = vec![
        Cov2D { xx: fix(0.0049), xy: 0, yy: fix(0.0049) },
        Cov2D { xx: fix(0.0049), xy: 0, yy: fix(0.0049) },
    ];
    let num_tiles_hit: Vec<u64> = vec![36, 36];
    let colors = vec![
        Color { r: FIX_ONE, g: 0, b: 0 },
        Color { r: FIX_ONE, g: 0, b: FIX_ONE },
    ];
    let opacity = vec![FIX_ONE, FIX_ONE];
    let (out_img, out_alpha) = rasterize_gaussians(
        &xys,
        &depths,
        &radii,
        &conics,
        &num_tiles_hit,
        &colors,
        &opacity,
        512,
        512,
        16,
        None,
        None,
    )
    .unwrap();
    assert_eq!(out_img.len(), 512 * 512);
    assert!(out_alpha.is_none());
    // At the center of both splats the first one is nearly opaque, so the
    // pixel is red with the white background shining through only faintly.
    let center = out_img[255 * 512 + 255];
    assert!((unfix(center.r) - 1.0).abs() < 1e-2);
    assert!(unfix(center.g) < 2e-2);
    // Far from both splats only the background (white) remains.
    let corner = out_img[0];
    assert!((unfix(corner.r) - 1.0).abs() < 1e-9);
    assert!((unfix(corner.g) - 1.0).abs() < 1e-9);
    assert!((unfix(corner.b) - 1.0).abs() < 1e-9);
}

#[test]
fn test_dummy_bwd_project() {
    let (means, scales, quats, viewmat, projmat) = small_scene();
    let pg = ProjectGaussians {
        glob_scale: FIX_ONE,
        fx: fix(256.0),
        fy: fix(256.0),
        cx: fix(256.0),
        cy: fix(256.0),
        img_height: 512,
        img_width: 512,
        tile_bounds: (32, 32, 1),
        clip_thresh: fix(0.01),
    };
    let splats = pg.fwd(&means, &scales, &quats, &viewmat, &projmat).unwrap();
    let radii: Vec<i64> = splats.iter().map(|s| s.radius).collect();
    let conics: Vec<Cov2D> = splats.iter().map(|s| s.conic).collect();
    let v_xy = vec![Vec2 { x: fix(0.5), y: fix(0.25) }; 2];
    let v_depth = vec![fix(0.1); 2];
    let v_conic = vec![Cov2D { xx: fix(1.0), xy: fix(0.5), yy: fix(0.25) }; 2];
    let grads = pg
        .bwd(
            &means, &scales, &quats, &viewmat, &projmat, &radii, &conics, &v_xy, &v_depth,
            &v_conic,
        )
        .unwrap();
    assert_eq!(grads.len(), 2);
    // Both Gaussians are identical, so their gradients must agree.
    assert_eq!(grads[0], grads[1]);
    // A depth gradient must reach the mean through the view transform.
    assert!(unfix(grads[0].mean3d.z).abs() > 1e-6);
}

#[test]
fn test_dummy_bwd_rasterize() {
    let xys = vec![
        Vec2 { x: fix(255.5), y: fix(255.5) },
        Vec2 { x: fix(255.5), y: fix(255.5) },
    ];
    let conics = vec![
        Cov2D { xx: fix(0.0049), xy: 0, yy: fix(0.0049) },
        Cov2D { xx: fix(0.0049), xy: 0, yy: fix(0.0049) },
    ];
    let colors = vec![
        Color { r: FIX_ONE, g: 0, b: 0 },
        Color { r: FIX_ONE, g: 0, b: FIX_ONE },
    ];
    let opacity = vec![fix(0.5), fix(0.5)];
    let depths = vec![fix(18.0), fix(18.0)];
    let radii: Vec<i64> = vec![43, 43];
    let num_tiles_hit: Vec<u64> = vec![36, 36];
    let rg = RasterizeGaussians {
        tile_bounds: (32, 32, 1),
        img_size: (512, 512, 1),
        block_width: 16,
        background: Color { r: 0, g: 0, b: 0 },
    };
    let (num, cum) = gsplat::isect::compute_cumulative_intersects(&num_tiles_hit).unwrap();
    let (_u, sorted, bins) = gsplat::isect::bin_and_sort_gaussians(
        2,
        num,
        &xys,
        &depths,
        &radii,
        &cum,
        (32, 32, 1),
        16,
    )
    .unwrap();
    let ids: Vec<u64> = sorted.iter().map(|r| r.gaussian_id).collect();
    let (final_ts, final_index, out_img) = rg
        .fwd(&ids, &bins, &xys, &conics, &colors, &opacity)
        .unwrap();
    assert_eq!(out_img.len(), 512 * 512);
    let v_out = vec![Color { r: FIX_ONE, g: FIX_ONE, b: FIX_ONE }; 512 * 512];
    let v_out_alpha = vec![0i64; 512 * 512];
    let grads = rg
        .bwd(
            &ids, &bins, &xys, &conics, &colors, &opacity, &final_ts, &final_index, &v_out,
            &v_out_alpha,
        )
        .unwrap();
    assert_eq!(grads.len(), 2);
    // The front Gaussian absorbs light, so its color gradient is positive.
    assert!(unfix(grads[0].color.r) > 0.0 || unfix(grads[1].color.r) > 0.0);
    // Opacity affects the composite, so its gradient is nonzero somewhere.
    assert!(unfix(grads[0].opacity).abs() + unfix(grads[1].opacity).abs() > 1e-6);
}

#[test]
fn test_background_only() {
    // Both Gaussians sit behind the near plane, so nothing is rasterized
    // and the image is exactly the broadcast background color.
    let means = vec![
        Vec3 { x: 0, y: 0, z: fix(-20.0) },
        Vec3 { x: 0, y: 0, z: fix(-30.0) },
    ];
    let scales = vec![Vec3 { x: FIX_ONE, y: FIX_ONE, z: FIX_ONE }; 2];
    let quats = vec![Quat { w: FIX_ONE, x: 0, y: 0, z: 0 }; 2];
    let viewmat = mat4([
        [1.0, 0.0, 0.0, 0.0],
        [0.0, 1.0, 0.0, 0.0],
        [0.0, 0.0, 1.0, 8.0],
        [0.0, 0.0, 0.0, 1.0],
    ]);
    let projmat = projection_matrix(32.0, 32.0, 64.0, 64.0, 0.01, 1000.0);
    let (_c, xys, depths, radii, _con, _comp, hits) = project_gaussians(
        &means,
        &scales,
        FIX_ONE,
        &quats,
        &viewmat,
        &projmat,
        fix(32.0),
        fix(32.0),
        fix(32.0),
        fix(32.0),
        64,
        64,
        (4, 4, 1),
        None,
    )
    .unwrap();
    assert_eq!(hits, vec![0, 0]);
    assert_eq!(radii, vec![0, 0]);
    let conics = vec![Cov2D { xx: 0, xy: 0, yy: 0 }; 2];
    let colors = vec![Color { r: FIX_ONE, g: 0, b: 0 }; 2];
    let opacity = vec![FIX_ONE; 2];
    let bg = Color { r: fix(0.25), g: fix(0.5), b: fix(0.75) };
    let (out_img, _alpha) = rasterize_gaussians(
        &xys,
        &depths,
        &radii,
        &conics,
        &hits,
        &colors,
        &opacity,
        64,
        64,
        16,
        Some(bg),
        None,
    )
    .unwrap();
    assert_eq!(out_img.len(), 64 * 64);
    for p in out_img.iter() {
        assert_eq!(*p, bg);
    }
}

#[test]
fn test_rasterize_idempotent() {
    let (means, scales, quats, viewmat, projmat) = small_scene();
    let (_c, xys, depths, radii, conics, _comp, hits) = project_gaussians(
        &means,
        &scales,
        FIX_ONE,
        &quats,
        &viewmat,
        &projmat,
        fix(256.0),
        fix(256.0),
        fix(256.0),
        fix(256.0),
        512,
        512,
        (32, 32, 1),
        None,
    )
    .unwrap();
    let colors = vec![
        Color { r: FIX_ONE, g: 0, b: 0 },
        Color { r: 0, g: FIX_ONE, b: 0 },
    ];
    let opacity = vec![fix(0.7), fix(0.7)];
    let run = || {
        rasterize_gaussians(
            &xys, &depths, &radii, &conics, &hits, &colors, &opacity, 512, 512, 16, None,
            Some(true),
        )
        .unwrap()
    };
    let (img1, a1) = run();
    let (img2, a2) = run();
    assert_eq!(img1, img2);
    assert_eq!(a1, a2);
}

#[test]
fn test_num_intersects_equals_hit_sum() {
    // The record count equals the sum of the per-Gaussian tile-hit counts
    // when the inputs come from projection.
    let (means, scales, quats, viewmat, projmat) = small_scene();
    let (_c, xys, depths, radii, _con, _comp, hits) = project_gaussians(
        &means,
        &scales,
        FIX_ONE,
        &quats,
        &viewmat,
        &projmat,
        fix(256.0),
        fix(256.0),
        fix(256.0),
        fix(256.0),
        512,
        512,
        (32, 32, 1),
        None,
    )
    .unwrap();
    let total: u64 = hits.iter().sum();
    let (num, cum) = gsplat::isect::compute_cumulative_intersects(&hits).unwrap();
    assert_eq!(num, total);
    let recs = gsplat::isect::map_gaussian_to_intersects(
        2, num, &xys, &depths, &radii, &cum, (32, 32, 1), 16,
    )
    .unwrap();
    assert_eq!(recs.len() as u64, num);
}

#[test]
fn test_compute_cov2d_bounds() {
    // A well-conditioned covariance gives its inverse and a positive
    // radius; a singular one is excluded with zeros.
    let cov = vec![
        gsplat::types::Cov2D { xx: fix(202.57), xy: 0, yy: fix(202.57) },
        gsplat::types::Cov2D { xx: 0, xy: 0, yy: 0 },
    ];
    let (conics, radii) = gsplat::project::compute_cov2d_bounds(&cov);
    assert!((unfix(conics[0].xx) - 1.0 / 202.57).abs() < 1e-5);
    assert!((unfix(conics[0].yy) - 1.0 / 202.57).abs() < 1e-5);
    assert_eq!(radii[0], 43);
    assert_eq!(conics[1], gsplat::types::Cov2D { xx: 0, xy: 0, yy: 0 });
    assert_eq!(radii[1], 0);
}

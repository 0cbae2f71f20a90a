//! Unit checks: fixed-point arithmetic, harmonics bookkeeping, intersection
//! keys, sorting order, tile bins, and the error taxonomy.

use gsplat::fixed::{cadd, fdiv, fexp_neg, fmul, fsqrt, FIX_ONE};
use gsplat::isect::{
    bin_and_sort_gaussians, compute_cumulative_intersects, get_tile_bin_edges,
    map_gaussian_to_intersects, sort_intersects, IsectRecord,
};
use gsplat::project::project_gaussians;
use gsplat::raster::RasterizeGaussians;
use gsplat::sh::{deg_from_sh, num_sh_bases};
use gsplat::types::{Color, Cov2D, GsplatError, Mat4, Quat, Vec2, Vec3};

fn fix(v: f64) -> i64 {
    (v * FIX_ONE as f64).round() as i64
}

fn unfix(v: i64) -> f64 {
    v as f64 / FIX_ONE as f64
}

#[test]
fn test_fixed_arithmetic() {
    assert_eq!(fmul(fix(1.5), fix(2.0)), fix(3.0));
    assert_eq!(fmul(fix(-1.5), fix(2.0)), fix(-3.0));
    assert_eq!(fdiv(fix(3.0), fix(2.0)), fix(1.5));
    assert_eq!(fdiv(fix(1.0), 0), 0);
    assert_eq!(fsqrt(fix(4.0)), fix(2.0));
    assert_eq!(fsqrt(-5), 0);
    assert_eq!(cadd(i64::MAX, 1), i64::MAX);
    assert_eq!(cadd(-i64::MAX, -10), -i64::MAX);
}

#[test]
fn test_fixed_exp() {
    assert_eq!(fexp_neg(0), FIX_ONE);
    assert_eq!(fexp_neg(-5), FIX_ONE);
    assert!((unfix(fexp_neg(fix(1.0))) - (-1.0f64).exp()).abs() < 1e-6);
    assert!((unfix(fexp_neg(fix(2.5))) - (-2.5f64).exp()).abs() < 1e-6);
    assert!((unfix(fexp_neg(fix(10.0))) - (-10.0f64).exp()).abs() < 1e-7);
    assert_eq!(fexp_neg(fix(40.0)), 0);
}

#[test]
fn test_sh_bases() {
    assert_eq!(num_sh_bases(0), 1);
    assert_eq!(num_sh_bases(1), 4);
    assert_eq!(num_sh_bases(2), 9);
    assert_eq!(num_sh_bases(3), 16);
    assert_eq!(num_sh_bases(4), 25);
    assert_eq!(num_sh_bases(7), 25);
    for b in [1usize, 4, 9, 16, 25] {
        assert_eq!(num_sh_bases(deg_from_sh(b)), b);
    }
}

fn two_same_tile() -> (Vec<Vec2>, Vec<i64>, Vec<i64>, Vec<u64>) {
    // Two Gaussians in the same tile at different depths; the nearer one
    // (index 1) must come first after sorting.
    let xys = vec![
        Vec2 { x: fix(8.0), y: fix(8.0) },
        Vec2 { x: fix(8.0), y: fix(8.0) },
    ];
    let depths = vec![fix(2.0), fix(1.0)];
    let radii: Vec<i64> = vec![1, 1];
    let hits: Vec<u64> = vec![1, 1];
    (xys, depths, radii, hits)
}

#[test]
fn test_num_intersects_matches_sum() {
    let (xys, depths, radii, hits) = two_same_tile();
    let (num, cum) = compute_cumulative_intersects(&hits).unwrap();
    assert_eq!(num, 2);
    assert_eq!(cum, vec![1, 2]);
    let recs = map_gaussian_to_intersects(2, num, &xys, &depths, &radii, &cum, (4, 4, 1), 16)
        .unwrap();
    assert_eq!(recs.len() as u64, num);
}

#[test]
fn test_sorted_keys_order() {
    let (xys, depths, radii, hits) = two_same_tile();
    let (num, cum) = compute_cumulative_intersects(&hits).unwrap();
    let recs = map_gaussian_to_intersects(2, num, &xys, &depths, &radii, &cum, (4, 4, 1), 16)
        .unwrap();
    let sorted = sort_intersects(&recs);
    assert_eq!(sorted.len(), 2);
    // Keys non-decreasing.
    for i in 1..sorted.len() {
        assert!(sorted[i - 1].key <= sorted[i].key);
    }
    // Same tile: depth non-decreasing, so the nearer Gaussian leads.
    let base: u128 = 0x10000000000000000;
    assert_eq!(sorted[0].key / base, sorted[1].key / base);
    assert!(sorted[0].key % base <= sorted[1].key % base);
    assert_eq!(sorted[0].gaussian_id, 1);
    assert_eq!(sorted[1].gaussian_id, 0);
}

#[test]
fn test_tile_bins_partition() {
    let (xys, depths, radii, hits) = two_same_tile();
    let (num, cum) = compute_cumulative_intersects(&hits).unwrap();
    let (_unsorted, sorted, bins) =
        bin_and_sort_gaussians(2, num, &xys, &depths, &radii, &cum, (4, 4, 1), 16).unwrap();
    assert_eq!(bins.len(), 16);
    // Both records fall in tile 0: its range is [0, 2), every other tile
    // holds the empty sentinel, and the ranges partition [0, num).
    assert_eq!(bins[0], (0, 2));
    for t in 1..16 {
        assert_eq!(bins[t], (0, 0));
    }
    for j in 0..sorted.len() as u64 {
        let mut owners = 0;
        for t in 0..16 {
            if bins[t].0 <= j && j < bins[t].1 {
                owners += 1;
            }
        }
        assert_eq!(owners, 1);
    }
}

#[test]
fn test_error_mismatched_inputs() {
    let means = vec![Vec3 { x: 0, y: 0, z: fix(10.0) }];
    let scales: Vec<Vec3> = vec![];
    let quats = vec![Quat { w: FIX_ONE, x: 0, y: 0, z: 0 }];
    let id = Mat4 {
        m00: FIX_ONE,
        m01: 0,
        m02: 0,
        m03: 0,
        m10: 0,
        m11: FIX_ONE,
        m12: 0,
        m13: 0,
        m20: 0,
        m21: 0,
        m22: FIX_ONE,
        m23: 0,
        m30: 0,
        m31: 0,
        m32: 0,
        m33: FIX_ONE,
    };
    let r = project_gaussians(
        &means,
        &scales,
        FIX_ONE,
        &quats,
        &id,
        &id,
        fix(32.0),
        fix(32.0),
        fix(32.0),
        fix(32.0),
        64,
        64,
        (4, 4, 1),
        None,
    );
    assert_eq!(r.unwrap_err(), GsplatError::MismatchedInputs);
}

#[test]
fn test_error_too_many_intersects() {
    let hits: Vec<u64> = vec![u64::MAX, 2];
    let r = compute_cumulative_intersects(&hits);
    assert_eq!(r.unwrap_err(), GsplatError::TooManyIntersects);
}

#[test]
fn test_error_tile_out_of_bounds() {
    // A record claiming tile 99 on a 2x2 grid is rejected.
    let base: u128 = 0x10000000000000000;
    let keys: Vec<u128> = vec![99 * base + 5];
    let r = get_tile_bin_edges(1, &keys, (2, 2, 1));
    assert_eq!(r.unwrap_err(), GsplatError::IndexOutOfBounds);
    // A record count that does not match the keys is rejected too.
    let r2 = get_tile_bin_edges(3, &keys, (2, 2, 1));
    assert_eq!(r2.unwrap_err(), GsplatError::MismatchedInputs);
}

#[test]
fn test_error_bad_gaussian_id() {
    let rg = RasterizeGaussians {
        tile_bounds: (1, 1, 1),
        img_size: (16, 16, 1),
        block_width: 16,
        background: Color { r: 0, g: 0, b: 0 },
    };
    let ids: Vec<u64> = vec![5];
    let bins: Vec<(u64, u64)> = vec![(0, 1)];
    let xys = vec![Vec2 { x: 0, y: 0 }];
    let conics = vec![Cov2D { xx: 0, xy: 0, yy: 0 }];
    let colors = vec![Color { r: 0, g: 0, b: 0 }];
    let opacity = vec![0i64];
    let r = rg.fwd(&ids, &bins, &xys, &conics, &colors, &opacity);
    assert_eq!(r.unwrap_err(), GsplatError::IndexOutOfBounds);
}

#[test]
fn test_excluded_footprint_has_no_hits() {
    // One Gaussian behind the clip plane, one in front: the clipped one is
    // excluded (radius 0, no hits) and the visible one overlaps at least
    // one tile.
    let means = vec![
        Vec3 { x: 0, y: 0, z: fix(-20.0) },
        Vec3 { x: 0, y: 0, z: fix(2.0) },
    ];
    let scales = vec![Vec3 { x: fix(0.5), y: fix(0.5), z: fix(0.5) }; 2];
    let quats = vec![Quat { w: FIX_ONE, x: 0, y: 0, z: 0 }; 2];
    let id = Mat4 {
        m00: FIX_ONE,
        m01: 0,
        m02: 0,
        m03: 0,
        m10: 0,
        m11: FIX_ONE,
        m12: 0,
        m13: 0,
        m20: 0,
        m21: 0,
        m22: FIX_ONE,
        m23: 0,
        m30: 0,
        m31: 0,
        m32: FIX_ONE,
        m33: 0,
    };
    let (_c, _xy, _d, radii, _con, _comp, hits) = project_gaussians(
        &means,
        &scales,
        FIX_ONE,
        &quats,
        &id,
        &id,
        fix(32.0),
        fix(32.0),
        fix(32.0),
        fix(32.0),
        64,
        64,
        (4, 4, 1),
        None,
    )
    .unwrap();
    assert_eq!(radii[0], 0);
    assert_eq!(hits[0], 0);
    assert!(radii[1] > 0);
    assert!(hits[1] >= 1);
}

#[test]
fn test_record_type_roundtrip() {
    let r = IsectRecord { key: 7 * 0x10000000000000000u128 + 42, gaussian_id: 3 };
    assert_eq!(r.key / 0x10000000000000000u128, 7);
    assert_eq!(r.key % 0x10000000000000000u128, 42);
}

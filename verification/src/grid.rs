//! Tile-grid geometry: which tiles a projected footprint overlaps, and which
//! tile a pixel belongs to.
//!
//! The image is partitioned into square tiles of `block` pixels a side;
//! `tile_bounds` counts tiles per axis.  A footprint's bounding square is
//! mapped to a half-open tile rectangle `[xmin, xmax) x [ymin, ymax)`,
//! clamped to the grid.

use crate::fixed::{cadd, csub, fdiv, idiv, int_to_fix, sadd, sdiv, sfix, ssub, tdiv_s, FIX_ONE};
use crate::types::Vec2;
use vstd::prelude::*;

verus! {

/// A half-open rectangle of tile coordinates.
#[derive(Clone, Copy, PartialEq, Eq, Structural, Debug)]
pub struct TileBBox {
    pub xmin: u32,
    pub xmax: u32,
    pub ymin: u32,
    pub ymax: u32,
}

/// Lower tile coordinate of an axis: `trunc(tc - tr)` clamped to `[0, bound]`.
pub open spec fn axis_lo_s(tc: i64, tr: i64, bound: u32) -> u32 {
    let v = tdiv_s(ssub(tc, tr) as int, FIX_ONE as int);
    if v < 0 {
        0
    } else if v > bound as int {
        bound
    } else {
        v as u32
    }
}

/// Upper tile coordinate of an axis: `trunc(tc + tr + 1)` clamped to
/// `[0, bound]`.
pub open spec fn axis_hi_s(tc: i64, tr: i64, bound: u32) -> u32 {
    let v = tdiv_s(sadd(sadd(tc, tr), FIX_ONE) as int, FIX_ONE as int);
    if v < 0 {
        0
    } else if v > bound as int {
        bound
    } else {
        v as u32
    }
}

/// Tile rectangle overlapped by a footprint of `radius` whole pixels around
/// `center` (fixed-point pixels), on a grid of `tb_x` by `tb_y` tiles of
/// `block` pixels a side.
pub open spec fn tile_bbox_s(center: Vec2, radius: i64, tb_x: u32, tb_y: u32, block: i64)
    -> TileBBox {
    let bf = sfix(block);
    let tcx = sdiv(center.x, bf);
    let tcy = sdiv(center.y, bf);
    let tr = sdiv(sfix(radius), bf);
    TileBBox {
        xmin: axis_lo_s(tcx, tr, tb_x),
        xmax: axis_hi_s(tcx, tr, tb_x),
        ymin: axis_lo_s(tcy, tr, tb_y),
        ymax: axis_hi_s(tcy, tr, tb_y),
    }
}

/// Number of tiles inside a bounding rectangle; zero when it is empty.
pub open spec fn bbox_area_s(b: TileBBox) -> u64 {
    if b.xmin < b.xmax && b.ymin < b.ymax {
        ((b.xmax - b.xmin) * (b.ymax - b.ymin)) as u64
    } else {
        0
    }
}

pub proof fn lemma_u32_mul_fits(a: u32, b: u32)
    ensures
        (a as int) * (b as int) >= 0,
        (a as int) * (b as int) < 0x10000000000000000,
{
    vstd::arithmetic::mul::lemma_mul_upper_bound(a as int, 0xFFFFFFFF, b as int, 0xFFFFFFFF);
    vstd::arithmetic::mul::lemma_mul_nonnegative(a as int, b as int);
}

fn axis_clamp(v: i64, bound: u32) -> (r: u32)
    ensures
        r as int == (if v < 0 {
            0
        } else if v as int > bound as int {
            bound as int
        } else {
            v as int
        }),
{
    if v < 0 {
        0
    } else if v > bound as i64 {
        bound
    } else {
        v as u32
    }
}

/// Tile rectangle overlapped by a footprint; see [`tile_bbox_s`].
pub fn tile_bbox(center: Vec2, radius: i64, tb_x: u32, tb_y: u32, block: i64) -> (r: TileBBox)
    ensures
        r == tile_bbox_s(center, radius, tb_x, tb_y, block),
{
    let bf = int_to_fix(block);
    let tcx = fdiv(center.x, bf);
    let tcy = fdiv(center.y, bf);
    let tr = fdiv(int_to_fix(radius), bf);
    let lox = idiv(csub(tcx, tr), FIX_ONE);
    let hix = idiv(cadd(cadd(tcx, tr), FIX_ONE), FIX_ONE);
    let loy = idiv(csub(tcy, tr), FIX_ONE);
    let hiy = idiv(cadd(cadd(tcy, tr), FIX_ONE), FIX_ONE);
    TileBBox {
        xmin: axis_clamp(lox, tb_x),
        xmax: axis_clamp(hix, tb_x),
        ymin: axis_clamp(loy, tb_y),
        ymax: axis_clamp(hiy, tb_y),
    }
}

/// Number of tiles inside a bounding rectangle.
pub fn bbox_area(b: TileBBox) -> (r: u64)
    ensures
        r == bbox_area_s(b),
{
    if b.xmin < b.xmax && b.ymin < b.ymax {
        proof {
            lemma_u32_mul_fits((b.xmax - b.xmin) as u32, (b.ymax - b.ymin) as u32);
        }
        ((b.xmax - b.xmin) as u64) * ((b.ymax - b.ymin) as u64)
    } else {
        0
    }
}

/// Flat tile index of the tile at column `tx`, row `ty`.
pub open spec fn tile_index_s(tx: u32, ty: u32, tb_x: u32) -> u64 {
    (ty as int * tb_x as int + tx as int) as u64
}

/// Flat tile index, with the row/column bounds that keep it inside the grid.
pub fn tile_index(tx: u32, ty: u32, tb_x: u32, tb_y: u32) -> (r: u64)
    requires
        tx < tb_x,
        ty < tb_y,
    ensures
        r == tile_index_s(tx, ty, tb_x),
        r < tb_x as u64 * tb_y as u64,
{
    proof {
        lemma_u32_mul_fits(ty, tb_x);
        lemma_u32_mul_fits(tb_x, tb_y);
        assert((ty as int) * (tb_x as int) + (tx as int) < (tb_x as int) * (tb_y as int))
            by (nonlinear_arith)
            requires
                tx < tb_x,
                ty < tb_y,
        ;
    }
    (ty as u64) * (tb_x as u64) + (tx as u64)
}

} // verus!

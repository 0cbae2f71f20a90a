//! The tile-based alpha-compositing rasterizer and its backward pass.
//!
//! Each pixel walks its tile's sorted Gaussian range front to back,
//! accumulating color while its transmittance decays; the walk stops early
//! once the pixel is saturated, and the final transmittance and stopping
//! position are recorded so the backward pass can replay the walk in
//! reverse.

use crate::fixed::{
    cadd, cneg, csub, fdiv, fexp_neg, fmin, fmul, idiv, int_to_fix, sadd, sdiv, sexp_neg, sfix,
    sidiv, smin, smul, sneg, ssub, tdiv_s, FIX_ONE,
};
use crate::grid::{lemma_u32_mul_fits, tile_index, tile_index_s};
use crate::isect::{
    all_recs_s, bins_scan_s, keys_of_s, sort_recs_s, sum_hits_s, IsectRecord,
};
use crate::types::{Color, Cov2D, GsplatError, RasterGrad, Vec2};
use vstd::pervasive::VecAdditionalExecFns;
use vstd::prelude::*;

verus! {

/// Compositing weight ceiling: 0.999 fixed.
pub const ALPHA_MAX: i64 = 4290672328;

/// Weights below this floor are skipped: 1/255 fixed.
pub const ALPHA_FLOOR: i64 = 16843009;

/// A pixel is saturated once its transmittance falls to this: 1e-4 fixed.
pub const T_EPS: i64 = 429496;

/// Per-pixel compositing state: transmittance, accumulated color, and one
/// past the position (in the sorted range) of the last Gaussian composited.
#[derive(Clone, Copy, PartialEq, Eq, Structural, Debug)]
pub struct PixState {
    pub t: i64,
    pub r: i64,
    pub g: i64,
    pub b: i64,
    pub last: u64,
}

/// Mahalanobis falloff exponent of a pixel at offset `(dx, dy)` from a
/// Gaussian's center: `(c.xx dx^2 + c.yy dy^2) / 2 + c.xy dx dy`.
pub open spec fn sigma_s(conic: Cov2D, dx: i64, dy: i64) -> i64 {
    sadd(
        sidiv(sadd(smul(conic.xx, smul(dx, dx)), smul(conic.yy, smul(dy, dy))), 2),
        smul(conic.xy, smul(dx, dy)),
    )
}

/// The compositing weight of one Gaussian at one pixel, before the ceiling.
pub open spec fn raw_alpha_s(opac: i64, sigma: i64) -> i64 {
    smul(opac, sexp_neg(sigma))
}

/// Front-to-back compositing walk over positions `lo <= p < hi` of the
/// sorted range: each Gaussian outside its ellipse or below the weight
/// floor is skipped; the walk stops (without compositing) as soon as the
/// transmittance would fall to the saturation threshold.
pub open spec fn walk_pixel_s(
    ids: Seq<u64>,
    xys: Seq<Vec2>,
    conics: Seq<Cov2D>,
    colors: Seq<Color>,
    opacs: Seq<i64>,
    px: i64,
    py: i64,
    lo: int,
    hi: int,
    st: PixState,
) -> PixState
    decreases hi - lo,
{
    if lo >= hi {
        st
    } else {
        let g = ids[lo] as int;
        let dx = ssub(xys[g].x, px);
        let dy = ssub(xys[g].y, py);
        let sigma = sigma_s(conics[g], dx, dy);
        let alpha = smin(ALPHA_MAX, raw_alpha_s(opacs[g], sigma));
        if sigma < 0 || alpha < ALPHA_FLOOR {
            walk_pixel_s(ids, xys, conics, colors, opacs, px, py, lo + 1, hi, st)
        } else {
            let next_t = smul(st.t, ssub(FIX_ONE, alpha));
            if next_t <= T_EPS {
                st
            } else {
                let w = smul(alpha, st.t);
                let st2 = PixState {
                    t: next_t,
                    r: sadd(st.r, smul(w, colors[g].r)),
                    g: sadd(st.g, smul(w, colors[g].g)),
                    b: sadd(st.b, smul(w, colors[g].b)),
                    last: (lo + 1) as u64,
                };
                walk_pixel_s(ids, xys, conics, colors, opacs, px, py, lo + 1, hi, st2)
            }
        }
    }
}

/// The state a pixel's walk starts from.
pub open spec fn init_pix_s(lo: int) -> PixState {
    PixState { t: FIX_ONE, r: 0, g: 0, b: 0, last: lo as u64 }
}

/// Final pixel color: accumulated color plus the background seen through
/// the remaining transmittance.
pub open spec fn pixel_out_s(st: PixState, bg: Color) -> Color {
    Color {
        r: sadd(st.r, smul(st.t, bg.r)),
        g: sadd(st.g, smul(st.t, bg.g)),
        b: sadd(st.b, smul(st.t, bg.b)),
    }
}

/// The complete compositing state of the pixel at `(x, y)`.
#[verifier::opaque]
pub open spec fn pixel_state_s(
    ids: Seq<u64>,
    xys: Seq<Vec2>,
    conics: Seq<Cov2D>,
    colors: Seq<Color>,
    opacs: Seq<i64>,
    bins: Seq<(u64, u64)>,
    tb_x: u32,
    block_width: u32,
    x: int,
    y: int,
) -> PixState {
    let tile = tile_index_s((x / (block_width as int)) as u32, (y / (block_width as int)) as u32, tb_x);
    let rng = bins[tile as int];
    walk_pixel_s(
        ids,
        xys,
        conics,
        colors,
        opacs,
        sfix(x as i64),
        sfix(y as i64),
        rng.0 as int,
        rng.1 as int,
        init_pix_s(rng.0 as int),
    )
}

/// Multiplying by one in fixed point is exact (saturation aside).
pub proof fn lemma_one_mul_id(v: i64)
    requires
        v > i64::MIN,
    ensures
        smul(FIX_ONE, v) == v,
{
    let f = FIX_ONE as int;
    let vi = v as int;
    if v >= 0 {
        assert(f * vi >= 0) by (nonlinear_arith)
            requires
                f >= 0,
                vi >= 0,
        ;
        assert(f * vi == vi * f) by (nonlinear_arith);
        vstd::arithmetic::div_mod::lemma_fundamental_div_mod_converse(f * vi, f, vi, 0);
        assert(tdiv_s(f * vi, f) == vi);
    } else {
        assert(f * vi < 0) by (nonlinear_arith)
            requires
                f > 0,
                vi < 0,
        ;
        assert(-(f * vi) == (-vi) * f) by (nonlinear_arith);
        vstd::arithmetic::div_mod::lemma_fundamental_div_mod_converse((-vi) * f, f, -vi, 0);
        assert(tdiv_s(f * vi, f) == -((-(f * vi)) / f));
        assert(tdiv_s(f * vi, f) == vi);
    }
}

/// A walk over an empty range keeps its state, so a pixel no record covers
/// shows exactly the background.
pub proof fn lemma_empty_walk_background(
    ids: Seq<u64>,
    xys: Seq<Vec2>,
    conics: Seq<Cov2D>,
    colors: Seq<Color>,
    opacs: Seq<i64>,
    px: i64,
    py: i64,
    lo: int,
    bg: Color,
)
    requires
        bg.r > i64::MIN,
        bg.g > i64::MIN,
        bg.b > i64::MIN,
    ensures
        pixel_out_s(
            walk_pixel_s(ids, xys, conics, colors, opacs, px, py, lo, lo, init_pix_s(lo)),
            bg,
        ) == bg,
{
    lemma_one_mul_id(bg.r);
    lemma_one_mul_id(bg.g);
    lemma_one_mul_id(bg.b);
}

/// Grid and image parameters of one rasterization pass.
#[derive(Clone, Copy, Debug)]
pub struct RasterizeGaussians {
    /// Tiles per axis (the third entry is kept at one).
    pub tile_bounds: (u32, u32, u32),
    /// Image width, height (the third entry is kept at one).
    pub img_size: (u32, u32, u32),
    /// Side of a screen tile in pixels.
    pub block_width: u32,
    /// Color shown through the remaining transmittance.
    pub background: Color,
}

fn raster_pixel(
    ids: &Vec<u64>,
    bins: &Vec<(u64, u64)>,
    xys: &Vec<Vec2>,
    conics: &Vec<Cov2D>,
    colors: &Vec<Color>,
    opacs: &Vec<i64>,
    tb_x: u32,
    tb_y: u32,
    block_width: u32,
    x: u32,
    y: u32,
) -> (st: PixState)
    requires
        block_width >= 1,
        conics.len() == xys.len(),
        colors.len() == xys.len(),
        opacs.len() == xys.len(),
        forall|k: int| 0 <= k < ids.len() ==> (#[trigger] ids@[k]) < xys.len(),
        bins.len() == (tb_x as int) * (tb_y as int),
        forall|t: int|
            0 <= t < bins.len() ==> (#[trigger] bins@[t]).0 <= bins@[t].1 && bins@[t].1
                <= ids.len(),
        (x as int) / (block_width as int) < tb_x,
        (y as int) / (block_width as int) < tb_y,
    ensures
        st == pixel_state_s(
            ids@,
            xys@,
            conics@,
            colors@,
            opacs@,
            bins@,
            tb_x,
            block_width,
            x as int,
            y as int,
        ),
{
    proof {
        reveal(pixel_state_s);
    }
    let tx = x / block_width;
    let ty = y / block_width;
    let tile = tile_index(tx, ty, tb_x, tb_y);
    proof {
        lemma_u32_mul_fits(tb_x, tb_y);
    }
    let rng = bins[tile as usize];
    let lo = rng.0 as usize;
    let hi = rng.1 as usize;
    let px = int_to_fix(x as i64);
    let py = int_to_fix(y as i64);
    let mut st = PixState { t: FIX_ONE, r: 0, g: 0, b: 0, last: rng.0 };
    let mut cur = lo;
    proof {
        assert(st == init_pix_s(lo as int));
    }
    while cur < hi
        invariant_except_break
            lo <= cur <= hi,
            hi <= ids.len(),
            conics.len() == xys.len(),
            colors.len() == xys.len(),
            opacs.len() == xys.len(),
            forall|k: int| 0 <= k < ids.len() ==> (#[trigger] ids@[k]) < xys.len(),
            walk_pixel_s(
                ids@,
                xys@,
                conics@,
                colors@,
                opacs@,
                px,
                py,
                cur as int,
                hi as int,
                st,
            ) == walk_pixel_s(
                ids@,
                xys@,
                conics@,
                colors@,
                opacs@,
                px,
                py,
                lo as int,
                hi as int,
                init_pix_s(lo as int),
            ),
        ensures
            st == walk_pixel_s(
                ids@,
                xys@,
                conics@,
                colors@,
                opacs@,
                px,
                py,
                lo as int,
                hi as int,
                init_pix_s(lo as int),
            ),
        decreases hi - cur,
    {
        let g = ids[cur] as usize;
        let dx = csub(xys[g].x, px);
        let dy = csub(xys[g].y, py);
        let sigma = cadd(
            idiv(cadd(fmul(conics[g].xx, fmul(dx, dx)), fmul(conics[g].yy, fmul(dy, dy))), 2),
            fmul(conics[g].xy, fmul(dx, dy)),
        );
        let alpha = fmin(ALPHA_MAX, fmul(opacs[g], fexp_neg(sigma)));
        if sigma < 0 || alpha < ALPHA_FLOOR {
            cur = cur + 1;
            continue ;
        }
        let next_t = fmul(st.t, csub(FIX_ONE, alpha));
        if next_t <= T_EPS {
            break ;
        }
        let w = fmul(alpha, st.t);
        st = PixState {
            t: next_t,
            r: cadd(st.r, fmul(w, colors[g].r)),
            g: cadd(st.g, fmul(w, colors[g].g)),
            b: cadd(st.b, fmul(w, colors[g].b)),
            last: (cur as u64) + 1,
        };
        cur = cur + 1;
    }
    st
}


#[verifier::rlimit(100)]
#[verifier::spinoff_prover]
fn raster_all_pixels(
    gaussian_ids_sorted: &Vec<u64>,
    tile_bins: &Vec<(u64, u64)>,
    xys: &Vec<Vec2>,
    conics: &Vec<Cov2D>,
    colors: &Vec<Color>,
    opacity: &Vec<i64>,
    tb_x: u32,
    tb_y: u32,
    bw: u32,
    w: u32,
    h: u32,
    background: Color,
) -> (r: (Vec<i64>, Vec<u64>, Vec<Color>))
    requires
        bw >= 1,
        conics.len() == xys.len(),
        colors.len() == xys.len(),
        opacity.len() == xys.len(),
        forall|k: int| 0 <= k < gaussian_ids_sorted.len() ==> (#[trigger] gaussian_ids_sorted@[k]) < xys.len(),
        tile_bins.len() == (tb_x as int) * (tb_y as int),
        forall|t: int|
            0 <= t < tile_bins.len() ==> (#[trigger] tile_bins@[t]).0 <= tile_bins@[t].1
                && tile_bins@[t].1 <= gaussian_ids_sorted.len(),
        (w as int) <= (tb_x as int) * (bw as int),
        (h as int) <= (tb_y as int) * (bw as int),
    ensures
        r.0.len() == (w as int) * (h as int),
        r.1.len() == (w as int) * (h as int),
        r.2.len() == (w as int) * (h as int),
        forall|p: int|
            #![trigger r.0@[p]]
            #![trigger r.1@[p]]
            #![trigger r.2@[p]]
            0 <= p < (w as int) * (h as int) ==> {
                let st = pixel_state_s(
                    gaussian_ids_sorted@,
                    xys@,
                    conics@,
                    colors@,
                    opacity@,
                    tile_bins@,
                    tb_x,
                    bw,
                    p % (w as int),
                    p / (w as int),
                );
                r.0@[p] == st.t && r.1@[p] == st.last && r.2@[p] == pixel_out_s(st, background)
            },
{
    let n = xys.len();
    proof {
        lemma_u32_mul_fits(w, h);
    }
    let total: u64 = (w as u64) * (h as u64);
    let mut final_ts: Vec<i64> = Vec::new();
    let mut final_index: Vec<u64> = Vec::new();
    let mut out_img: Vec<Color> = Vec::new();
    let mut p: u64 = 0;
    while p < total
        invariant
            p <= total,
            total == (w as int) * (h as int),
            n == xys.len(),
            conics.len() == n,
            colors.len() == n,
            opacity.len() == n,
                            bw >= 1,
                                                                            (w as int) <= (tb_x as int) * (bw as int),
            (h as int) <= (tb_y as int) * (bw as int),
            forall|j: int|
                0 <= j < gaussian_ids_sorted.len() ==> (#[trigger] gaussian_ids_sorted@[j])
                    < n,
            tile_bins.len() == (tb_x as int) * (tb_y as int),
            forall|j: int|
                0 <= j < tile_bins.len() ==> (#[trigger] tile_bins@[j]).0 <= tile_bins@[j].1
                    && tile_bins@[j].1 <= gaussian_ids_sorted.len(),
            final_ts.len() == p,
            final_index.len() == p,
            out_img.len() == p,
            forall|q: int|
                #![trigger final_ts@[q]]
                #![trigger final_index@[q]]
                #![trigger out_img@[q]]
                0 <= q < p ==> {
                    let st = pixel_state_s(
                        gaussian_ids_sorted@,
                        xys@,
                        conics@,
                        colors@,
                        opacity@,
                        tile_bins@,
                        tb_x,
                        bw,
                        q % (w as int),
                        q / (w as int),
                    );
                    final_ts@[q] == st.t && final_index@[q] == st.last && out_img@[q]
                        == pixel_out_s(st, background)
                },
        decreases total - p,
    {
        proof {
            lemma_row_major_bounds(p as int, w as int, h as int);
        }
        let x: u32 = (p % (w as u64)) as u32;
        let y: u32 = (p / (w as u64)) as u32;
        proof {
            lemma_pixel_tile_bound(x as int, w as int, bw as int, tb_x as int);
            lemma_pixel_tile_bound(y as int, h as int, bw as int, tb_y as int);
        }
        let st = raster_pixel(
            gaussian_ids_sorted,
            tile_bins,
            xys,
            conics,
            colors,
            opacity,
            tb_x,
            tb_y,
            bw,
            x,
            y,
        );
        let ghost old_ts = final_ts@;
        let ghost old_idx = final_index@;
        let ghost old_img = out_img@;
        final_ts.push(st.t);
        final_index.push(st.last);
        out_img.push(pixel_out(st, background));
        proof {
            assert(x as int == (p as int) % (w as int));
            assert(y as int == (p as int) / (w as int));
            assert(st == pixel_state_s(
                gaussian_ids_sorted@,
                xys@,
                conics@,
                colors@,
                opacity@,
                tile_bins@,
                tb_x,
                bw,
                (p as int) % (w as int),
                (p as int) / (w as int),
            ));
            assert(out_img@[p as int] == pixel_out_s(st, background));
            assert(final_ts@[p as int] == st.t);
            assert(final_index@[p as int] == st.last);
            assert forall|q: int|
                #![trigger final_ts@[q]]
                #![trigger final_index@[q]]
                #![trigger out_img@[q]]
                0 <= q < p as int + 1 implies {
                let stq = pixel_state_s(
                    gaussian_ids_sorted@,
                    xys@,
                    conics@,
                    colors@,
                    opacity@,
                    tile_bins@,
                    tb_x,
                    bw,
                    q % (w as int),
                    q / (w as int),
                );
                final_ts@[q] == stq.t && final_index@[q] == stq.last && out_img@[q]
                    == pixel_out_s(stq, background)
            } by {
                if q < p as int {
                    assert(out_img@[q] == old_img[q]);
                    assert(final_ts@[q] == old_ts[q]);
                    assert(final_index@[q] == old_idx[q]);
                    assert(old_img[q] == pixel_out_s(
                        pixel_state_s(
                            gaussian_ids_sorted@,
                            xys@,
                            conics@,
                            colors@,
                            opacity@,
                            tile_bins@,
                            tb_x,
                            bw,
                            q % (w as int),
                            q / (w as int),
                        ),
                        background,
                    ));
                }
            }
        }
        p = p + 1;
    }


    (final_ts, final_index, out_img)
}

impl RasterizeGaussians {
    /// Rasterize every pixel: per-pixel final transmittance, stop position,
    /// and color, each pinned by [`pixel_state_s`] at the pixel's row-major
    /// position.  Succeeds exactly when the per-Gaussian inputs agree in
    /// length, every sorted id names a Gaussian, the bin table covers the
    /// grid with ranges inside the record count, and the grid covers the
    /// image.  With no intersection records at all, the image is exactly
    /// the broadcast background.
    #[verifier::rlimit(100)]
    #[verifier::spinoff_prover]
    pub fn fwd(
        &self,
        gaussian_ids_sorted: &Vec<u64>,
        tile_bins: &Vec<(u64, u64)>,
        xys: &Vec<Vec2>,
        conics: &Vec<Cov2D>,
        colors: &Vec<Color>,
        opacity: &Vec<i64>,
    ) -> (r: Result<(Vec<i64>, Vec<u64>, Vec<Color>), GsplatError>)
        ensures
            r is Ok <==> (self.block_width >= 1 && conics.len() == xys.len() && colors.len()
                == xys.len() && opacity.len() == xys.len() && (forall|k: int|
                0 <= k < gaussian_ids_sorted.len() ==> (#[trigger] gaussian_ids_sorted@[k])
                    < xys.len()) && tile_bins.len() == (self.tile_bounds.0 as int)
                * (self.tile_bounds.1 as int) && (forall|t: int|
                0 <= t < tile_bins.len() ==> (#[trigger] tile_bins@[t]).0 <= tile_bins@[t].1
                    && tile_bins@[t].1 <= gaussian_ids_sorted.len()) && (self.img_size.0 as int)
                <= (self.tile_bounds.0 as int) * (self.block_width as int) && (self.img_size.1
                as int) <= (self.tile_bounds.1 as int) * (self.block_width as int)),
            r is Ok ==> ({
                let w = self.img_size.0 as int;
                let h = self.img_size.1 as int;
                &&& r->Ok_0.0.len() == w * h
                &&& r->Ok_0.1.len() == w * h
                &&& r->Ok_0.2.len() == w * h
                &&& forall|p: int|
                    #![trigger r->Ok_0.0@[p]]
                    #![trigger r->Ok_0.1@[p]]
                    #![trigger r->Ok_0.2@[p]]
                    0 <= p < w * h ==> {
                        let st = pixel_state_s(
                            gaussian_ids_sorted@,
                            xys@,
                            conics@,
                            colors@,
                            opacity@,
                            tile_bins@,
                            self.tile_bounds.0,
                            self.block_width,
                            p % w,
                            p / w,
                        );
                        r->Ok_0.0@[p] == st.t && r->Ok_0.1@[p] == st.last && r->Ok_0.2@[p]
                            == pixel_out_s(st, self.background)
                    }
            }),
            r is Ok && gaussian_ids_sorted.len() == 0 && self.background.r > i64::MIN
                && self.background.g > i64::MIN && self.background.b > i64::MIN ==> forall|p: int|
                0 <= p < (self.img_size.0 as int) * (self.img_size.1 as int)
                    ==> #[trigger] r->Ok_0.2@[p] == self.background,
    {
        let w = self.img_size.0;
        let h = self.img_size.1;
        let bw = self.block_width;
        let tb_x = self.tile_bounds.0;
        let tb_y = self.tile_bounds.1;
        let n = xys.len();
        if bw < 1 || conics.len() != n || colors.len() != n || opacity.len() != n {
            return Err(GsplatError::MismatchedInputs);
        }
        proof {
            lemma_u32_mul_fits(tb_x, tb_y);
            lemma_u32_mul_fits(tb_x, bw);
            lemma_u32_mul_fits(tb_y, bw);
            lemma_u32_mul_fits(w, h);
        }
        if tile_bins.len() as u64 != (tb_x as u64) * (tb_y as u64) {
            return Err(GsplatError::MismatchedInputs);
        }
        if (w as u64) > (tb_x as u64) * (bw as u64) || (h as u64) > (tb_y as u64) * (bw as u64) {
            return Err(GsplatError::MismatchedInputs);
        }
        let mut k: usize = 0;
        while k < gaussian_ids_sorted.len()
            invariant
                k <= gaussian_ids_sorted.len(),
                n == xys.len(),
                forall|j: int| 0 <= j < k ==> (#[trigger] gaussian_ids_sorted@[j]) < n,
            decreases gaussian_ids_sorted.len() - k,
        {
            if gaussian_ids_sorted[k] >= n as u64 {
                return Err(GsplatError::IndexOutOfBounds);
            }
            k = k + 1;
        }
        let mut t: usize = 0;
        while t < tile_bins.len()
            invariant
                t <= tile_bins.len(),
                forall|j: int|
                    0 <= j < t ==> (#[trigger] tile_bins@[j]).0 <= tile_bins@[j].1
                        && tile_bins@[j].1 <= gaussian_ids_sorted.len(),
            decreases tile_bins.len() - t,
        {
            let rng = tile_bins[t];
            if rng.0 > rng.1 || rng.1 > gaussian_ids_sorted.len() as u64 {
                return Err(GsplatError::IndexOutOfBounds);
            }
            t = t + 1;
        }
        let (final_ts, final_index, out_img) = raster_all_pixels(
            gaussian_ids_sorted,
            tile_bins,
            xys,
            conics,
            colors,
            opacity,
            tb_x,
            tb_y,
            bw,
            w,
            h,
            self.background,
        );
        proof {
            if gaussian_ids_sorted.len() == 0 && self.background.r > i64::MIN
                && self.background.g > i64::MIN && self.background.b > i64::MIN {
                assert forall|q: int|
                    0 <= q < (w as int) * (h as int) implies #[trigger] out_img@[q]
                    == self.background by {
                    reveal(pixel_state_s);
                    lemma_row_major_bounds(q, w as int, h as int);
                    let xx = q % (w as int);
                    let yy = q / (w as int);
                    let tile = tile_index_s(
                        (xx / (bw as int)) as u32,
                        (yy / (bw as int)) as u32,
                        tb_x,
                    );
                    lemma_pixel_tile_bound(xx, w as int, bw as int, tb_x as int);
                    lemma_pixel_tile_bound(yy, h as int, bw as int, tb_y as int);
                    crate::grid::lemma_u32_mul_fits(tb_x, tb_y);
                    assert((yy / (bw as int)) * (tb_x as int) + (xx / (bw as int)) < (tb_x
                        as int) * (tb_y as int)) by (nonlinear_arith)
                        requires
                            0 <= xx / (bw as int) < tb_x as int,
                            0 <= yy / (bw as int) < tb_y as int,
                    ;
                    let rng = tile_bins@[tile as int];
                    assert(rng.0 == rng.1);
                    lemma_empty_walk_background(
                        gaussian_ids_sorted@,
                        xys@,
                        conics@,
                        colors@,
                        opacity@,
                        sfix(xx as i64),
                        sfix(yy as i64),
                        rng.0 as int,
                        self.background,
                    );
                }
            }
        }
        Ok((final_ts, final_index, out_img))
    }
}

fn pixel_out(st: PixState, bg: Color) -> (r: Color)
    ensures
        r == pixel_out_s(st, bg),
{
    Color {
        r: cadd(st.r, fmul(st.t, bg.r)),
        g: cadd(st.g, fmul(st.t, bg.g)),
        b: cadd(st.b, fmul(st.t, bg.b)),
    }
}

proof fn lemma_pixel_tile_bound(x: int, size: int, bw: int, tb: int)
    requires
        0 <= x < size,
        bw >= 1,
        tb >= 0,
        size <= tb * bw,
    ensures
        x / bw < tb,
{
    assert(tb >= 1) by (nonlinear_arith)
        requires
            0 <= x < size,
            bw >= 1,
            size <= tb * bw,
    ;
    vstd::arithmetic::div_mod::lemma_div_pos_is_pos(x, bw);
    vstd::arithmetic::div_mod::lemma_div_is_ordered(x, tb * bw - 1, bw);
    assert((tb - 1) * bw + (bw - 1) == tb * bw - 1) by (nonlinear_arith);
    vstd::arithmetic::div_mod::lemma_fundamental_div_mod_converse(tb * bw - 1, bw, tb - 1, bw - 1);
}

proof fn lemma_row_major_bounds(p: int, w: int, h: int)
    requires
        w >= 1,
        0 <= p < w * h,
    ensures
        0 <= p / w < h,
        0 <= p % w < w,
        (p / w) * w + (p % w) == p,
{
    vstd::arithmetic::div_mod::lemma_fundamental_div_mod(p, w);
    vstd::arithmetic::div_mod::lemma_mod_bound(p, w);
    vstd::arithmetic::div_mod::lemma_div_pos_is_pos(p, w);
    assert(p / w < h) by {
        if p / w >= h {
            assert(w * (p / w) >= w * h) by (nonlinear_arith)
                requires
                    p / w >= h,
                    w >= 1,
            ;
        }
    }
    assert((p / w) * w == w * (p / w)) by (nonlinear_arith);
}

/// Tiles needed to cover `size` pixels with tiles of `bw` pixels a side.
pub open spec fn tile_count_s(size: u32, bw: u32) -> u32 {
    (((size as int) + (bw as int) - 1) / (bw as int)) as u32
}

proof fn lemma_tile_count(size: u32, bw: u32)
    requires
        bw >= 1,
    ensures
        (tile_count_s(size, bw) as int) * (bw as int) >= size as int,
        tile_count_s(size, bw) <= size,
        tile_count_s(size, bw) as int == ((size as int) + (bw as int) - 1) / (bw as int),
{
    let si = size as int;
    let bi = bw as int;
    let q = (si + bi - 1) / bi;
    vstd::arithmetic::div_mod::lemma_div_pos_is_pos(si + bi - 1, bi);
    vstd::arithmetic::div_mod::lemma_fundamental_div_mod(si + bi - 1, bi);
    vstd::arithmetic::div_mod::lemma_mod_bound(si + bi - 1, bi);
    assert(si * bi >= si) by (nonlinear_arith)
        requires
            si >= 0,
            bi >= 1,
    ;
    assert(si * bi + bi - 1 == (si + 1) * bi - 1) by (nonlinear_arith);
    vstd::arithmetic::div_mod::lemma_div_is_ordered(si + bi - 1, (si + 1) * bi - 1, bi);
    assert(bi * si + (bi - 1) == (si + 1) * bi - 1) by (nonlinear_arith);
    vstd::arithmetic::div_mod::lemma_fundamental_div_mod_converse((si + 1) * bi - 1, bi, si, bi - 1);
    assert(bi * q >= si) by {
        assert(bi * q == si + bi - 1 - (si + bi - 1) % bi);
    }
    assert(q * bi == bi * q) by (nonlinear_arith);
}

/// The compositing state the full pipeline reaches at the pixel with
/// row-major position `p`, starting from the raw projected inputs: the
/// records are enumerated, sorted, and binned, and the pixel walks its
/// tile's range.
#[verifier::opaque]
pub open spec fn rasterize_pixel_state_s(
    xys: Seq<Vec2>,
    depths: Seq<i64>,
    radii: Seq<i64>,
    conics: Seq<Cov2D>,
    colors: Seq<Color>,
    opacs: Seq<i64>,
    n: int,
    img_width: u32,
    img_height: u32,
    block_width: u32,
    p: int,
) -> PixState {
    let tbx = tile_count_s(img_width, block_width);
    let tby = tile_count_s(img_height, block_width);
    let sorted = sort_recs_s(all_recs_s(xys, depths, radii, tbx, tby, n));
    let ids = sorted.map_values(|r: IsectRecord| r.gaussian_id);
    let bins = bins_scan_s(keys_of_s(sorted), (tbx as int) * (tby as int), sorted.len() as int);
    pixel_state_s(
        ids,
        xys,
        conics,
        colors,
        opacs,
        bins,
        tbx,
        block_width,
        p % (img_width as int),
        p / (img_width as int),
    )
}

/// Rasterize a projected scene: derive the tile grid, enumerate, sort and
/// bin the intersection records, and composite every pixel.  Succeeds
/// exactly when the per-Gaussian inputs agree in length, the total
/// tile-hit count fits the counter word, and the given tile-hit counts
/// name the true per-footprint record counts (which projection guarantees,
/// see [`crate::isect::lemma_projected_intersect_count`]).  Each output
/// pixel is pinned by [`rasterize_pixel_state_s`]; with no intersection
/// records the image is exactly the broadcast background.
#[verifier::rlimit(100)]
#[verifier::spinoff_prover]
pub fn rasterize_gaussians(
    xys: &Vec<Vec2>,
    depths: &Vec<i64>,
    radii: &Vec<i64>,
    conics: &Vec<Cov2D>,
    num_tiles_hit: &Vec<u64>,
    colors: &Vec<Color>,
    opacity: &Vec<i64>,
    img_height: u32,
    img_width: u32,
    block_width: u32,
    background: Option<Color>,
    return_alpha: Option<bool>,
) -> (r: Result<(Vec<Color>, Option<Vec<i64>>), GsplatError>)
    requires
        xys.len() >= 1,
        block_width >= 1,
    ensures
        ({
            let n = xys.len() as int;
            let tbx = tile_count_s(img_width, block_width);
            let tby = tile_count_s(img_height, block_width);
            let bg = match background {
                Option::Some(c) => c,
                Option::None => Color { r: FIX_ONE, g: FIX_ONE, b: FIX_ONE },
            };
            let nrecs = all_recs_s(xys@, depths@, radii@, tbx, tby, n).len();
            &&& (r is Ok <==> (depths.len() == n && radii.len() == n && conics.len() == n
                && num_tiles_hit.len() == n && colors.len() == n && opacity.len() == n
                && sum_hits_s(num_tiles_hit@, n) <= u64::MAX && nrecs == sum_hits_s(
                num_tiles_hit@,
                n,
            )))
            &&& (r is Ok ==> ({
                let out = r->Ok_0;
                &&& out.0.len() == (img_width as int) * (img_height as int)
                &&& forall|p: int|
                    #![trigger out.0@[p]]
                    0 <= p < (img_width as int) * (img_height as int) ==> out.0@[p]
                        == pixel_out_s(
                        rasterize_pixel_state_s(
                            xys@,
                            depths@,
                            radii@,
                            conics@,
                            colors@,
                            opacity@,
                            n,
                            img_width,
                            img_height,
                            block_width,
                            p,
                        ),
                        bg,
                    )
                &&& (out.1 is Some <==> (return_alpha is Some && return_alpha->0))
                &&& (out.1 is Some ==> out.1->0.len() == (img_width as int) * (img_height as int)
                    && (forall|p: int|
                    0 <= p < (img_width as int) * (img_height as int)
                        ==> #[trigger] out.1->0@[p] == ssub(
                        FIX_ONE,
                        rasterize_pixel_state_s(
                            xys@,
                            depths@,
                            radii@,
                            conics@,
                            colors@,
                            opacity@,
                            n,
                            img_width,
                            img_height,
                            block_width,
                            p,
                        ).t,
                    )))
            }))
            &&& (r is Ok && nrecs == 0 && bg.r > i64::MIN && bg.g > i64::MIN && bg.b > i64::MIN
                ==> forall|p: int|
                0 <= p < (img_width as int) * (img_height as int) ==> #[trigger] r->Ok_0.0@[p]
                    == bg)
        }),
{
    let n = xys.len();
    let bg = match background {
        Some(c) => c,
        None => Color { r: FIX_ONE, g: FIX_ONE, b: FIX_ONE },
    };
    if depths.len() != n || radii.len() != n || conics.len() != n || num_tiles_hit.len() != n
        || colors.len() != n || opacity.len() != n {
        return Err(GsplatError::MismatchedInputs);
    }
    proof {
        lemma_tile_count(img_width, block_width);
        lemma_tile_count(img_height, block_width);
    }
    let tb_x: u32 = (((img_width as u64) + (block_width as u64) - 1) / (block_width as u64)) as u32;
    let tb_y: u32 = (((img_height as u64) + (block_width as u64) - 1) / (block_width as u64))
        as u32;
    let tile_bounds: (u32, u32, u32) = (tb_x, tb_y, 1);
    let (num_intersects, cum_tiles_hit) = match crate::isect::compute_cumulative_intersects(
        num_tiles_hit,
    ) {
        Ok(v) => v,
        Err(e) => {
            return Err(e);
        },
    };
    proof {
        lemma_sorted_recs_props_wrap(xys@, depths@, radii@, tb_x, tb_y, n as int);
    }
    let (_unsorted, sorted, tile_bins) = match crate::isect::bin_and_sort_gaussians(
        n,
        num_intersects,
        xys,
        depths,
        radii,
        &cum_tiles_hit,
        tile_bounds,
        block_width as usize,
    ) {
        Ok(v) => v,
        Err(e) => {
            return Err(e);
        },
    };
    let mut ids: Vec<u64> = Vec::new();
    let mut i: usize = 0;
    while i < sorted.len()
        invariant
            i <= sorted.len(),
            ids.len() == i,
            forall|j: int| 0 <= j < i ==> #[trigger] ids@[j] == sorted@[j].gaussian_id,
        decreases sorted.len() - i,
    {
        ids.push(sorted[i].gaussian_id);
        i = i + 1;
    }
    proof {
        assert(ids@ =~= sorted@.map_values(|rec: IsectRecord| rec.gaussian_id));
        assert forall|k: int| 0 <= k < ids.len() implies (#[trigger] ids@[k]) < n by {
            assert(ids@[k] == sorted@[k].gaussian_id);
        }
        crate::isect::lemma_sorted_recs_keys(sorted@);
        crate::isect::lemma_tile_bins_partition(
            crate::isect::keys_of_s(sorted@),
            (tb_x as int) * (tb_y as int),
        );
        let bins = bins_scan_s(
            crate::isect::keys_of_s(sorted@),
            (tb_x as int) * (tb_y as int),
            sorted@.len() as int,
        );
        assert(tile_bins@ == bins);
        assert forall|t: int|
            0 <= t < tile_bins.len() implies (#[trigger] tile_bins@[t]).0 <= tile_bins@[t].1
            && tile_bins@[t].1 <= ids.len() by {
            if crate::isect::tile_seen_s(
                crate::isect::keys_of_s(sorted@),
                t,
                sorted@.len() as int,
            ) {
            } else {
            }
        }
    }
    let rg = RasterizeGaussians {
        tile_bounds,
        img_size: (img_width, img_height, 1),
        block_width,
        background: bg,
    };
    let (final_ts, _final_index, out_img) = match rg.fwd(
        &ids,
        &tile_bins,
        xys,
        conics,
        colors,
        opacity,
    ) {
        Ok(v) => v,
        Err(e) => {
            return Err(e);
        },
    };
    let want_alpha = match return_alpha {
        Some(b) => b,
        None => false,
    };
    let out_alpha: Option<Vec<i64>> = if want_alpha {
        let mut av: Vec<i64> = Vec::new();
        let mut k: usize = 0;
        while k < final_ts.len()
            invariant
                k <= final_ts.len(),
                av.len() == k,
                forall|q: int|
                    0 <= q < k ==> #[trigger] av@[q] == ssub(FIX_ONE, final_ts@[q]),
            decreases final_ts.len() - k,
        {
            av.push(csub(FIX_ONE, final_ts[k]));
            k = k + 1;
        }
        Some(av)
    } else {
        None
    };
    proof {
        reveal(rasterize_pixel_state_s);
    }
    Ok((out_img, out_alpha))
}

/// The sorted records of any scene stay inside the scene and the grid.
proof fn lemma_sorted_recs_props_wrap(
    xys: Seq<Vec2>,
    depths: Seq<i64>,
    radii: Seq<i64>,
    tb_x: u32,
    tb_y: u32,
    n: int,
)
    requires
        0 <= n <= 0x10000000000000000,
    ensures
        forall|j: int|
            0 <= j < sort_recs_s(all_recs_s(xys, depths, radii, tb_x, tb_y, n)).len() ==> ((
            #[trigger] sort_recs_s(all_recs_s(xys, depths, radii, tb_x, tb_y, n))[j]).gaussian_id
                < n && (crate::isect::tile_of_key_s(
                sort_recs_s(all_recs_s(xys, depths, radii, tb_x, tb_y, n))[j].key,
            ) as int) < (tb_x as int) * (tb_y as int)),
{
    crate::isect::lemma_sorted_recs_props(xys, depths, radii, tb_x, tb_y, n);
}

/// Rasterization is a function of its inputs alone: two runs on identical
/// inputs yield byte-identical images.
pub proof fn lemma_rasterize_idempotent(
    xys: Seq<Vec2>,
    depths: Seq<i64>,
    radii: Seq<i64>,
    conics: Seq<Cov2D>,
    colors: Seq<Color>,
    opacs: Seq<i64>,
    n: int,
    img_width: u32,
    img_height: u32,
    block_width: u32,
    bg: Color,
    img1: Seq<Color>,
    img2: Seq<Color>,
)
    requires
        img1.len() == (img_width as int) * (img_height as int),
        img2.len() == (img_width as int) * (img_height as int),
        forall|p: int|
            0 <= p < img1.len() ==> #[trigger] img1[p] == pixel_out_s(
                rasterize_pixel_state_s(
                    xys,
                    depths,
                    radii,
                    conics,
                    colors,
                    opacs,
                    n,
                    img_width,
                    img_height,
                    block_width,
                    p,
                ),
                bg,
            ),
        forall|p: int|
            0 <= p < img2.len() ==> #[trigger] img2[p] == pixel_out_s(
                rasterize_pixel_state_s(
                    xys,
                    depths,
                    radii,
                    conics,
                    colors,
                    opacs,
                    n,
                    img_width,
                    img_height,
                    block_width,
                    p,
                ),
                bg,
            ),
    ensures
        img1 =~= img2,
{
}

/// A zeroed per-Gaussian gradient accumulator.
pub open spec fn zero_grad_s() -> RasterGrad {
    RasterGrad {
        xy: Vec2 { x: 0, y: 0 },
        conic: Cov2D { xx: 0, xy: 0, yy: 0 },
        color: Color { r: 0, g: 0, b: 0 },
        opacity: 0,
    }
}

/// Back-to-front replay of one pixel's walk, from position `idx` down to
/// `lo`: the running transmittance is rebuilt by undividing each kept
/// Gaussian's weight, and that Gaussian's gradient accumulator receives
/// its share of the pixel's output gradient.
pub open spec fn bwd_walk_s(
    ids: Seq<u64>,
    xys: Seq<Vec2>,
    conics: Seq<Cov2D>,
    colors: Seq<Color>,
    opacs: Seq<i64>,
    bg: Color,
    vout: Color,
    vout_a: i64,
    t_final: i64,
    px: i64,
    py: i64,
    lo: int,
    idx: int,
    t: i64,
    buf: Color,
    acc: Seq<RasterGrad>,
) -> Seq<RasterGrad>
    decreases idx + 1 - lo,
{
    if idx < lo {
        acc
    } else {
        let g = ids[idx] as int;
        let dx = ssub(xys[g].x, px);
        let dy = ssub(xys[g].y, py);
        let sigma = sigma_s(conics[g], dx, dy);
        let vis = sexp_neg(sigma);
        let alpha = smin(ALPHA_MAX, smul(opacs[g], vis));
        if sigma < 0 || alpha < ALPHA_FLOOR {
            bwd_walk_s(
                ids, xys, conics, colors, opacs, bg, vout, vout_a, t_final, px, py, lo, idx - 1,
                t, buf, acc,
            )
        } else {
            let ra = sdiv(FIX_ONE, ssub(FIX_ONE, alpha));
            let t2 = smul(t, ra);
            let fac = smul(alpha, t2);
            let v_alpha0 = sadd(
                sadd(
                    smul(ssub(smul(colors[g].r, t2), smul(buf.r, ra)), vout.r),
                    smul(ssub(smul(colors[g].g, t2), smul(buf.g, ra)), vout.g),
                ),
                smul(ssub(smul(colors[g].b, t2), smul(buf.b, ra)), vout.b),
            );
            let bgdot = sadd(sadd(smul(bg.r, vout.r), smul(bg.g, vout.g)), smul(bg.b, vout.b));
            let v_alpha = ssub(
                sadd(v_alpha0, smul(smul(t_final, ra), vout_a)),
                smul(smul(t_final, ra), bgdot),
            );
            let v_sigma = sneg(smul(smul(opacs[g], vis), v_alpha));
            let prev = acc[g];
            let upd = RasterGrad {
                xy: Vec2 {
                    x: sadd(
                        prev.xy.x,
                        smul(v_sigma, sadd(smul(conics[g].xx, dx), smul(conics[g].xy, dy))),
                    ),
                    y: sadd(
                        prev.xy.y,
                        smul(v_sigma, sadd(smul(conics[g].xy, dx), smul(conics[g].yy, dy))),
                    ),
                },
                conic: Cov2D {
                    xx: sadd(prev.conic.xx, sidiv(smul(v_sigma, smul(dx, dx)), 2)),
                    xy: sadd(prev.conic.xy, smul(v_sigma, smul(dx, dy))),
                    yy: sadd(prev.conic.yy, sidiv(smul(v_sigma, smul(dy, dy)), 2)),
                },
                color: Color {
                    r: sadd(prev.color.r, smul(fac, vout.r)),
                    g: sadd(prev.color.g, smul(fac, vout.g)),
                    b: sadd(prev.color.b, smul(fac, vout.b)),
                },
                opacity: sadd(prev.opacity, smul(vis, v_alpha)),
            };
            let buf2 = Color {
                r: sadd(buf.r, smul(colors[g].r, fac)),
                g: sadd(buf.g, smul(colors[g].g, fac)),
                b: sadd(buf.b, smul(colors[g].b, fac)),
            };
            bwd_walk_s(
                ids, xys, conics, colors, opacs, bg, vout, vout_a, t_final, px, py, lo, idx - 1,
                t2, buf2, acc.update(g, upd),
            )
        }
    }
}

/// One pixel's contribution to the gradient accumulators.
#[verifier::opaque]
pub open spec fn bwd_pixel_s(
    ids: Seq<u64>,
    xys: Seq<Vec2>,
    conics: Seq<Cov2D>,
    colors: Seq<Color>,
    opacs: Seq<i64>,
    bins: Seq<(u64, u64)>,
    tb_x: u32,
    block_width: u32,
    bg: Color,
    vout: Color,
    vout_a: i64,
    t_final: i64,
    f_idx: u64,
    x: int,
    y: int,
    acc: Seq<RasterGrad>,
) -> Seq<RasterGrad> {
    let tile = tile_index_s(
        (x / (block_width as int)) as u32,
        (y / (block_width as int)) as u32,
        tb_x,
    );
    let rng = bins[tile as int];
    bwd_walk_s(
        ids,
        xys,
        conics,
        colors,
        opacs,
        bg,
        vout,
        vout_a,
        t_final,
        sfix(x as i64),
        sfix(y as i64),
        rng.0 as int,
        f_idx as int - 1,
        t_final,
        Color { r: 0, g: 0, b: 0 },
        acc,
    )
}

/// The gradient accumulators after the first `p` pixels have replayed
/// their walks, pixel by pixel in row-major order.
pub open spec fn bwd_image_s(
    ids: Seq<u64>,
    xys: Seq<Vec2>,
    conics: Seq<Cov2D>,
    colors: Seq<Color>,
    opacs: Seq<i64>,
    bins: Seq<(u64, u64)>,
    tb_x: u32,
    block_width: u32,
    bg: Color,
    vouts: Seq<Color>,
    vout_as: Seq<i64>,
    t_finals: Seq<i64>,
    f_idxs: Seq<u64>,
    w: int,
    p: int,
    acc: Seq<RasterGrad>,
) -> Seq<RasterGrad>
    decreases p,
{
    if p <= 0 {
        acc
    } else {
        bwd_pixel_s(
            ids,
            xys,
            conics,
            colors,
            opacs,
            bins,
            tb_x,
            block_width,
            bg,
            vouts[p - 1],
            vout_as[p - 1],
            t_finals[p - 1],
            f_idxs[p - 1],
            (p - 1) % w,
            (p - 1) / w,
            bwd_image_s(
                ids,
                xys,
                conics,
                colors,
                opacs,
                bins,
                tb_x,
                block_width,
                bg,
                vouts,
                vout_as,
                t_finals,
                f_idxs,
                w,
                p - 1,
                acc,
            ),
        )
    }
}

#[verifier::rlimit(100)]
#[verifier::spinoff_prover]
fn bwd_pixel(
    ids: &Vec<u64>,
    bins: &Vec<(u64, u64)>,
    xys: &Vec<Vec2>,
    conics: &Vec<Cov2D>,
    colors: &Vec<Color>,
    opacs: &Vec<i64>,
    grads: &mut Vec<RasterGrad>,
    bg: Color,
    vout: Color,
    vout_a: i64,
    t_final: i64,
    f_idx: u64,
    tb_x: u32,
    tb_y: u32,
    block_width: u32,
    x: u32,
    y: u32,
)
    requires
        block_width >= 1,
        conics.len() == xys.len(),
        colors.len() == xys.len(),
        opacs.len() == xys.len(),
        old(grads).len() == xys.len(),
        forall|k: int| 0 <= k < ids.len() ==> (#[trigger] ids@[k]) < xys.len(),
        bins.len() == (tb_x as int) * (tb_y as int),
        forall|t: int|
            0 <= t < bins.len() ==> (#[trigger] bins@[t]).0 <= bins@[t].1 && bins@[t].1
                <= ids.len(),
        f_idx <= ids.len(),
        (x as int) / (block_width as int) < tb_x,
        (y as int) / (block_width as int) < tb_y,
    ensures
        final(grads)@ == bwd_pixel_s(
            ids@,
            xys@,
            conics@,
            colors@,
            opacs@,
            bins@,
            tb_x,
            block_width,
            bg,
            vout,
            vout_a,
            t_final,
            f_idx,
            x as int,
            y as int,
            old(grads)@,
        ),
        final(grads).len() == old(grads).len(),
{
    proof {
        reveal(bwd_pixel_s);
    }
    let tx = x / block_width;
    let ty = y / block_width;
    let tile = tile_index(tx, ty, tb_x, tb_y);
    proof {
        lemma_u32_mul_fits(tb_x, tb_y);
    }
    let rng = bins[tile as usize];
    let lo: u64 = rng.0;
    let px = int_to_fix(x as i64);
    let py = int_to_fix(y as i64);
    let mut t: i64 = t_final;
    let mut buf = Color { r: 0, g: 0, b: 0 };
    let mut cur: u64 = f_idx;
    while cur > lo
        invariant_except_break
            cur <= f_idx,
            f_idx <= ids.len(),
            conics.len() == xys.len(),
            colors.len() == xys.len(),
            opacs.len() == xys.len(),
            grads.len() == xys.len(),
            forall|k: int| 0 <= k < ids.len() ==> (#[trigger] ids@[k]) < xys.len(),
            bwd_walk_s(
                ids@,
                xys@,
                conics@,
                colors@,
                opacs@,
                bg,
                vout,
                vout_a,
                t_final,
                px,
                py,
                lo as int,
                cur as int - 1,
                t,
                buf,
                grads@,
            ) == bwd_walk_s(
                ids@,
                xys@,
                conics@,
                colors@,
                opacs@,
                bg,
                vout,
                vout_a,
                t_final,
                px,
                py,
                lo as int,
                f_idx as int - 1,
                t_final,
                Color { r: 0, g: 0, b: 0 },
                old(grads)@,
            ),
        ensures
            grads.len() == xys.len(),
            grads@ == bwd_walk_s(
                ids@,
                xys@,
                conics@,
                colors@,
                opacs@,
                bg,
                vout,
                vout_a,
                t_final,
                px,
                py,
                lo as int,
                f_idx as int - 1,
                t_final,
                Color { r: 0, g: 0, b: 0 },
                old(grads)@,
            ),
        decreases cur,
    {
        let idx = (cur - 1) as usize;
        let g = ids[idx] as usize;
        let dx = csub(xys[g].x, px);
        let dy = csub(xys[g].y, py);
        let sigma = cadd(
            idiv(cadd(fmul(conics[g].xx, fmul(dx, dx)), fmul(conics[g].yy, fmul(dy, dy))), 2),
            fmul(conics[g].xy, fmul(dx, dy)),
        );
        let vis = fexp_neg(sigma);
        let alpha = fmin(ALPHA_MAX, fmul(opacs[g], vis));
        if sigma < 0 || alpha < ALPHA_FLOOR {
            cur = cur - 1;
            continue ;
        }
        let ra = fdiv(FIX_ONE, csub(FIX_ONE, alpha));
        let t2 = fmul(t, ra);
        let fac = fmul(alpha, t2);
        let v_alpha0 = cadd(
            cadd(
                fmul(csub(fmul(colors[g].r, t2), fmul(buf.r, ra)), vout.r),
                fmul(csub(fmul(colors[g].g, t2), fmul(buf.g, ra)), vout.g),
            ),
            fmul(csub(fmul(colors[g].b, t2), fmul(buf.b, ra)), vout.b),
        );
        let bgdot = cadd(cadd(fmul(bg.r, vout.r), fmul(bg.g, vout.g)), fmul(bg.b, vout.b));
        let v_alpha = csub(
            cadd(v_alpha0, fmul(fmul(t_final, ra), vout_a)),
            fmul(fmul(t_final, ra), bgdot),
        );
        let v_sigma = cneg(fmul(fmul(opacs[g], vis), v_alpha));
        let prev = grads[g];
        let upd = RasterGrad {
            xy: Vec2 {
                x: cadd(
                    prev.xy.x,
                    fmul(v_sigma, cadd(fmul(conics[g].xx, dx), fmul(conics[g].xy, dy))),
                ),
                y: cadd(
                    prev.xy.y,
                    fmul(v_sigma, cadd(fmul(conics[g].xy, dx), fmul(conics[g].yy, dy))),
                ),
            },
            conic: Cov2D {
                xx: cadd(prev.conic.xx, idiv(fmul(v_sigma, fmul(dx, dx)), 2)),
                xy: cadd(prev.conic.xy, fmul(v_sigma, fmul(dx, dy))),
                yy: cadd(prev.conic.yy, idiv(fmul(v_sigma, fmul(dy, dy)), 2)),
            },
            color: Color {
                r: cadd(prev.color.r, fmul(fac, vout.r)),
                g: cadd(prev.color.g, fmul(fac, vout.g)),
                b: cadd(prev.color.b, fmul(fac, vout.b)),
            },
            opacity: cadd(prev.opacity, fmul(vis, v_alpha)),
        };
        grads.set(g, upd);
        buf = Color {
            r: cadd(buf.r, fmul(colors[g].r, fac)),
            g: cadd(buf.g, fmul(colors[g].g, fac)),
            b: cadd(buf.b, fmul(colors[g].b, fac)),
        };
        t = t2;
        cur = cur - 1;
    }
}

impl RasterizeGaussians {
    /// Backward rasterization: replay every pixel's walk in reverse and
    /// accumulate each Gaussian's share of the image (and alpha) gradient.
    /// Succeeds under the forward pass's conditions plus per-pixel
    /// gradient, transmittance and stop-position arrays of one entry per
    /// pixel, each stop position inside the record count; the accumulators
    /// are pinned by [`bwd_image_s`].
    #[verifier::rlimit(100)]
    #[verifier::spinoff_prover]
    pub fn bwd(
        &self,
        gaussian_ids_sorted: &Vec<u64>,
        tile_bins: &Vec<(u64, u64)>,
        xys: &Vec<Vec2>,
        conics: &Vec<Cov2D>,
        colors: &Vec<Color>,
        opacity: &Vec<i64>,
        final_ts: &Vec<i64>,
        final_index: &Vec<u64>,
        v_out: &Vec<Color>,
        v_out_alpha: &Vec<i64>,
    ) -> (r: Result<Vec<RasterGrad>, GsplatError>)
        ensures
            r is Ok <==> (self.block_width >= 1 && conics.len() == xys.len() && colors.len()
                == xys.len() && opacity.len() == xys.len() && (forall|k: int|
                0 <= k < gaussian_ids_sorted.len() ==> (#[trigger] gaussian_ids_sorted@[k])
                    < xys.len()) && tile_bins.len() == (self.tile_bounds.0 as int)
                * (self.tile_bounds.1 as int) && (forall|t: int|
                0 <= t < tile_bins.len() ==> (#[trigger] tile_bins@[t]).0 <= tile_bins@[t].1
                    && tile_bins@[t].1 <= gaussian_ids_sorted.len()) && (self.img_size.0 as int)
                <= (self.tile_bounds.0 as int) * (self.block_width as int) && (self.img_size.1
                as int) <= (self.tile_bounds.1 as int) * (self.block_width as int)
                && final_ts.len() == (self.img_size.0 as int) * (self.img_size.1 as int)
                && final_index.len() == final_ts.len() && v_out.len() == final_ts.len()
                && v_out_alpha.len() == final_ts.len() && (forall|p: int|
                0 <= p < final_index.len() ==> (#[trigger] final_index@[p])
                    <= gaussian_ids_sorted.len())),
            r is Ok ==> r->Ok_0.len() == xys.len(),
            r is Ok ==> r->Ok_0@ == bwd_image_s(
                gaussian_ids_sorted@,
                xys@,
                conics@,
                colors@,
                opacity@,
                tile_bins@,
                self.tile_bounds.0,
                self.block_width,
                self.background,
                v_out@,
                v_out_alpha@,
                final_ts@,
                final_index@,
                self.img_size.0 as int,
                (self.img_size.0 as int) * (self.img_size.1 as int),
                Seq::new(xys.len() as nat, |i: int| zero_grad_s()),
            ),
    {
        let w = self.img_size.0;
        let h = self.img_size.1;
        let bw = self.block_width;
        let tb_x = self.tile_bounds.0;
        let tb_y = self.tile_bounds.1;
        let n = xys.len();
        if bw < 1 || conics.len() != n || colors.len() != n || opacity.len() != n {
            return Err(GsplatError::MismatchedInputs);
        }
        proof {
            lemma_u32_mul_fits(tb_x, tb_y);
            lemma_u32_mul_fits(tb_x, bw);
            lemma_u32_mul_fits(tb_y, bw);
            lemma_u32_mul_fits(w, h);
        }
        if tile_bins.len() as u64 != (tb_x as u64) * (tb_y as u64) {
            return Err(GsplatError::MismatchedInputs);
        }
        if (w as u64) > (tb_x as u64) * (bw as u64) || (h as u64) > (tb_y as u64) * (bw as u64) {
            return Err(GsplatError::MismatchedInputs);
        }
        let total: u64 = (w as u64) * (h as u64);
        if final_ts.len() as u64 != total || final_index.len() as u64 != total || v_out.len()
            as u64 != total || v_out_alpha.len() as u64 != total {
            return Err(GsplatError::MismatchedInputs);
        }
        let mut k: usize = 0;
        while k < gaussian_ids_sorted.len()
            invariant
                k <= gaussian_ids_sorted.len(),
                n == xys.len(),
                forall|j: int| 0 <= j < k ==> (#[trigger] gaussian_ids_sorted@[j]) < n,
            decreases gaussian_ids_sorted.len() - k,
        {
            if gaussian_ids_sorted[k] >= n as u64 {
                return Err(GsplatError::IndexOutOfBounds);
            }
            k = k + 1;
        }
        let mut t: usize = 0;
        while t < tile_bins.len()
            invariant
                t <= tile_bins.len(),
                forall|j: int|
                    0 <= j < t ==> (#[trigger] tile_bins@[j]).0 <= tile_bins@[j].1
                        && tile_bins@[j].1 <= gaussian_ids_sorted.len(),
            decreases tile_bins.len() - t,
        {
            let rng = tile_bins[t];
            if rng.0 > rng.1 || rng.1 > gaussian_ids_sorted.len() as u64 {
                return Err(GsplatError::IndexOutOfBounds);
            }
            t = t + 1;
        }
        let mut q: usize = 0;
        while q < final_index.len()
            invariant
                q <= final_index.len(),
                forall|j: int|
                    0 <= j < q ==> (#[trigger] final_index@[j]) <= gaussian_ids_sorted.len(),
            decreases final_index.len() - q,
        {
            if final_index[q] > gaussian_ids_sorted.len() as u64 {
                return Err(GsplatError::IndexOutOfBounds);
            }
            q = q + 1;
        }
        let mut grads: Vec<RasterGrad> = Vec::new();
        let mut z: usize = 0;
        while z < n
            invariant
                z <= n,
                grads.len() == z,
                forall|j: int| 0 <= j < z ==> #[trigger] grads@[j] == zero_grad_s(),
            decreases n - z,
        {
            grads.push(
                RasterGrad {
                    xy: Vec2 { x: 0, y: 0 },
                    conic: Cov2D { xx: 0, xy: 0, yy: 0 },
                    color: Color { r: 0, g: 0, b: 0 },
                    opacity: 0,
                },
            );
            z = z + 1;
        }
        proof {
            assert(grads@ =~= Seq::new(n as nat, |i: int| zero_grad_s()));
        }
        let ghost zero_acc = grads@;
        let mut p: u64 = 0;
        while p < total
            invariant
                p <= total,
                total == (w as int) * (h as int),
                n == xys.len(),
                conics.len() == n,
                colors.len() == n,
                opacity.len() == n,
                grads.len() == n,
                bw == self.block_width,
                bw >= 1,
                w == self.img_size.0,
                h == self.img_size.1,
                tb_x == self.tile_bounds.0,
                tb_y == self.tile_bounds.1,
                (w as int) <= (tb_x as int) * (bw as int),
                (h as int) <= (tb_y as int) * (bw as int),
                forall|j: int|
                    0 <= j < gaussian_ids_sorted.len() ==> (#[trigger] gaussian_ids_sorted@[j])
                        < n,
                tile_bins.len() == (tb_x as int) * (tb_y as int),
                forall|j: int|
                    0 <= j < tile_bins.len() ==> (#[trigger] tile_bins@[j]).0 <= tile_bins@[j].1
                        && tile_bins@[j].1 <= gaussian_ids_sorted.len(),
                final_ts.len() == total,
                final_index.len() == total,
                v_out.len() == total,
                v_out_alpha.len() == total,
                forall|j: int|
                    0 <= j < final_index.len() ==> (#[trigger] final_index@[j])
                        <= gaussian_ids_sorted.len(),
                grads@ == bwd_image_s(
                    gaussian_ids_sorted@,
                    xys@,
                    conics@,
                    colors@,
                    opacity@,
                    tile_bins@,
                    tb_x,
                    bw,
                    self.background,
                    v_out@,
                    v_out_alpha@,
                    final_ts@,
                    final_index@,
                    w as int,
                    p as int,
                    zero_acc,
                ),
            decreases total - p,
        {
            proof {
                lemma_row_major_bounds(p as int, w as int, h as int);
            }
            let x: u32 = (p % (w as u64)) as u32;
            let y: u32 = (p / (w as u64)) as u32;
            proof {
                lemma_pixel_tile_bound(x as int, w as int, bw as int, tb_x as int);
                lemma_pixel_tile_bound(y as int, h as int, bw as int, tb_y as int);
            }
            bwd_pixel(
                gaussian_ids_sorted,
                tile_bins,
                xys,
                conics,
                colors,
                opacity,
                &mut grads,
                self.background,
                v_out[p as usize],
                v_out_alpha[p as usize],
                final_ts[p as usize],
                final_index[p as usize],
                tb_x,
                tb_y,
                bw,
                x,
                y,
            );
            p = p + 1;
        }
        Ok(grads)
    }
}

} // verus!

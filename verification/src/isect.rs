//! Intersection records, their composite sort keys, the sorter, and the
//! per-tile bin table.
//!
//! Every projected Gaussian with a positive radius is expanded into one
//! record per tile its footprint overlaps.  A record's key packs the tile
//! index above the encoded depth, so ascending numeric order sorts first by
//! tile and then front to back within a tile.

use crate::grid::{bbox_area_s, lemma_u32_mul_fits, tile_bbox, tile_bbox_s, tile_index,
    tile_index_s};
use crate::project::TILE_BLOCK;
use crate::types::{GsplatError, Vec2};
use vstd::pervasive::VecAdditionalExecFns;
use vstd::prelude::*;

verus! {

/// Place value of the tile index inside a key: 2^64.
pub const TILE_KEY_BASE: u128 = 0x10000000000000000;

/// Selects how splats are sorted by their distance to the camera.
#[derive(Clone, Copy, PartialEq, Eq, Structural, Debug)]
pub enum DepthSorting {
    /// No sorting at all.
    Unsorted,
    /// Sorting takes place on the CPU and is copied over to the GPU.
    Cpu,
    /// Sorting takes place internally on the GPU.
    Gpu,
    /// Like [`DepthSorting::Gpu`] and additionally skips rendering frustum
    /// culled splats by stream compaction.
    GpuIndirectDraw,
}

/// One Gaussian-tile intersection.
#[derive(Clone, Copy, PartialEq, Eq, Structural, Debug)]
pub struct IsectRecord {
    /// Composite sort key: tile index above encoded depth.
    pub key: u128,
    /// Index of the Gaussian this record belongs to.
    pub gaussian_id: u64,
}

/// Depth as an unsigned key component; depths below zero collapse to zero.
pub open spec fn depth_enc_s(depth: i64) -> u64 {
    if depth < 0 {
        0
    } else {
        depth as u64
    }
}

/// The composite key of a tile index and a depth.
pub open spec fn key_of_s(tile: u64, depth: i64) -> u128 {
    ((tile as int) * (TILE_KEY_BASE as int) + (depth_enc_s(depth) as int)) as u128
}

/// The tile index a key was built from.
pub open spec fn tile_of_key_s(k: u128) -> u64 {
    ((k as int) / (TILE_KEY_BASE as int)) as u64
}

/// The encoded depth a key was built from.
pub open spec fn depth_of_key_s(k: u128) -> u64 {
    ((k as int) % (TILE_KEY_BASE as int)) as u64
}

/// A key splits back into the parts it was built from.
pub proof fn lemma_key_roundtrip(tile: u64, depth: i64)
    ensures
        tile_of_key_s(key_of_s(tile, depth)) == tile,
        depth_of_key_s(key_of_s(tile, depth)) == depth_enc_s(depth),
{
    let b = TILE_KEY_BASE as int;
    let e = depth_enc_s(depth) as int;
    vstd::arithmetic::div_mod::lemma_fundamental_div_mod_converse(
        (tile as int) * b + e,
        b,
        tile as int,
        e,
    );
}

fn key_of(tile: u64, depth: i64) -> (r: u128)
    ensures
        r == key_of_s(tile, depth),
{
    let enc: u64 = if depth < 0 {
        0
    } else {
        depth as u64
    };
    (tile as u128) * TILE_KEY_BASE + (enc as u128)
}

/// Records of one footprint row: tiles `c0 <= c < c1` of row `row`.
pub open spec fn row_recs_s(g: u64, depth: i64, row: u32, c0: int, c1: int, tb_x: u32)
    -> Seq<IsectRecord>
    decreases c1 - c0,
{
    if c0 >= c1 {
        Seq::empty()
    } else {
        seq![
            IsectRecord { key: key_of_s(tile_index_s(c0 as u32, row, tb_x), depth), gaussian_id: g },
        ] + row_recs_s(g, depth, row, c0 + 1, c1, tb_x)
    }
}

/// Records of the footprint rows `r0 <= r < r1`, row major.
pub open spec fn rows_recs_s(g: u64, depth: i64, r0: int, r1: int, c0: int, c1: int, tb_x: u32)
    -> Seq<IsectRecord>
    decreases r1 - r0,
{
    if r0 >= r1 {
        Seq::empty()
    } else {
        row_recs_s(g, depth, r0 as u32, c0, c1, tb_x) + rows_recs_s(
            g,
            depth,
            r0 + 1,
            r1,
            c0,
            c1,
            tb_x,
        )
    }
}

/// All records of one projected Gaussian: none when its footprint was
/// excluded, else one per tile of its bounding rectangle.
pub open spec fn splat_recs_s(g: u64, xy: Vec2, depth: i64, radius: i64, tb_x: u32, tb_y: u32)
    -> Seq<IsectRecord> {
    if radius <= 0 {
        Seq::empty()
    } else {
        let b = tile_bbox_s(xy, radius, tb_x, tb_y, TILE_BLOCK);
        rows_recs_s(g, depth, b.ymin as int, b.ymax as int, b.xmin as int, b.xmax as int, tb_x)
    }
}

/// All records of the first `n` Gaussians, in Gaussian order.
pub open spec fn all_recs_s(
    xys: Seq<Vec2>,
    depths: Seq<i64>,
    radii: Seq<i64>,
    tb_x: u32,
    tb_y: u32,
    n: int,
) -> Seq<IsectRecord>
    decreases n,
{
    if n <= 0 {
        Seq::empty()
    } else {
        all_recs_s(xys, depths, radii, tb_x, tb_y, n - 1) + splat_recs_s(
            (n - 1) as u64,
            xys[n - 1],
            depths[n - 1],
            radii[n - 1],
            tb_x,
            tb_y,
        )
    }
}

proof fn lemma_row_recs_len(g: u64, depth: i64, row: u32, c0: int, c1: int, tb_x: u32)
    ensures
        row_recs_s(g, depth, row, c0, c1, tb_x).len() == if c0 >= c1 {
            0
        } else {
            c1 - c0
        },
    decreases c1 - c0,
{
    if c0 < c1 {
        lemma_row_recs_len(g, depth, row, c0 + 1, c1, tb_x);
    }
}

proof fn lemma_rows_recs_len(g: u64, depth: i64, r0: int, r1: int, c0: int, c1: int, tb_x: u32)
    requires
        c0 < c1,
    ensures
        rows_recs_s(g, depth, r0, r1, c0, c1, tb_x).len() == if r0 >= r1 {
            0int
        } else {
            (r1 - r0) * (c1 - c0)
        },
    decreases r1 - r0,
{
    if r0 < r1 {
        lemma_row_recs_len(g, depth, r0 as u32, c0, c1, tb_x);
        lemma_rows_recs_len(g, depth, r0 + 1, r1, c0, c1, tb_x);
        assert((r1 - r0) * (c1 - c0) == (c1 - c0) + (r1 - (r0 + 1)) * (c1 - c0))
            by (nonlinear_arith);
        assert(rows_recs_s(g, depth, r0, r1, c0, c1, tb_x).len() == row_recs_s(
            g,
            depth,
            r0 as u32,
            c0,
            c1,
            tb_x,
        ).len() + rows_recs_s(g, depth, r0 + 1, r1, c0, c1, tb_x).len());
        if r0 + 1 >= r1 {
            assert((r1 - (r0 + 1)) * (c1 - c0) == 0) by (nonlinear_arith)
                requires
                    r0 + 1 == r1,
            ;
            assert(rows_recs_s(g, depth, r0, r1, c0, c1, tb_x).len() == (r1 - r0) * (c1 - c0));
        } else {
            assert(rows_recs_s(g, depth, r0, r1, c0, c1, tb_x).len() == (r1 - r0) * (c1 - c0));
        }
    } else {
        assert(rows_recs_s(g, depth, r0, r1, c0, c1, tb_x).len() == 0);
    }
}

/// A footprint emits exactly as many records as tiles it overlaps.
pub proof fn lemma_splat_recs_len(g: u64, xy: Vec2, depth: i64, radius: i64, tb_x: u32, tb_y: u32)
    ensures
        splat_recs_s(g, xy, depth, radius, tb_x, tb_y).len() == if radius <= 0 {
            0u64
        } else {
            bbox_area_s(tile_bbox_s(xy, radius, tb_x, tb_y, TILE_BLOCK))
        },
{
    if radius > 0 {
        let b = tile_bbox_s(xy, radius, tb_x, tb_y, TILE_BLOCK);
        if b.xmin < b.xmax && b.ymin < b.ymax {
            lemma_rows_recs_len(
                g,
                depth,
                b.ymin as int,
                b.ymax as int,
                b.xmin as int,
                b.xmax as int,
                tb_x,
            );
            lemma_u32_mul_fits((b.xmax - b.xmin) as u32, (b.ymax - b.ymin) as u32);
            assert((b.ymax - b.ymin) as int * (b.xmax - b.xmin) as int == (b.xmax - b.xmin) as int
                * (b.ymax - b.ymin) as int) by (nonlinear_arith);
        } else {
            if b.ymin >= b.ymax {
            } else {
                assert forall|r0: int, r1: int|
                    rows_recs_s(g, depth, r0, r1, b.xmin as int, b.xmax as int, tb_x).len()
                        == 0 by {
                    lemma_rows_recs_empty_cols(
                        g,
                        depth,
                        r0,
                        r1,
                        b.xmin as int,
                        b.xmax as int,
                        tb_x,
                    );
                }
            }
        }
    }
}

proof fn lemma_rows_recs_empty_cols(
    g: u64,
    depth: i64,
    r0: int,
    r1: int,
    c0: int,
    c1: int,
    tb_x: u32,
)
    requires
        c0 >= c1,
    ensures
        rows_recs_s(g, depth, r0, r1, c0, c1, tb_x).len() == 0,
    decreases r1 - r0,
{
    if r0 < r1 {
        lemma_rows_recs_empty_cols(g, depth, r0 + 1, r1, c0, c1, tb_x);
    }
}

/// Total number of tile hits over the first `n` Gaussians.
pub open spec fn sum_hits_s(hits: Seq<u64>, n: int) -> int
    decreases n,
{
    if n <= 0 {
        0
    } else {
        sum_hits_s(hits, n - 1) + hits[n - 1]
    }
}

/// Inclusive prefix sums of the per-Gaussian tile-hit counts, and their
/// total.  Succeeds exactly when the total fits the counter word.
pub fn compute_cumulative_intersects(num_tiles_hit: &Vec<u64>) -> (r: Result<
    (u64, Vec<u64>),
    GsplatError,
>)
    requires
        num_tiles_hit.len() > 0,
    ensures
        r is Ok <==> sum_hits_s(num_tiles_hit@, num_tiles_hit.len() as int) <= u64::MAX,
        r is Err ==> r == Result::<(u64, Vec<u64>), GsplatError>::Err(
            GsplatError::TooManyIntersects,
        ),
        r is Ok ==> {
            let out = r->Ok_0;
            &&& out.1.len() == num_tiles_hit.len()
            &&& forall|i: int|
                0 <= i < num_tiles_hit.len() ==> #[trigger] out.1@[i] == sum_hits_s(
                    num_tiles_hit@,
                    i + 1,
                )
            &&& out.0 == sum_hits_s(num_tiles_hit@, num_tiles_hit.len() as int)
        },
{
    let n = num_tiles_hit.len();
    let mut cum: Vec<u64> = Vec::new();
    let mut acc: u64 = 0;
    let mut i: usize = 0;
    while i < n
        invariant
            i <= n,
            n == num_tiles_hit.len(),
            cum.len() == i,
            acc == sum_hits_s(num_tiles_hit@, i as int),
            forall|j: int| 0 <= j < i ==> #[trigger] cum@[j] == sum_hits_s(num_tiles_hit@, j + 1),
        decreases n - i,
    {
        let h = num_tiles_hit[i];
        if h > u64::MAX - acc {
            proof {
                lemma_sum_hits_monotone(num_tiles_hit@, i as int + 1, n as int);
            }
            return Err(GsplatError::TooManyIntersects);
        }
        acc = acc + h;
        cum.push(acc);
        i = i + 1;
    }
    Ok((acc, cum))
}

proof fn lemma_sum_hits_monotone(hits: Seq<u64>, a: int, b: int)
    requires
        0 <= a <= b <= hits.len(),
    ensures
        sum_hits_s(hits, a) <= sum_hits_s(hits, b),
    decreases b - a,
{
    if a < b {
        lemma_sum_hits_monotone(hits, a, b - 1);
    }
}

proof fn lemma_row_recs_split(g: u64, depth: i64, row: u32, a: int, b: int, c: int, tb_x: u32)
    requires
        a <= b <= c,
    ensures
        row_recs_s(g, depth, row, a, c, tb_x) =~= row_recs_s(g, depth, row, a, b, tb_x)
            + row_recs_s(g, depth, row, b, c, tb_x),
    decreases b - a,
{
    if a < b {
        lemma_row_recs_split(g, depth, row, a + 1, b, c, tb_x);
    }
}

proof fn lemma_rows_recs_split(g: u64, depth: i64, a: int, b: int, c: int, c0: int, c1: int, tb_x:
    u32)
    requires
        a <= b <= c,
    ensures
        rows_recs_s(g, depth, a, c, c0, c1, tb_x) =~= rows_recs_s(g, depth, a, b, c0, c1, tb_x)
            + rows_recs_s(g, depth, b, c, c0, c1, tb_x),
    decreases b - a,
{
    if a < b {
        lemma_rows_recs_split(g, depth, a + 1, b, c, c0, c1, tb_x);
    }
}

/// Expand every included Gaussian into one record per overlapped tile.
/// Succeeds exactly when the four per-Gaussian inputs have one entry per
/// Gaussian and `num_intersects` names the true record count; the record
/// sequence is pinned by [`all_recs_s`].  The tile side is fixed
/// (`block_size` is kept for interface compatibility and not read).
pub fn map_gaussian_to_intersects(
    num_points: usize,
    num_intersects: u64,
    xys: &Vec<Vec2>,
    depths: &Vec<i64>,
    radii: &Vec<i64>,
    cum_tiles_hit: &Vec<u64>,
    tile_bounds: (u32, u32, u32),
    _block_size: usize,
) -> (r: Result<Vec<IsectRecord>, GsplatError>)
    ensures
        r is Ok <==> (xys.len() == num_points && depths.len() == num_points && radii.len()
            == num_points && cum_tiles_hit.len() == num_points && all_recs_s(
            xys@,
            depths@,
            radii@,
            tile_bounds.0,
            tile_bounds.1,
            num_points as int,
        ).len() == num_intersects),
        r is Ok ==> r->Ok_0@ == all_recs_s(
            xys@,
            depths@,
            radii@,
            tile_bounds.0,
            tile_bounds.1,
            num_points as int,
        ),
        r is Err ==> r == Result::<Vec<IsectRecord>, GsplatError>::Err(
            GsplatError::MismatchedInputs,
        ),
{
    let n = num_points;
    if xys.len() != n || depths.len() != n || radii.len() != n || cum_tiles_hit.len() != n {
        return Err(GsplatError::MismatchedInputs);
    }
    let mut recs: Vec<IsectRecord> = Vec::new();
    let mut g: usize = 0;
    while g < n
        invariant
            g <= n,
            n == xys.len(),
            n == depths.len(),
            n == radii.len(),
            recs@ =~= all_recs_s(xys@, depths@, radii@, tile_bounds.0, tile_bounds.1, g as int),
        decreases n - g,
    {
        let radius = radii[g];
        if radius > 0 {
            let b = tile_bbox(xys[g], radius, tile_bounds.0, tile_bounds.1, TILE_BLOCK);
            let depth = depths[g];
            let ghost base = recs@;
            let mut row: u32 = b.ymin;
            while row < b.ymax
                invariant
                    b.ymin <= row,
                    b.ymax <= tile_bounds.1,
                    b.xmax <= tile_bounds.0,
                    row <= b.ymax || row == b.ymin,
                    b == tile_bbox_s(xys@[g as int], radius, tile_bounds.0, tile_bounds.1,
                        TILE_BLOCK),
                    g < n == xys.len(),
                    depth == depths@[g as int],
                    recs@ =~= base + rows_recs_s(
                        g as u64,
                        depth,
                        b.ymin as int,
                        row as int,
                        b.xmin as int,
                        b.xmax as int,
                        tile_bounds.0,
                    ),
                decreases b.ymax - row,
            {
                let ghost rowbase = recs@;
                let mut col: u32 = b.xmin;
                while col < b.xmax
                    invariant
                        b.xmin <= col,
                        col <= b.xmax || col == b.xmin,
                        b.xmax <= tile_bounds.0,
                        row < tile_bounds.1,
                        g < n == xys.len(),
                        depth == depths@[g as int],
                        recs@ =~= rowbase + row_recs_s(
                            g as u64,
                            depth,
                            row,
                            b.xmin as int,
                            col as int,
                            tile_bounds.0,
                        ),
                    decreases b.xmax - col,
                {
                    let tid = tile_index(col, row, tile_bounds.0, tile_bounds.1);
                    let key = key_of(tid, depth);
                    recs.push(IsectRecord { key, gaussian_id: g as u64 });
                    proof {
                        lemma_row_recs_split(
                            g as u64,
                            depth,
                            row,
                            b.xmin as int,
                            col as int,
                            col as int + 1,
                            tile_bounds.0,
                        );
                        assert(row_recs_s(
                            g as u64,
                            depth,
                            row,
                            col as int + 1,
                            col as int + 1,
                            tile_bounds.0,
                        ) =~= Seq::<IsectRecord>::empty());
                        assert(row_recs_s(
                            g as u64,
                            depth,
                            row,
                            col as int,
                            col as int + 1,
                            tile_bounds.0,
                        ) =~= seq![IsectRecord { key, gaussian_id: g as u64 }]);
                        assert(recs@ =~= rowbase + row_recs_s(
                            g as u64,
                            depth,
                            row,
                            b.xmin as int,
                            col as int + 1,
                            tile_bounds.0,
                        ));
                    }
                    col = col + 1;
                }
                proof {
                    lemma_rows_recs_split(
                        g as u64,
                        depth,
                        b.ymin as int,
                        row as int,
                        row as int + 1,
                        b.xmin as int,
                        b.xmax as int,
                        tile_bounds.0,
                    );
                    assert(rows_recs_s(
                        g as u64,
                        depth,
                        row as int + 1,
                        row as int + 1,
                        b.xmin as int,
                        b.xmax as int,
                        tile_bounds.0,
                    ) =~= Seq::<IsectRecord>::empty());
                    assert(rows_recs_s(
                        g as u64,
                        depth,
                        row as int,
                        row as int + 1,
                        b.xmin as int,
                        b.xmax as int,
                        tile_bounds.0,
                    ) =~= row_recs_s(g as u64, depth, row, b.xmin as int, b.xmax as int,
                        tile_bounds.0));
                    assert(recs@ =~= base + rows_recs_s(
                        g as u64,
                        depth,
                        b.ymin as int,
                        row as int + 1,
                        b.xmin as int,
                        b.xmax as int,
                        tile_bounds.0,
                    ));
                }
                row = row + 1;
            }
        }
        g = g + 1;
    }
    if recs.len() as u64 != num_intersects {
        return Err(GsplatError::MismatchedInputs);
    }
    Ok(recs)
}

/// The order the sorter establishes: ascending key, ties by Gaussian index.
pub open spec fn rec_le(a: IsectRecord, b: IsectRecord) -> bool {
    a.key < b.key || (a.key == b.key && a.gaussian_id <= b.gaussian_id)
}

/// Insertion into an (intended sorted) sequence, before the first record
/// that the new one precedes.
pub open spec fn insert_rec_s(s: Seq<IsectRecord>, x: IsectRecord) -> Seq<IsectRecord>
    decreases s.len(),
{
    if s.len() == 0 {
        seq![x]
    } else if rec_le(x, s[0]) {
        seq![x] + s
    } else {
        seq![s[0]] + insert_rec_s(s.drop_first(), x)
    }
}

/// The sorted arrangement of a record sequence, as repeated insertion.
pub open spec fn sort_recs_s(s: Seq<IsectRecord>) -> Seq<IsectRecord>
    decreases s.len(),
{
    if s.len() == 0 {
        Seq::empty()
    } else {
        insert_rec_s(sort_recs_s(s.drop_last()), s.last())
    }
}

/// Non-decreasing under [`rec_le`].
pub open spec fn sorted_recs_s(s: Seq<IsectRecord>) -> bool {
    forall|i: int, j: int| 0 <= i < j < s.len() ==> #[trigger] rec_le(s[i], s[j])
}

proof fn lemma_insert_rec_at(s: Seq<IsectRecord>, x: IsectRecord, j: int)
    requires
        0 <= j <= s.len(),
        forall|k: int| 0 <= k < j ==> !rec_le(x, #[trigger] s[k]),
        j < s.len() ==> rec_le(x, s[j]),
    ensures
        insert_rec_s(s, x) =~= s.take(j) + seq![x] + s.skip(j),
    decreases s.len(),
{
    if s.len() == 0 {
    } else if j == 0 {
    } else {
        let t = s.drop_first();
        lemma_insert_rec_at(t, x, j - 1);
        assert(s.take(j) =~= seq![s[0]] + t.take(j - 1));
        assert(s.skip(j) =~= t.skip(j - 1));
    }
}

/// Sort the intersection records; the result is pinned by [`sort_recs_s`]:
/// a permutation of the input, non-decreasing under [`rec_le`].
pub fn sort_intersects(recs: &Vec<IsectRecord>) -> (r: Vec<IsectRecord>)
    ensures
        r@ == sort_recs_s(recs@),
        sorted_recs_s(r@),
        r@.len() == recs@.len(),
        r@.to_multiset() == recs@.to_multiset(),
{
    proof {
        lemma_sort_recs_multiset(recs@);
    }
    let n = recs.len();
    let mut out: Vec<IsectRecord> = Vec::new();
    let mut i: usize = 0;
    while i < n
        invariant
            i <= n,
            n == recs.len(),
            out@ == sort_recs_s(recs@.take(i as int)),
            sorted_recs_s(out@),
            out@.len() == i,
        decreases n - i,
    {
        let x = recs[i];
        let mut j: usize = 0;
        while j < out.len() && !(x.key < out[j].key || (x.key == out[j].key && x.gaussian_id
            <= out[j].gaussian_id))
            invariant
                j <= out.len(),
                forall|k: int| 0 <= k < j ==> !rec_le(x, #[trigger] out@[k]),
            decreases out.len() - j,
        {
            j = j + 1;
        }
        let ghost newseq = out@.take(j as int) + seq![x] + out@.skip(j as int);
        proof {
            lemma_insert_rec_at(out@, x, j as int);
            assert forall|a: int, b: int| 0 <= a < b < newseq.len() implies #[trigger] rec_le(
                newseq[a],
                newseq[b],
            ) by {
                if a < j && b == j {
                    assert(!rec_le(x, out@[a]));
                    assert(rec_le(out@[a], x));
                } else if a == j && b > j {
                    if j < out@.len() {
                        assert(rec_le(x, out@[j as int]));
                        assert(rec_le(out@[j as int], out@[b - 1]) || j == b - 1);
                    }
                } else if a < j && b > j {
                    assert(rec_le(out@[a], out@[b - 1]) || a == b - 1);
                }
            }
            assert(recs@.take(i as int + 1).drop_last() =~= recs@.take(i as int));
            assert(recs@.take(i as int + 1).last() == recs@[i as int]);
            assert(out@.insert(j as int, x) =~= newseq);
        }
        out.insert(j, x);
        proof {
            assert(out@ =~= newseq);
            assert(sort_recs_s(recs@.take(i as int + 1)) == insert_rec_s(
                sort_recs_s(recs@.take(i as int)),
                recs@[i as int],
            ));
        }
        i = i + 1;
    }
    proof {
        assert(recs@.take(n as int) =~= recs@);
    }
    out
}

/// Non-decreasing keys.
pub open spec fn sorted_keys_s(keys: Seq<u128>) -> bool {
    forall|i: int, j: int| 0 <= i < j < keys.len() ==> (#[trigger] keys[i]) <= (#[trigger] keys[j])
}

/// The keys of a record sequence, in order.
pub open spec fn keys_of_s(recs: Seq<IsectRecord>) -> Seq<u128> {
    recs.map_values(|r: IsectRecord| r.key)
}

/// A sorted record sequence has non-decreasing keys.
pub proof fn lemma_sorted_recs_keys(s: Seq<IsectRecord>)
    requires
        sorted_recs_s(s),
    ensures
        sorted_keys_s(keys_of_s(s)),
{
    assert forall|i: int, j: int| 0 <= i < j < keys_of_s(s).len() implies (#[trigger] keys_of_s(
        s,
    )[i]) <= (#[trigger] keys_of_s(s)[j]) by {
        assert(rec_le(s[i], s[j]));
    }
}

proof fn lemma_key_div_bound(k: u128)
    ensures
        0 <= (k as int) / (TILE_KEY_BASE as int),
        (k as int) / (TILE_KEY_BASE as int) < 0x10000000000000000,
        tile_of_key_s(k) as int == (k as int) / (TILE_KEY_BASE as int),
{
    let b = TILE_KEY_BASE as int;
    vstd::arithmetic::div_mod::lemma_div_pos_is_pos(k as int, b);
    vstd::arithmetic::div_mod::lemma_div_is_ordered(k as int, u128::MAX as int, b);
    vstd::arithmetic::div_mod::lemma_fundamental_div_mod_converse(
        u128::MAX as int,
        b,
        0xFFFFFFFFFFFFFFFF,
        0xFFFFFFFFFFFFFFFF,
    );
}

proof fn lemma_mod_bound_key(k: u128)
    ensures
        0 <= (k as int) % (TILE_KEY_BASE as int),
        (k as int) % (TILE_KEY_BASE as int) < 0x10000000000000000,
        depth_of_key_s(k) as int == (k as int) % (TILE_KEY_BASE as int),
{
    vstd::arithmetic::div_mod::lemma_mod_bound(k as int, TILE_KEY_BASE as int);
}

/// Larger keys never name earlier tiles.
pub proof fn lemma_tile_le(k1: u128, k2: u128)
    requires
        k1 <= k2,
    ensures
        tile_of_key_s(k1) <= tile_of_key_s(k2),
{
    lemma_key_div_bound(k1);
    lemma_key_div_bound(k2);
    vstd::arithmetic::div_mod::lemma_div_is_ordered(k1 as int, k2 as int, TILE_KEY_BASE as int);
}

proof fn lemma_depth_le_same_tile(k1: u128, k2: u128)
    requires
        k1 <= k2,
        tile_of_key_s(k1) == tile_of_key_s(k2),
    ensures
        depth_of_key_s(k1) <= depth_of_key_s(k2),
{
    let b = TILE_KEY_BASE as int;
    lemma_key_div_bound(k1);
    lemma_key_div_bound(k2);
    lemma_mod_bound_key(k1);
    lemma_mod_bound_key(k2);
    vstd::arithmetic::div_mod::lemma_fundamental_div_mod(k1 as int, b);
    vstd::arithmetic::div_mod::lemma_fundamental_div_mod(k2 as int, b);
    assert((k1 as int) / b == (k2 as int) / b);
    assert(b * ((k1 as int) / b) == b * ((k2 as int) / b)) by (nonlinear_arith)
        requires
            (k1 as int) / b == (k2 as int) / b,
    ;
}

/// Sorted records walk tiles in order, and front to back within one tile:
/// adjacent keys are non-decreasing, and where two adjacent records share a
/// tile, their depths are non-decreasing too.
pub proof fn lemma_sorted_records_order(s: Seq<IsectRecord>)
    requires
        sorted_recs_s(s),
    ensures
        forall|i: int| 0 < i < s.len() ==> (#[trigger] s[i].key) >= s[i - 1].key,
        forall|i: int|
            0 < i < s.len() && tile_of_key_s(s[i - 1].key) == tile_of_key_s(#[trigger] s[i].key)
                ==> depth_of_key_s(s[i - 1].key) <= depth_of_key_s(s[i].key),
{
    assert forall|i: int| 0 < i < s.len() implies (#[trigger] s[i].key) >= s[i - 1].key by {
        assert(rec_le(s[i - 1], s[i]));
    }
    assert forall|i: int|
        0 < i < s.len() && tile_of_key_s(s[i - 1].key) == tile_of_key_s(
            #[trigger] s[i].key,
        ) implies depth_of_key_s(s[i - 1].key) <= depth_of_key_s(s[i].key) by {
        assert(rec_le(s[i - 1], s[i]));
        lemma_depth_le_same_tile(s[i - 1].key, s[i].key);
    }
}

/// Some record of the first `i` lies in tile `t`.
pub open spec fn tile_seen_s(keys: Seq<u128>, t: int, i: int) -> bool {
    exists|j: int| 0 <= j < i && (tile_of_key_s(#[trigger] keys[j]) as int) == t
}

/// The bin table after scanning the first `i` keys: each record opens or
/// extends the range of its tile.
pub open spec fn bins_scan_s(keys: Seq<u128>, ntiles: int, i: int) -> Seq<(u64, u64)>
    decreases i,
{
    if i <= 0 {
        Seq::new(ntiles as nat, |t: int| (0u64, 0u64))
    } else {
        let prev = bins_scan_s(keys, ntiles, i - 1);
        let t = tile_of_key_s(keys[i - 1]) as int;
        let s0: u64 = if i == 1 || tile_of_key_s(keys[i - 2]) != tile_of_key_s(keys[i - 1]) {
            (i - 1) as u64
        } else {
            prev[t].0
        };
        prev.update(t, (s0, i as u64))
    }
}

/// What the bin table means for the first `i` records: a record index lies
/// in a tile's range exactly when the record names that tile; tiles without
/// a record so far hold the empty sentinel range.
pub open spec fn bins_cover_s(keys: Seq<u128>, ntiles: int, i: int, bins: Seq<(u64, u64)>)
    -> bool {
    &&& bins.len() == ntiles
    &&& forall|t: int, j: int|
        #![trigger bins[t], keys[j]]
        0 <= t < ntiles && 0 <= j < i ==> ((tile_of_key_s(keys[j]) as int == t) <==> (
        bins[t].0 <= j && j < bins[t].1))
    &&& forall|t: int|
        0 <= t < ntiles && !tile_seen_s(keys, t, i) ==> (#[trigger] bins[t]) == (0u64, 0u64)
    &&& forall|t: int|
        0 <= t < ntiles && tile_seen_s(keys, t, i) ==> ((#[trigger] bins[t]).0 < bins[t].1
            && bins[t].1 <= i)
}

proof fn lemma_bins_scan_cover(keys: Seq<u128>, ntiles: int, i: int)
    requires
        0 <= i <= keys.len(),
        keys.len() < 0x10000000000000000,
        ntiles >= 0,
        forall|j: int|
            0 <= j < keys.len() ==> (tile_of_key_s(#[trigger] keys[j]) as int) < ntiles,
        sorted_keys_s(keys),
    ensures
        bins_cover_s(keys, ntiles, i, bins_scan_s(keys, ntiles, i)),
    decreases i,
{
    if i <= 0 {
    } else {
        lemma_bins_scan_cover(keys, ntiles, i - 1);
        let prev = bins_scan_s(keys, ntiles, i - 1);
        let bins = bins_scan_s(keys, ntiles, i);
        let tstar = tile_of_key_s(keys[i - 1]) as int;
        assert(0 <= tstar < ntiles);
        assert forall|j: int| 0 <= j < i - 1 implies (tile_of_key_s(#[trigger] keys[j]) as int)
            <= tstar by {
            lemma_tile_le(keys[j], keys[i - 1]);
        }
        let boundary = i == 1 || tile_of_key_s(keys[i - 2]) != tile_of_key_s(keys[i - 1]);
        if boundary {
            assert(!tile_seen_s(keys, tstar, i - 1)) by {
                if tile_seen_s(keys, tstar, i - 1) {
                    let j = choose|j: int|
                        0 <= j < i - 1 && (tile_of_key_s(#[trigger] keys[j]) as int) == tstar;
                    lemma_tile_le(keys[j], keys[i - 2]);
                    lemma_tile_le(keys[i - 2], keys[i - 1]);
                }
            }
            assert(prev[tstar] == (0u64, 0u64));
            assert(bins == prev.update(tstar, (((i - 1) as u64), (i as u64))));
            assert(bins[tstar] == (((i - 1) as u64), (i as u64)));
            assert(bins[tstar].0 == i - 1 && bins[tstar].1 == i);
            assert forall|t: int, j: int|
                #![trigger bins[t], keys[j]]
                0 <= t < ntiles && 0 <= j < i implies ((tile_of_key_s(keys[j]) as int == t) <==> (
                bins[t].0 <= j && j < bins[t].1)) by {
                if t == tstar {
                    if j < i - 1 {
                        assert(!(tile_of_key_s(keys[j]) as int == t)) by {
                            if tile_of_key_s(keys[j]) as int == t {
                                assert(tile_seen_s(keys, tstar, i - 1));
                            }
                        }
                    }
                } else {
                    assert(bins[t] == prev[t]);
                    if j == i - 1 {
                        if tile_seen_s(keys, t, i - 1) {
                            assert(prev[t].1 <= i - 1);
                        } else {
                            assert(prev[t] == (0u64, 0u64));
                        }
                    }
                }
            }
            assert forall|t: int|
                0 <= t < ntiles && !tile_seen_s(keys, t, i) implies (#[trigger] bins[t]) == (
            0u64, 0u64) by {
                assert(t != tstar);
                assert(!tile_seen_s(keys, t, i - 1)) by {
                    if tile_seen_s(keys, t, i - 1) {
                        let j = choose|j: int|
                            0 <= j < i - 1 && (tile_of_key_s(#[trigger] keys[j]) as int) == t;
                        assert(tile_seen_s(keys, t, i));
                    }
                }
            }
            assert forall|t: int|
                0 <= t < ntiles && tile_seen_s(keys, t, i) implies ((#[trigger] bins[t]).0
                < bins[t].1 && bins[t].1 <= i) by {
                if t != tstar {
                    assert(tile_seen_s(keys, t, i - 1)) by {
                        let j = choose|j: int|
                            0 <= j < i && (tile_of_key_s(#[trigger] keys[j]) as int) == t;
                        assert(j < i - 1);
                    }
                }
            }
        } else {
            let tprev = tile_of_key_s(keys[i - 2]) as int;
            assert(tprev == tstar);
            assert(tile_seen_s(keys, tstar, i - 1)) by {
                assert((tile_of_key_s(keys[i - 2]) as int) == tstar);
            }
            assert(prev[tstar].0 < prev[tstar].1 && prev[tstar].1 <= i - 1);
            assert(prev[tstar].0 <= i - 2 && i - 2 < prev[tstar].1) by {
                assert(0 <= i - 2 < i - 1);
            }
            assert(prev[tstar].1 == i - 1);
            assert(bins == prev.update(tstar, (prev[tstar].0, i as u64)));
            assert(bins[tstar] == (prev[tstar].0, i as u64));
            assert(bins[tstar].0 == prev[tstar].0 && bins[tstar].1 == i);
            assert forall|t: int, j: int|
                #![trigger bins[t], keys[j]]
                0 <= t < ntiles && 0 <= j < i implies ((tile_of_key_s(keys[j]) as int == t) <==> (
                bins[t].0 <= j && j < bins[t].1)) by {
                if t == tstar {
                    if j < i - 1 {
                        assert((tile_of_key_s(keys[j]) as int == t) <==> (prev[t].0 <= j && j
                            < prev[t].1));
                    } else {
                        assert(prev[t].0 <= i - 2 < i);
                    }
                } else {
                    assert(bins[t] == prev[t]);
                    if j == i - 1 {
                        if tile_seen_s(keys, t, i - 1) {
                            assert(prev[t].1 <= i - 1);
                        } else {
                            assert(prev[t] == (0u64, 0u64));
                        }
                    }
                }
            }
            assert forall|t: int|
                0 <= t < ntiles && !tile_seen_s(keys, t, i) implies (#[trigger] bins[t]) == (
            0u64, 0u64) by {
                assert(t != tstar);
                assert(!tile_seen_s(keys, t, i - 1)) by {
                    if tile_seen_s(keys, t, i - 1) {
                        let j = choose|j: int|
                            0 <= j < i - 1 && (tile_of_key_s(#[trigger] keys[j]) as int) == t;
                        assert(tile_seen_s(keys, t, i));
                    }
                }
            }
            assert forall|t: int|
                0 <= t < ntiles && tile_seen_s(keys, t, i) implies ((#[trigger] bins[t]).0
                < bins[t].1 && bins[t].1 <= i) by {
                if t != tstar {
                    assert(tile_seen_s(keys, t, i - 1)) by {
                        let j = choose|j: int|
                            0 <= j < i && (tile_of_key_s(#[trigger] keys[j]) as int) == t;
                        assert(j < i - 1);
                    }
                }
            }
        }
    }
}

/// The bin table of a fully scanned, sorted key sequence partitions the
/// record indices: every index lies in the range of exactly the tile its
/// key names, and a tile without records holds the empty sentinel range
/// (see [`bins_cover_s`]).
pub proof fn lemma_tile_bins_partition(keys: Seq<u128>, ntiles: int)
    requires
        ntiles >= 0,
        keys.len() < 0x10000000000000000,
        forall|j: int|
            0 <= j < keys.len() ==> (tile_of_key_s(#[trigger] keys[j]) as int) < ntiles,
        sorted_keys_s(keys),
    ensures
        bins_cover_s(keys, ntiles, keys.len() as int, bins_scan_s(keys, ntiles, keys.len() as int)),
{
    lemma_bins_scan_cover(keys, ntiles, keys.len() as int);
}

/// Ranges of two distinct tiles never share a record index.
pub proof fn lemma_tile_bins_disjoint(
    keys: Seq<u128>,
    ntiles: int,
    bins: Seq<(u64, u64)>,
    t1: int,
    t2: int,
    j: int,
)
    requires
        bins_cover_s(keys, ntiles, keys.len() as int, bins),
        0 <= t1 < ntiles,
        0 <= t2 < ntiles,
        t1 != t2,
        0 <= j < keys.len(),
        bins[t1].0 <= j && j < bins[t1].1,
    ensures
        !(bins[t2].0 <= j && j < bins[t2].1),
{
    assert(tile_of_key_s(keys[j]) as int == t1);
    if bins[t2].0 <= j && j < bins[t2].1 {
        assert(tile_of_key_s(keys[j]) as int == t2);
    }
}

/// Derive the bin table: the half-open range of sorted-record indices of
/// each tile.  Succeeds exactly when `num_intersects` names the record
/// count and every key's tile lies inside the grid; the table is pinned by
/// [`bins_scan_s`].
pub fn get_tile_bin_edges(
    num_intersects: usize,
    isect_ids_sorted: &Vec<u128>,
    tile_bounds: (u32, u32, u32),
) -> (r: Result<Vec<(u64, u64)>, GsplatError>)
    ensures
        r is Ok <==> (num_intersects == isect_ids_sorted.len() && (forall|j: int|
            0 <= j < isect_ids_sorted.len() ==> (tile_of_key_s(#[trigger] isect_ids_sorted@[j])
                as int) < (tile_bounds.0 as int) * (tile_bounds.1 as int))),
        r is Ok ==> r->Ok_0@ == bins_scan_s(
            isect_ids_sorted@,
            (tile_bounds.0 as int) * (tile_bounds.1 as int),
            isect_ids_sorted.len() as int,
        ),
{
    let n = isect_ids_sorted.len();
    if num_intersects != n {
        return Err(GsplatError::MismatchedInputs);
    }
    proof {
        lemma_u32_mul_fits(tile_bounds.0, tile_bounds.1);
    }
    let ntiles: u64 = (tile_bounds.0 as u64) * (tile_bounds.1 as u64);
    let ghost nt = (tile_bounds.0 as int) * (tile_bounds.1 as int);
    let mut bins: Vec<(u64, u64)> = Vec::new();
    let mut t: u64 = 0;
    while t < ntiles
        invariant
            t <= ntiles,
            bins.len() == t,
            forall|k: int| 0 <= k < t ==> #[trigger] bins@[k] == (0u64, 0u64),
        decreases ntiles - t,
    {
        bins.push((0u64, 0u64));
        t = t + 1;
    }
    proof {
        assert(bins@ =~= Seq::new(nt as nat, |x: int| (0u64, 0u64)));
        assert(bins@ == bins_scan_s(isect_ids_sorted@, nt, 0));
    }
    let mut i: usize = 0;
    while i < n
        invariant
            i <= n,
            n == isect_ids_sorted.len(),
            bins.len() == ntiles,
            ntiles as int == nt,
            nt == (tile_bounds.0 as int) * (tile_bounds.1 as int),
            bins@ == bins_scan_s(isect_ids_sorted@, nt, i as int),
            forall|j: int|
                0 <= j < i ==> (tile_of_key_s(#[trigger] isect_ids_sorted@[j]) as int) < nt,
        decreases n - i,
    {
        let k: u128 = isect_ids_sorted[i];
        let tile: u64 = (k / TILE_KEY_BASE) as u64;
        proof {
            lemma_key_div_bound(k);
            assert(tile == tile_of_key_s(k));
        }
        if tile >= ntiles {
            return Err(GsplatError::IndexOutOfBounds);
        }
        let boundary: bool = if i == 0 {
            true
        } else {
            let kp: u128 = isect_ids_sorted[i - 1];
            proof {
                lemma_key_div_bound(kp);
            }
            ((kp / TILE_KEY_BASE) as u64) != tile
        };
        let s0: u64 = if boundary {
            i as u64
        } else {
            bins[tile as usize].0
        };
        bins.set(tile as usize, (s0, (i + 1) as u64));
        i = i + 1;
    }
    Ok(bins)
}

/// Map, sort, and bin in one pass: the unsorted records, the sorted
/// records, and the per-tile bin table.  Succeeds exactly when the inputs
/// are consistent (see [`map_gaussian_to_intersects`]) and every record's
/// tile lies inside the grid.
pub fn bin_and_sort_gaussians(
    num_points: usize,
    num_intersects: u64,
    xys: &Vec<Vec2>,
    depths: &Vec<i64>,
    radii: &Vec<i64>,
    cum_tiles_hit: &Vec<u64>,
    tile_bounds: (u32, u32, u32),
    block_size: usize,
) -> (r: Result<(Vec<IsectRecord>, Vec<IsectRecord>, Vec<(u64, u64)>), GsplatError>)
    ensures
        ({
            let recs = all_recs_s(
                xys@,
                depths@,
                radii@,
                tile_bounds.0,
                tile_bounds.1,
                num_points as int,
            );
            let sorted = sort_recs_s(recs);
            let nt = (tile_bounds.0 as int) * (tile_bounds.1 as int);
            &&& (r is Ok <==> (xys.len() == num_points && depths.len() == num_points
                && radii.len() == num_points && cum_tiles_hit.len() == num_points && recs.len()
                == num_intersects && (forall|j: int|
                0 <= j < sorted.len() ==> (tile_of_key_s(#[trigger] sorted[j].key) as int) < nt)))
            &&& (r is Ok ==> r->Ok_0.0@ == recs && r->Ok_0.1@ == sorted && r->Ok_0.2@
                == bins_scan_s(keys_of_s(sorted), nt, sorted.len() as int) && sorted_recs_s(
                sorted,
            ))
        }),
{
    let unsorted = match map_gaussian_to_intersects(
        num_points,
        num_intersects,
        xys,
        depths,
        radii,
        cum_tiles_hit,
        tile_bounds,
        block_size,
    ) {
        Ok(v) => v,
        Err(e) => {
            return Err(e);
        },
    };
    let sorted = sort_intersects(&unsorted);
    let n = sorted.len();
    let mut keys: Vec<u128> = Vec::new();
    let mut i: usize = 0;
    while i < n
        invariant
            i <= n,
            n == sorted.len(),
            keys.len() == i,
            forall|j: int| 0 <= j < i ==> #[trigger] keys@[j] == sorted@[j].key,
        decreases n - i,
    {
        keys.push(sorted[i].key);
        i = i + 1;
    }
    proof {
        assert(keys@ =~= keys_of_s(sorted@));
        lemma_sorted_recs_keys(sorted@);
        assert forall|j: int|
            0 <= j < sorted@.len() implies #[trigger] keys_of_s(sorted@)[j] == sorted@[j].key by {}
        assert(num_intersects == unsorted.len() as u64);
        assert(num_intersects as usize == keys.len());
    }
    let bins = match get_tile_bin_edges(num_intersects as usize, &keys, tile_bounds) {
        Ok(b) => b,
        Err(e) => {
            return Err(e);
        },
    };
    proof {
        let nt = (tile_bounds.0 as int) * (tile_bounds.1 as int);
        assert forall|j: int|
            0 <= j < sorted@.len() implies (tile_of_key_s(#[trigger] sorted@[j].key) as int)
            < nt by {
            assert(keys@[j] == sorted@[j].key);
            assert((tile_of_key_s(keys@[j]) as int) < nt);
        }
    }
    Ok((unsorted, sorted, bins))
}

proof fn lemma_insert_rec_multiset(s: Seq<IsectRecord>, x: IsectRecord)
    ensures
        insert_rec_s(s, x).to_multiset() =~= s.to_multiset().insert(x),
    decreases s.len(),
{
    broadcast use vstd::seq_lib::group_to_multiset_ensures;
    broadcast use vstd::multiset::group_multiset_axioms;

    if s.len() == 0 {
        assert(seq![x] =~= Seq::<IsectRecord>::empty().push(x));
    } else if rec_le(x, s[0]) {
        vstd::seq_lib::lemma_multiset_commutative(seq![x], s);
        assert(seq![x] =~= Seq::<IsectRecord>::empty().push(x));
        assert forall|e: IsectRecord|
            (seq![x] + s).to_multiset().count(e) == s.to_multiset().insert(x).count(e) by {}
    } else {
        let t = s.drop_first();
        lemma_insert_rec_multiset(t, x);
        vstd::seq_lib::lemma_multiset_commutative(seq![s[0]], insert_rec_s(t, x));
        vstd::seq_lib::lemma_multiset_commutative(seq![s[0]], t);
        assert(s =~= seq![s[0]] + t);
        assert(seq![s[0]] =~= Seq::<IsectRecord>::empty().push(s[0]));
        assert forall|e: IsectRecord|
            (seq![s[0]] + insert_rec_s(t, x)).to_multiset().count(e) == s.to_multiset().insert(
                x,
            ).count(e) by {}
    }
}

/// The sorted arrangement is a permutation of its input.
pub proof fn lemma_sort_recs_multiset(s: Seq<IsectRecord>)
    ensures
        sort_recs_s(s).to_multiset() =~= s.to_multiset(),
    decreases s.len(),
{
    broadcast use vstd::seq_lib::group_to_multiset_ensures;

    if s.len() > 0 {
        lemma_sort_recs_multiset(s.drop_last());
        lemma_insert_rec_multiset(sort_recs_s(s.drop_last()), s.last());
        assert(s =~= s.drop_last().push(s.last()));
    }
}

proof fn lemma_row_recs_props(g: u64, depth: i64, row: u32, c0: int, c1: int, tb_x: u32, tb_y: u32)
    requires
        0 <= c0,
        c1 <= tb_x,
        row < tb_y,
    ensures
        forall|i: int|
            0 <= i < row_recs_s(g, depth, row, c0, c1, tb_x).len() ==> ((#[trigger] row_recs_s(
                g,
                depth,
                row,
                c0,
                c1,
                tb_x,
            )[i]).gaussian_id == g && (tile_of_key_s(row_recs_s(g, depth, row, c0, c1, tb_x)[i].key)
                as int) < (tb_x as int) * (tb_y as int)),
    decreases c1 - c0,
{
    if c0 < c1 {
        lemma_row_recs_props(g, depth, row, c0 + 1, c1, tb_x, tb_y);
        lemma_u32_mul_fits(tb_x, tb_y);
        lemma_u32_mul_fits(row, tb_x);
        assert((row as int) * (tb_x as int) + c0 < (tb_x as int) * (tb_y as int))
            by (nonlinear_arith)
            requires
                0 <= c0 < tb_x as int,
                0 <= (row as int) < tb_y as int,
        ;
        lemma_key_roundtrip(tile_index_s(c0 as u32, row, tb_x), depth);
        let r = row_recs_s(g, depth, row, c0, c1, tb_x);
        let tail = row_recs_s(g, depth, row, c0 + 1, c1, tb_x);
        assert forall|i: int| 0 <= i < r.len() implies ((#[trigger] r[i]).gaussian_id == g && (
        tile_of_key_s(r[i].key) as int) < (tb_x as int) * (tb_y as int)) by {
            if i == 0 {
                assert(r[0].key == key_of_s(tile_index_s(c0 as u32, row, tb_x), depth));
            } else {
                assert(r[i] == tail[i - 1]);
            }
        }
    }
}

proof fn lemma_rows_recs_props(
    g: u64,
    depth: i64,
    r0: int,
    r1: int,
    c0: int,
    c1: int,
    tb_x: u32,
    tb_y: u32,
)
    requires
        0 <= c0,
        0 <= r0,
        c1 <= tb_x,
        r1 <= tb_y,
    ensures
        forall|i: int|
            0 <= i < rows_recs_s(g, depth, r0, r1, c0, c1, tb_x).len() ==> ((
            #[trigger] rows_recs_s(g, depth, r0, r1, c0, c1, tb_x)[i]).gaussian_id == g && (
            tile_of_key_s(rows_recs_s(g, depth, r0, r1, c0, c1, tb_x)[i].key) as int) < (tb_x
                as int) * (tb_y as int)),
    decreases r1 - r0,
{
    if r0 < r1 {
        lemma_row_recs_props(g, depth, r0 as u32, c0, c1, tb_x, tb_y);
        lemma_rows_recs_props(g, depth, r0 + 1, r1, c0, c1, tb_x, tb_y);
        let r = rows_recs_s(g, depth, r0, r1, c0, c1, tb_x);
        let head = row_recs_s(g, depth, r0 as u32, c0, c1, tb_x);
        let tail = rows_recs_s(g, depth, r0 + 1, r1, c0, c1, tb_x);
        assert forall|i: int| 0 <= i < r.len() implies ((#[trigger] r[i]).gaussian_id == g && (
        tile_of_key_s(r[i].key) as int) < (tb_x as int) * (tb_y as int)) by {
            if i < head.len() {
                assert(r[i] == head[i]);
            } else {
                assert(r[i] == tail[i - head.len()]);
            }
        }
    }
}

/// Every record of one footprint carries that Gaussian's index, and a tile
/// inside the grid.
pub proof fn lemma_splat_recs_props(
    g: u64,
    xy: Vec2,
    depth: i64,
    radius: i64,
    tb_x: u32,
    tb_y: u32,
)
    ensures
        forall|i: int|
            0 <= i < splat_recs_s(g, xy, depth, radius, tb_x, tb_y).len() ==> ((
            #[trigger] splat_recs_s(g, xy, depth, radius, tb_x, tb_y)[i]).gaussian_id == g && (
            tile_of_key_s(splat_recs_s(g, xy, depth, radius, tb_x, tb_y)[i].key) as int) < (tb_x
                as int) * (tb_y as int)),
{
    if radius > 0 {
        let b = tile_bbox_s(xy, radius, tb_x, tb_y, TILE_BLOCK);
        lemma_rows_recs_props(
            g,
            depth,
            b.ymin as int,
            b.ymax as int,
            b.xmin as int,
            b.xmax as int,
            tb_x,
            tb_y,
        );
    }
}

/// Every record of a scene names a Gaussian below the scene size and a tile
/// inside the grid.
pub proof fn lemma_all_recs_props(
    xys: Seq<Vec2>,
    depths: Seq<i64>,
    radii: Seq<i64>,
    tb_x: u32,
    tb_y: u32,
    n: int,
)
    requires
        n <= 0x10000000000000000,
    ensures
        forall|i: int|
            0 <= i < all_recs_s(xys, depths, radii, tb_x, tb_y, n).len() ==> ((
            #[trigger] all_recs_s(xys, depths, radii, tb_x, tb_y, n)[i]).gaussian_id < n && (
            tile_of_key_s(all_recs_s(xys, depths, radii, tb_x, tb_y, n)[i].key) as int) < (tb_x
                as int) * (tb_y as int)),
    decreases n,
{
    if n > 0 {
        lemma_all_recs_props(xys, depths, radii, tb_x, tb_y, n - 1);
        lemma_splat_recs_props((n - 1) as u64, xys[n - 1], depths[n - 1], radii[n - 1], tb_x, tb_y);
        let r = all_recs_s(xys, depths, radii, tb_x, tb_y, n);
        let head = all_recs_s(xys, depths, radii, tb_x, tb_y, n - 1);
        let tail = splat_recs_s((n - 1) as u64, xys[n - 1], depths[n - 1], radii[n - 1], tb_x, tb_y);
        assert forall|i: int| 0 <= i < r.len() implies ((#[trigger] r[i]).gaussian_id < n && (
        tile_of_key_s(r[i].key) as int) < (tb_x as int) * (tb_y as int)) by {
            if i < head.len() {
                assert(r[i] == head[i]);
            } else {
                assert(r[i] == tail[i - head.len()]);
            }
        }
    }
}

proof fn lemma_insert_rec_contains(s: Seq<IsectRecord>, x: IsectRecord, e: IsectRecord)
    requires
        insert_rec_s(s, x).contains(e),
    ensures
        e == x || s.contains(e),
    decreases s.len(),
{
    let r = insert_rec_s(s, x);
    let i = choose|i: int| 0 <= i < r.len() && r[i] == e;
    if s.len() == 0 {
    } else if rec_le(x, s[0]) {
        if i > 0 {
            assert(s[i - 1] == e);
        }
    } else {
        if i == 0 {
            assert(s[0] == e);
        } else {
            let t = s.drop_first();
            assert(insert_rec_s(t, x)[i - 1] == e);
            lemma_insert_rec_contains(t, x, e);
            if t.contains(e) {
                let j = choose|j: int| 0 <= j < t.len() && t[j] == e;
                assert(s[j + 1] == e);
            }
        }
    }
}

/// The sorted arrangement holds no record the input did not.
pub proof fn lemma_sort_recs_contains(s: Seq<IsectRecord>, e: IsectRecord)
    requires
        sort_recs_s(s).contains(e),
    ensures
        s.contains(e),
    decreases s.len(),
{
    if s.len() > 0 {
        lemma_insert_rec_contains(sort_recs_s(s.drop_last()), s.last(), e);
        if e == s.last() {
            assert(s[s.len() - 1] == e);
        } else {
            lemma_sort_recs_contains(s.drop_last(), e);
            let j = choose|j: int| 0 <= j < s.drop_last().len() && s.drop_last()[j] == e;
            assert(s[j] == e);
        }
    }
}

/// What holds of every input record holds of every sorted record: the
/// Gaussian index is below the scene size and the tile lies inside the grid.
pub proof fn lemma_sorted_recs_props(
    xys: Seq<Vec2>,
    depths: Seq<i64>,
    radii: Seq<i64>,
    tb_x: u32,
    tb_y: u32,
    n: int,
)
    requires
        0 <= n <= 0x10000000000000000,
    ensures
        forall|j: int|
            0 <= j < sort_recs_s(all_recs_s(xys, depths, radii, tb_x, tb_y, n)).len() ==> ((
            #[trigger] sort_recs_s(all_recs_s(xys, depths, radii, tb_x, tb_y, n))[j]).gaussian_id
                < n && (tile_of_key_s(
                sort_recs_s(all_recs_s(xys, depths, radii, tb_x, tb_y, n))[j].key,
            ) as int) < (tb_x as int) * (tb_y as int)),
{
    lemma_all_recs_props(xys, depths, radii, tb_x, tb_y, n);
    let recs = all_recs_s(xys, depths, radii, tb_x, tb_y, n);
    let sorted = sort_recs_s(recs);
    assert forall|j: int| 0 <= j < sorted.len() implies ((#[trigger] sorted[j]).gaussian_id < n
        && (tile_of_key_s(sorted[j].key) as int) < (tb_x as int) * (tb_y as int)) by {
        assert(sorted.contains(sorted[j]));
        lemma_sort_recs_contains(recs, sorted[j]);
        let i = choose|i: int| 0 <= i < recs.len() && recs[i] == sorted[j];
        assert(recs[i].gaussian_id < n);
    }
}

/// A projected footprint emits exactly its recorded tile-hit count, so the
/// total record count of a projected scene equals the sum of the per-
/// Gaussian tile-hit counts.
pub proof fn lemma_projected_intersect_count(
    pg: crate::project::ProjectGaussians,
    means: Seq<crate::types::Vec3>,
    scales: Seq<crate::types::Vec3>,
    quats: Seq<crate::types::Quat>,
    view: crate::types::Mat4,
    proj: crate::types::Mat4,
    xys: Seq<Vec2>,
    depths: Seq<i64>,
    radii: Seq<i64>,
    hits: Seq<u64>,
    n: int,
)
    requires
        0 <= n,
        n <= xys.len(),
        n <= depths.len(),
        n <= radii.len(),
        n <= hits.len(),
        n <= means.len(),
        n <= scales.len(),
        n <= quats.len(),
        forall|i: int|
            0 <= i < n ==> {
                let sp = #[trigger] crate::project::project_splat_s(
                    pg,
                    means[i],
                    scales[i],
                    quats[i],
                    view,
                    proj,
                );
                xys[i] == sp.xy && depths[i] == sp.depth && radii[i] == sp.radius && hits[i]
                    == sp.num_tiles_hit
            },
    ensures
        all_recs_s(xys, depths, radii, pg.tile_bounds.0, pg.tile_bounds.1, n).len()
            == sum_hits_s(hits, n),
    decreases n,
{
    if n > 0 {
        lemma_projected_intersect_count(
            pg,
            means,
            scales,
            quats,
            view,
            proj,
            xys,
            depths,
            radii,
            hits,
            n - 1,
        );
        let sp = crate::project::project_splat_s(
            pg,
            means[n - 1],
            scales[n - 1],
            quats[n - 1],
            view,
            proj,
        );
        lemma_splat_recs_len(
            (n - 1) as u64,
            xys[n - 1],
            depths[n - 1],
            radii[n - 1],
            pg.tile_bounds.0,
            pg.tile_bounds.1,
        );
        assert(splat_recs_s(
            (n - 1) as u64,
            xys[n - 1],
            depths[n - 1],
            radii[n - 1],
            pg.tile_bounds.0,
            pg.tile_bounds.1,
        ).len() == sp.num_tiles_hit) by {
            reveal(crate::project::project_splat_s);
        }
    }
}

} // verus!

//! Saturating fixed-point arithmetic on signed 64-bit values.
//!
//! A value `x: i64` stands for the real number `x / FIX_ONE`, with
//! `FIX_ONE = 2^32`.  Every operation truncates toward zero and saturates at
//! `±i64::MAX`, so each executable function is total and its result is pinned
//! exactly by the matching spec function.

use vstd::prelude::*;

verus! {

/// One in fixed-point form: 2^32.
pub const FIX_ONE: i64 = 4294967296;

/// Largest magnitude a fixed-point value may take (symmetric saturation).
pub const FIX_MAX: i64 = 9223372036854775807;

/// Saturate an unbounded integer into the symmetric `i64` range.
pub open spec fn clip_s(x: int) -> int {
    if x > FIX_MAX as int {
        FIX_MAX as int
    } else if x < -(FIX_MAX as int) {
        -(FIX_MAX as int)
    } else {
        x
    }
}

/// Magnitude of an integer.
pub open spec fn abs_s(x: int) -> int {
    if x < 0 {
        -x
    } else {
        x
    }
}

/// Division truncating toward zero (for a positive divisor).
pub open spec fn tdiv_s(p: int, q: int) -> int {
    if p >= 0 {
        p / q
    } else {
        -((-p) / q)
    }
}

/// Fixed-point product: `a * b / FIX_ONE`, truncated and saturated.
pub open spec fn fmul_s(a: int, b: int) -> int {
    clip_s(tdiv_s(a * b, FIX_ONE as int))
}

/// Fixed-point quotient: `a * FIX_ONE / b`, truncated and saturated;
/// a zero divisor yields zero.
pub open spec fn fdiv_s(a: int, b: int) -> int {
    if b == 0 {
        0
    } else {
        let m = (abs_s(a) * (FIX_ONE as int)) / abs_s(b);
        if (a < 0) == (b < 0) {
            clip_s(m)
        } else {
            clip_s(-m)
        }
    }
}

/// Saturating sum.
pub open spec fn cadd_s(a: int, b: int) -> int {
    clip_s(a + b)
}

/// Saturating difference.
pub open spec fn csub_s(a: int, b: int) -> int {
    clip_s(a - b)
}

/// Saturating negation.
pub open spec fn cneg_s(a: int) -> int {
    clip_s(-a)
}

/// Divide a fixed-point value by a plain integer, truncating toward zero;
/// a non-positive divisor yields zero.
pub open spec fn idiv_s(a: int, q: int) -> int {
    if q <= 0 {
        0
    } else {
        clip_s(tdiv_s(a, q))
    }
}

/// A plain integer as a fixed-point value.
pub open spec fn int_to_fix_s(n: int) -> int {
    clip_s(n * (FIX_ONE as int))
}

/// Exponent magnitude beyond which `exp(-y)` is flushed to zero: 33.0 fixed.
pub const EXP_CUTOFF: i64 = 33 * 4294967296;

/// The natural logarithm of 2 in fixed-point form.
pub const LN2_FIX: i64 = 2977044471;

/// Floor square root of a non-negative integer, by halving digit recursion.
pub open spec fn isqrt_s(n: int) -> int
    decreases n,
{
    if n < 1 {
        0
    } else {
        let h = isqrt_s(n / 4);
        if (2 * h + 1) * (2 * h + 1) <= n {
            2 * h + 1
        } else {
            2 * h
        }
    }
}

/// Fixed-point square root: `sqrt(a * FIX_ONE)` rounded down; zero for
/// non-positive arguments.
pub open spec fn fsqrt_s(a: int) -> int {
    if a <= 0 {
        0
    } else {
        isqrt_s(a * (FIX_ONE as int))
    }
}

/// Alternating Taylor tail of `exp(-r)`, summed from term `k` outward.
pub open spec fn taylor_s(r: int, k: int) -> int
    decreases 17 - k,
{
    if k >= 17 || k < 1 {
        FIX_ONE as int
    } else {
        csub_s(FIX_ONE as int, idiv_s(fmul_s(r, taylor_s(r, k + 1)), k))
    }
}

/// Halve a value `n` times, truncating toward zero each step.
pub open spec fn halve_n_s(v: int, n: int) -> int
    decreases n,
{
    if n <= 0 {
        v
    } else {
        halve_n_s(tdiv_s(v, 2), n - 1)
    }
}

/// Fixed-point `exp(-y)` for `y >= 0` (arguments below zero count as zero):
/// range reduction by powers of two, then a Taylor polynomial on the rest.
pub open spec fn fexp_neg_s(y: int) -> int {
    if y <= 0 {
        FIX_ONE as int
    } else if y >= EXP_CUTOFF as int {
        0
    } else {
        let n = y / (LN2_FIX as int);
        let r = y - n * (LN2_FIX as int);
        halve_n_s(taylor_s(r, 1), n)
    }
}

fn abs_u128(a: i64) -> (r: u128)
    ensures
        r == abs_s(a as int),
{
    if a >= 0 {
        a as u128
    } else {
        (-(a as i128)) as u128
    }
}

fn clip_i128(x: i128) -> (r: i64)
    ensures
        r as int == clip_s(x as int),
{
    if x > FIX_MAX as i128 {
        FIX_MAX
    } else if x < -(FIX_MAX as i128) {
        -FIX_MAX
    } else {
        x as i64
    }
}

fn signed_clip(mag: u128, neg: bool) -> (r: i64)
    ensures
        r as int == (if neg {
            clip_s(-(mag as int))
        } else {
            clip_s(mag as int)
        }),
{
    if mag > FIX_MAX as u128 {
        if neg {
            -FIX_MAX
        } else {
            FIX_MAX
        }
    } else {
        if neg {
            -(mag as i64)
        } else {
            mag as i64
        }
    }
}

proof fn lemma_signed_mag(a: int, b: int)
    ensures
        (a < 0) != (b < 0) ==> a * b == -(abs_s(a) * abs_s(b)),
        (a < 0) == (b < 0) ==> a * b == abs_s(a) * abs_s(b),
{
    assert((a < 0) != (b < 0) ==> a * b == -(abs_s(a) * abs_s(b))) by (nonlinear_arith);
    assert((a < 0) == (b < 0) ==> a * b == abs_s(a) * abs_s(b)) by (nonlinear_arith);
}

/// Fixed-point multiplication.
pub fn fmul(a: i64, b: i64) -> (r: i64)
    ensures
        r as int == fmul_s(a as int, b as int),
{
    let ua = abs_u128(a);
    let ub = abs_u128(b);
    proof {
        assert(ua * ub <= 0x8000000000000000u128 * 0x8000000000000000u128) by (nonlinear_arith)
            requires
                ua <= 0x8000000000000000u128,
                ub <= 0x8000000000000000u128,
        ;
    }
    let p: u128 = ua * ub;
    let q: u128 = p / (FIX_ONE as u128);
    let neg = (a < 0) != (b < 0);
    proof {
        lemma_signed_mag(a as int, b as int);
    }
    signed_clip(q, neg)
}

/// Fixed-point division.
pub fn fdiv(a: i64, b: i64) -> (r: i64)
    ensures
        r as int == fdiv_s(a as int, b as int),
{
    if b == 0 {
        return 0;
    }
    let ua = abs_u128(a);
    let ub = abs_u128(b);
    proof {
        assert(ua * (FIX_ONE as u128) <= 0x8000000000000000u128 * (FIX_ONE as u128))
            by (nonlinear_arith)
            requires
                ua <= 0x8000000000000000u128,
        ;
    }
    let num: u128 = ua * (FIX_ONE as u128);
    let q: u128 = num / ub;
    let neg = (a < 0) != (b < 0);
    signed_clip(q, neg)
}

/// Saturating addition.
pub fn cadd(a: i64, b: i64) -> (r: i64)
    ensures
        r as int == cadd_s(a as int, b as int),
{
    clip_i128((a as i128) + (b as i128))
}

/// Saturating subtraction.
pub fn csub(a: i64, b: i64) -> (r: i64)
    ensures
        r as int == csub_s(a as int, b as int),
{
    clip_i128((a as i128) - (b as i128))
}

/// Saturating negation.
pub fn cneg(a: i64) -> (r: i64)
    ensures
        r as int == cneg_s(a as int),
{
    clip_i128(-(a as i128))
}

/// Divide a fixed-point value by a plain integer.
pub fn idiv(a: i64, q: i64) -> (r: i64)
    ensures
        r as int == idiv_s(a as int, q as int),
{
    if q <= 0 {
        return 0;
    }
    let ua = abs_u128(a);
    let m: u128 = ua / (q as u128);
    proof {
        assert(m <= ua);
    }
    signed_clip(m, a < 0)
}

/// A plain integer as a fixed-point value.
pub fn int_to_fix(n: i64) -> (r: i64)
    ensures
        r as int == int_to_fix_s(n as int),
{
    let ua = abs_u128(n);
    proof {
        assert(ua * (FIX_ONE as u128) <= 0x8000000000000000u128 * (FIX_ONE as u128))
            by (nonlinear_arith)
            requires
                ua <= 0x8000000000000000u128,
        ;
    }
    let p: u128 = ua * (FIX_ONE as u128);
    proof {
        lemma_signed_mag(n as int, FIX_ONE as int);
    }
    signed_clip(p, n < 0)
}

/// Doubling, shorthand for a saturating self-addition.
pub open spec fn sdbl(a: i64) -> i64 {
    sadd(a, a)
}

/// Larger of two values.
pub open spec fn smax(a: i64, b: i64) -> i64 {
    if a >= b {
        a
    } else {
        b
    }
}

/// Smaller of two values.
pub open spec fn smin(a: i64, b: i64) -> i64 {
    if a <= b {
        a
    } else {
        b
    }
}

/// Clamp into a closed interval (callers keep `lo <= hi`).
pub open spec fn sclamp(v: i64, lo: i64, hi: i64) -> i64 {
    if v < lo {
        lo
    } else if v > hi {
        hi
    } else {
        v
    }
}

/// Round a fixed-point value up to a whole number of units; non-positive
/// values round to zero.
pub open spec fn fceil_pos_s(v: int) -> int {
    if v <= 0 {
        0
    } else {
        (v + FIX_ONE as int - 1) / (FIX_ONE as int)
    }
}

/// See [`fceil_pos_s`]; the result is a plain integer count.
pub open spec fn sceil(v: i64) -> i64 {
    fceil_pos_s(v as int) as i64
}

/// Doubling.
pub fn dbl(a: i64) -> (r: i64)
    ensures
        r == sdbl(a),
{
    cadd(a, a)
}

/// Smaller of two values.
pub fn fmin(a: i64, b: i64) -> (r: i64)
    ensures
        r == smin(a, b),
{
    if a <= b {
        a
    } else {
        b
    }
}

/// Larger of two values.
pub fn fmax(a: i64, b: i64) -> (r: i64)
    ensures
        r == smax(a, b),
{
    if a >= b {
        a
    } else {
        b
    }
}

/// Clamp into a closed interval.
pub fn fclamp(v: i64, lo: i64, hi: i64) -> (r: i64)
    ensures
        r == sclamp(v, lo, hi),
{
    if v < lo {
        lo
    } else if v > hi {
        hi
    } else {
        v
    }
}

/// Round a fixed-point value up to a whole number of units.
pub fn fceil_pos(v: i64) -> (r: i64)
    ensures
        r == sceil(v),
{
    if v <= 0 {
        0
    } else {
        let u: u128 = (v as u128) + (FIX_ONE as u128) - 1;
        let q: u128 = u / (FIX_ONE as u128);
        q as i64
    }
}

/// The spec ops below mirror the executable ops at type `i64`; every
/// executable result lands back in range, so the casts are value-preserving.
/// They let larger formulas be written once and read the same way in specs
/// and in code.
pub open spec fn smul(a: i64, b: i64) -> i64 {
    fmul_s(a as int, b as int) as i64
}

pub open spec fn sdiv(a: i64, b: i64) -> i64 {
    fdiv_s(a as int, b as int) as i64
}

pub open spec fn sadd(a: i64, b: i64) -> i64 {
    cadd_s(a as int, b as int) as i64
}

pub open spec fn ssub(a: i64, b: i64) -> i64 {
    csub_s(a as int, b as int) as i64
}

pub open spec fn sneg(a: i64) -> i64 {
    cneg_s(a as int) as i64
}

pub open spec fn sidiv(a: i64, q: i64) -> i64 {
    idiv_s(a as int, q as int) as i64
}

pub open spec fn ssqrt(a: i64) -> i64 {
    fsqrt_s(a as int) as i64
}

pub open spec fn sexp_neg(a: i64) -> i64 {
    fexp_neg_s(a as int) as i64
}

pub open spec fn sfix(n: i64) -> i64 {
    int_to_fix_s(n as int) as i64
}

proof fn lemma_isqrt_bounds(n: int)
    requires
        n >= 0,
    ensures
        isqrt_s(n) >= 0,
        isqrt_s(n) * isqrt_s(n) <= n,
        (isqrt_s(n) + 1) * (isqrt_s(n) + 1) > n,
    decreases n,
{
    if n < 1 {
        assert(isqrt_s(n) == 0);
        assert(n == 0);
    } else {
        lemma_isqrt_bounds(n / 4);
        let h = isqrt_s(n / 4);
        vstd::arithmetic::div_mod::lemma_fundamental_div_mod(n, 4);
        let q = n / 4;
        assert(h * h <= q && (h + 1) * (h + 1) > q);
        assert(4 * q <= n && n <= 4 * q + 3);
        assert((2 * h) * (2 * h) == 4 * (h * h)) by (nonlinear_arith);
        assert((2 * h + 2) * (2 * h + 2) == 4 * ((h + 1) * (h + 1))) by (nonlinear_arith);
        assert(4 * (h * h) <= 4 * q) by (nonlinear_arith)
            requires
                h * h <= q,
        ;
        assert(4 * ((h + 1) * (h + 1)) >= 4 * q + 4) by (nonlinear_arith)
            requires
                (h + 1) * (h + 1) > q,
        ;
        let r = isqrt_s(n);
        if (2 * h + 1) * (2 * h + 1) <= n {
            assert(r == 2 * h + 1);
            assert(r * r == (2 * h + 1) * (2 * h + 1));
            assert((r + 1) * (r + 1) == (2 * h + 2) * (2 * h + 2));
            assert(r * r <= n);
            assert((r + 1) * (r + 1) > n);
        } else {
            assert(r == 2 * h);
            assert(r * r == (2 * h) * (2 * h));
            assert((r + 1) * (r + 1) == (2 * h + 1) * (2 * h + 1));
            assert(r * r <= n);
            assert((r + 1) * (r + 1) > n);
        }
        assert(isqrt_s(n) * isqrt_s(n) <= n);
        assert((isqrt_s(n) + 1) * (isqrt_s(n) + 1) > n);
    }
}

proof fn lemma_isqrt_unique(n: int, r: int, s: int)
    requires
        n >= 0,
        r >= 0,
        s >= 0,
        r * r <= n,
        (r + 1) * (r + 1) > n,
        s * s <= n,
        (s + 1) * (s + 1) > n,
    ensures
        r == s,
{
    assert(r == s) by (nonlinear_arith)
        requires
            r >= 0,
            s >= 0,
            r * r <= n,
            (r + 1) * (r + 1) > n,
            s * s <= n,
            (s + 1) * (s + 1) > n,
    ;
}

fn isqrt_u128(v: u128) -> (r: u128)
    requires
        v < 0x1000000000000000000000000u128,
    ensures
        r * r <= v,
        (r + 1) * (r + 1) > v,
        r <= 0x1000000000000u128,
{
    let mut lo: u128 = 0;
    let mut hi: u128 = 0x1000000000000u128;
    proof {
        assert(hi * hi > v);
    }
    while lo + 1 < hi
        invariant
            lo * lo <= v,
            hi * hi > v,
            lo < hi,
            hi <= 0x1000000000000u128,
        decreases hi - lo,
    {
        let mid: u128 = lo + (hi - lo) / 2;
        proof {
            assert(mid * mid <= 0x1000000000000u128 * 0x1000000000000u128) by (nonlinear_arith)
                requires
                    mid <= 0x1000000000000u128,
            ;
        }
        if mid * mid <= v {
            lo = mid;
        } else {
            hi = mid;
        }
    }
    lo
}

/// Fixed-point square root.
pub fn fsqrt(a: i64) -> (r: i64)
    ensures
        r as int == fsqrt_s(a as int),
        r >= 0,
{
    if a <= 0 {
        return 0;
    }
    proof {
        assert((a as u128) * (FIX_ONE as u128) <= 0x8000000000000000u128 * (FIX_ONE as u128))
            by (nonlinear_arith)
            requires
                a as u128 <= 0x8000000000000000u128,
        ;
    }
    let v: u128 = (a as u128) * (FIX_ONE as u128);
    let r = isqrt_u128(v);
    proof {
        lemma_isqrt_bounds(v as int);
        lemma_isqrt_unique(v as int, r as int, isqrt_s(v as int));
    }
    r as i64
}

/// Fixed-point `exp(-y)`; see [`fexp_neg_s`].
pub fn fexp_neg(y: i64) -> (r: i64)
    ensures
        r as int == fexp_neg_s(y as int),
{
    if y <= 0 {
        return FIX_ONE;
    }
    if y >= EXP_CUTOFF {
        return 0;
    }
    let n: i64 = ((y as u64) / (LN2_FIX as u64)) as i64;
    proof {
        vstd::arithmetic::div_mod::lemma_fundamental_div_mod(y as int, LN2_FIX as int);
        assert(n * (LN2_FIX as int) == (y as int / (LN2_FIX as int)) * (LN2_FIX as int));
        assert(n <= 48) by {
            assert(y as int / (LN2_FIX as int) <= (EXP_CUTOFF as int) / (LN2_FIX as int)) by {
                vstd::arithmetic::div_mod::lemma_div_is_ordered(
                    y as int,
                    EXP_CUTOFF as int,
                    LN2_FIX as int,
                );
            }
        }
        assert(n * LN2_FIX <= 48 * LN2_FIX) by (nonlinear_arith)
            requires
                0 <= n <= 48,
        ;
    }
    let rr: i64 = y - n * LN2_FIX;
    let mut acc: i64 = FIX_ONE;
    let mut k: i64 = 16;
    proof {
        assert(acc as int == taylor_s(rr as int, 17));
    }
    while k >= 1
        invariant
            0 <= k <= 16,
            acc as int == taylor_s(rr as int, k as int + 1),
        decreases k,
    {
        acc = csub(FIX_ONE, idiv(fmul(rr, acc), k));
        k = k - 1;
    }
    proof {
        assert(acc as int == taylor_s(rr as int, 1));
    }
    let mut res: i64 = acc;
    let mut i: i64 = 0;
    while i < n
        invariant
            0 <= i <= n,
            n <= 48,
            halve_n_s(res as int, (n - i) as int) == halve_n_s(acc as int, n as int),
        decreases n - i,
    {
        proof {
            assert(idiv_s(res as int, 2) == tdiv_s(res as int, 2)) by {
                assert(abs_s(tdiv_s(res as int, 2)) <= abs_s(res as int));
            }
        }
        res = idiv(res, 2);
        i = i + 1;
    }
    proof {
        assert(res as int == halve_n_s(acc as int, n as int));
        assert(n as int == y as int / (LN2_FIX as int));
        assert(rr as int == y as int - (y as int / (LN2_FIX as int)) * (LN2_FIX as int));
    }
    res
}

} // verus!

//! Downsampler: Largest-Triangle-Three-Buckets over two parallel data
//! columns.
//!
//! The primary column carries the values plotted against the value axis, the
//! secondary column the paired dimension. Interior points (everything but the
//! first and last) are split into `threshold - 2` buckets whose boundaries
//! are the exact rational bucket width `(len - 2) / (threshold - 2)` rounded
//! down. For each bucket the point is kept that spans the largest triangle
//! with the previously kept point and the centroid of the next bucket; areas
//! are compared exactly, by cross products scaled with the (positive) length
//! of the averaged bucket, so the selection is deterministic on every
//! machine.

use vstd::prelude::*;
use vstd::arithmetic::div_mod::{
    lemma_fundamental_div_mod, lemma_mod_bound, lemma_div_is_ordered, lemma_div_plus_one,
    lemma_div_pos_is_pos, lemma_div_by_multiple,
};
use crate::VAL_LIMIT;

verus! {

/// Most points a column handed to the downsampler may hold.
pub const MAX_POINTS: usize = 1_000_000;

/// Sum of `s[a..b]`.
pub open spec fn col_sum(s: Seq<i64>, a: int, b: int) -> int
    decreases b - a,
{
    if b <= a {
        0
    } else {
        col_sum(s, a, (b - 1) as int) + s[b - 1]
    }
}

pub open spec fn abs_i(x: int) -> int {
    if x < 0 {
        -x
    } else {
        x
    }
}

/// Twice the triangle area spanned by the kept point `a`, the candidate `i`
/// and the next bucket's centroid, multiplied by the (positive) length `l`
/// of the averaged range so that everything stays an integer: the centroid
/// is `(sx / l, sy / l)` with `sx`, `sy` the coordinate sums.
pub open spec fn area2l(
    prim: Seq<i64>,
    sec: Seq<i64>,
    a: int,
    i: int,
    sx: int,
    sy: int,
    l: int,
) -> int {
    abs_i((sec[a] * l - sx) * (prim[i] - prim[a]) - (sec[a] - sec[i]) * (sy - prim[a] * l))
}

/// Index of the first maximal-area candidate in `[lo, j)` (a later candidate
/// replaces the best one only with a strictly larger area).
pub open spec fn best_in_range(
    prim: Seq<i64>,
    sec: Seq<i64>,
    a: int,
    lo: int,
    j: int,
    sx: int,
    sy: int,
    l: int,
) -> int
    decreases j - lo,
{
    if j <= lo + 1 {
        lo
    } else {
        let b = best_in_range(prim, sec, a, lo, (j - 1) as int, sx, sy, l);
        if area2l(prim, sec, a, (j - 1) as int, sx, sy, l) > area2l(prim, sec, a, b, sx, sy, l) {
            j - 1
        } else {
            b
        }
    }
}

/// Lower boundary of interior bucket `k`: the first and last points are
/// fixed, so bucket `k` of `t - 2` covers input indices
/// `[bucket_bound(n, t, k), bucket_bound(n, t, k + 1))`.
pub open spec fn bucket_bound(n: int, t: int, k: int) -> int {
    k * (n - 2) / (t - 2) + 1
}

/// The input index selected for output slot `k >= 1` (slot 0 is the first
/// input point). Slot `k` is chosen from bucket `k - 1`, against the
/// centroid of the averaged range `[bucket_bound(k), min(bucket_bound(k+1), n))`.
pub open spec fn lttb_sel(prim: Seq<i64>, sec: Seq<i64>, t: int, k: int) -> int
    decreases k,
{
    let n = prim.len() as int;
    if k <= 0 {
        0
    } else {
        let a = lttb_sel(prim, sec, t, (k - 1) as int);
        let lo = bucket_bound(n, t, (k - 1) as int);
        let hi = bucket_bound(n, t, k);
        let ae = lttb_sel_ae(prim, t, k);
        let sx = col_sum(sec, hi, ae);
        let sy = col_sum(prim, hi, ae);
        best_in_range(prim, sec, a, lo, hi, sx, sy, ae - hi)
    }
}

/// Whether the downsampler passes its input through unchanged.
pub open spec fn lttb_passthrough(n: int, t: int) -> bool {
    t == 0 || t >= n || n <= 2
}

/// The input index that feeds output slot `j`.
pub open spec fn lttb_index(prim: Seq<i64>, sec: Seq<i64>, t: int, j: int) -> int {
    let n = prim.len() as int;
    if lttb_passthrough(n, t) {
        j
    } else if j == 0 {
        0
    } else if j == t - 1 {
        n - 1
    } else {
        lttb_sel(prim, sec, t, j)
    }
}

/// Number of output points: the input length when nothing is to be done,
/// the threshold otherwise.
pub open spec fn lttb_out_len(n: int, t: int) -> int {
    if lttb_passthrough(n, t) {
        n
    } else {
        t
    }
}

/// Ordering facts about the bucket boundaries: buckets are non-empty,
/// strictly interior, and in increasing position.
pub proof fn lemma_bucket_bounds(n: int, t: int, k: int)
    requires
        3 <= t < n,
        0 <= k <= t - 1,
    ensures
        1 <= bucket_bound(n, t, k),
        k <= t - 2 ==> bucket_bound(n, t, k) <= n - 1,
        k >= 1 ==> bucket_bound(n, t, (k - 1) as int) + 1 <= bucket_bound(n, t, k),
{
    let d = t - 2;
    lemma_div_pos_is_pos(k * (n - 2), d);
    assert(k * (n - 2) >= 0) by (nonlinear_arith)
        requires
            k >= 0,
            n >= 2,
    ;
    if k <= t - 2 {
        assert(k * (n - 2) <= d * (n - 2)) by (nonlinear_arith)
            requires
                k <= d,
                n - 2 >= 0,
        ;
        lemma_div_is_ordered(k * (n - 2), d * (n - 2), d);
        lemma_div_by_multiple(n - 2, d);
    }
    if k >= 1 {
        assert((k - 1) * (n - 2) + d <= k * (n - 2)) by (nonlinear_arith)
            requires
                n - 2 >= d,
        ;
        lemma_div_plus_one((k - 1) * (n - 2), d);
        lemma_div_is_ordered((k - 1) * (n - 2) + d, k * (n - 2), d);
    }
}

/// The chosen candidate lies inside the scanned range.
pub proof fn lemma_best_in_range_bounds(
    prim: Seq<i64>,
    sec: Seq<i64>,
    a: int,
    lo: int,
    j: int,
    sx: int,
    sy: int,
    l: int,
)
    requires
        lo < j,
    ensures
        lo <= best_in_range(prim, sec, a, lo, j, sx, sy, l) < j,
    decreases j - lo,
{
    if j > lo + 1 {
        lemma_best_in_range_bounds(prim, sec, a, lo, j - 1, sx, sy, l);
    }
}

/// Every selected index is an interior input index.
pub proof fn lemma_lttb_sel_bounds(prim: Seq<i64>, sec: Seq<i64>, t: int, k: int)
    requires
        3 <= t < prim.len(),
        0 <= k <= t - 2,
    ensures
        0 <= lttb_sel(prim, sec, t, k) <= prim.len() - 2,
        k >= 1 ==> 1 <= lttb_sel(prim, sec, t, k),
    decreases k,
{
    let n = prim.len() as int;
    if k >= 1 {
        lemma_lttb_sel_bounds(prim, sec, t, k - 1);
        lemma_bucket_bounds(n, t, k - 1);
        lemma_bucket_bounds(n, t, k);
        lemma_best_in_range_bounds(
            prim,
            sec,
            lttb_sel(prim, sec, t, k - 1),
            bucket_bound(n, t, k - 1),
            bucket_bound(n, t, k),
            col_sum(sec, bucket_bound(n, t, k), lttb_sel_ae(prim, t, k)),
            col_sum(prim, bucket_bound(n, t, k), lttb_sel_ae(prim, t, k)),
            lttb_sel_ae(prim, t, k) - bucket_bound(n, t, k),
        );
    }
}

/// Upper end of the averaged range used when selecting output slot `k`.
pub open spec fn lttb_sel_ae(prim: Seq<i64>, t: int, k: int) -> int {
    let n = prim.len() as int;
    let ae0 = bucket_bound(n, t, k + 1);
    if ae0 > n {
        n
    } else {
        ae0
    }
}

/// Every output slot draws from a valid input index.
pub proof fn lemma_lttb_index_bounds(prim: Seq<i64>, sec: Seq<i64>, t: int, j: int)
    requires
        t == 0 || t >= 2,
        0 <= j < lttb_out_len(prim.len() as int, t),
    ensures
        0 <= lttb_index(prim, sec, t, j) < prim.len(),
{
    let n = prim.len() as int;
    if lttb_passthrough(n, t) {
    } else {
        if j == 0 {
        } else if j == t - 1 {
        } else {
            lemma_lttb_sel_bounds(prim, sec, t, j);
        }
    }
}

/// Exact doubled-and-scaled triangle area on plain coordinates.
fn area2l_exec(ax: i64, ay: i64, xi: i64, yi: i64, sx: i128, sy: i128, l: i128) -> (r: i128)
    requires
        -VAL_LIMIT <= ax <= VAL_LIMIT,
        -VAL_LIMIT <= ay <= VAL_LIMIT,
        -VAL_LIMIT <= xi <= VAL_LIMIT,
        -VAL_LIMIT <= yi <= VAL_LIMIT,
        1 <= l <= 1_000_000,
        -l * (VAL_LIMIT as int) <= sx <= l * (VAL_LIMIT as int),
        -l * (VAL_LIMIT as int) <= sy <= l * (VAL_LIMIT as int),
    ensures
        r == abs_i((ax * l - sx) * (yi - ay) - (ax - xi) * (sy - ay * l)),
{
    proof {
        assert(-1_000_000_000_000_000_000_000 <= ax * l <= 1_000_000_000_000_000_000_000)
            by (nonlinear_arith)
            requires
                -VAL_LIMIT <= ax <= VAL_LIMIT,
                1 <= l <= 1_000_000,
        ;
        assert(-1_000_000_000_000_000_000_000 <= ay * l <= 1_000_000_000_000_000_000_000)
            by (nonlinear_arith)
            requires
                -VAL_LIMIT <= ay <= VAL_LIMIT,
                1 <= l <= 1_000_000,
        ;
        assert(-1_000_000_000_000_000_000_000 <= sx <= 1_000_000_000_000_000_000_000)
            by (nonlinear_arith)
            requires
                1 <= l <= 1_000_000,
                -l * (VAL_LIMIT as int) <= sx <= l * (VAL_LIMIT as int),
        ;
        assert(-1_000_000_000_000_000_000_000 <= sy <= 1_000_000_000_000_000_000_000)
            by (nonlinear_arith)
            requires
                1 <= l <= 1_000_000,
                -l * (VAL_LIMIT as int) <= sy <= l * (VAL_LIMIT as int),
        ;
    }
    let t1: i128 = ax as i128 * l - sx;
    let t2: i128 = sy - ay as i128 * l;
    let dy: i128 = yi as i128 - ay as i128;
    let dx: i128 = ax as i128 - xi as i128;
    proof {
        let big = 2_000_000_000_000_000_000_000int;
        let sml = 2_000_000_000_000_000int;
        assert(-big * sml <= t1 * dy <= big * sml) by (nonlinear_arith)
            requires
                -big <= t1 <= big,
                -sml <= dy <= sml,
        ;
        assert(-big * sml <= dx * t2 <= big * sml) by (nonlinear_arith)
            requires
                -big <= t2 <= big,
                -sml <= dx <= sml,
        ;
    }
    let area: i128 = t1 * dy - dx * t2;
    if area < 0 {
        -area
    } else {
        area
    }
}

/// Boundary of interior bucket `k`, clipped to the number of points.
fn bucket_lo(n: usize, t: usize, k: usize) -> (r: usize)
    requires
        3 <= t < n,
        n <= MAX_POINTS,
        k <= t - 1,
    ensures
        r == if bucket_bound(n as int, t as int, k as int) > n {
            n as int
        } else {
            bucket_bound(n as int, t as int, k as int)
        },
        1 <= r <= n,
{
    proof {
        lemma_bucket_bounds(n as int, t as int, k as int);
        assert(0 <= k * (n - 2) <= 1_000_000_000_000) by (nonlinear_arith)
            requires
                0 <= k <= 1_000_000,
                0 <= n - 2 <= 1_000_000,
        ;
        lemma_fundamental_div_mod((k * (n - 2)) as int, (t - 2) as int);
        lemma_mod_bound((k * (n - 2)) as int, (t - 2) as int);
    }
    let num: u64 = (k as u64) * ((n - 2) as u64);
    let q: u64 = num / ((t - 2) as u64);
    proof {
        lemma_fundamental_div_mod(num as int, (t - 2) as int);
        lemma_mod_bound(num as int, (t - 2) as int);
        let qi = num as int / (t - 2) as int;
        assert(qi * ((t - 2) as int) >= qi) by (nonlinear_arith)
            requires
                (t - 2) as int >= 1,
                qi >= 0,
        ;
    }
    let b: u64 = q + 1;
    if b > n as u64 {
        n
    } else {
        b as usize
    }
}

/// Largest-Triangle-Three-Buckets downsampling of two parallel columns.
///
/// A threshold of zero, a threshold at or above the input length, or an
/// input of at most two points passes the input through unchanged; otherwise
/// exactly `threshold` points come back: the first input point, one point
/// chosen from each interior bucket, and the last input point.
pub fn lttb(primary: &Vec<i64>, secondary: &Vec<i64>, threshold: usize) -> (r: (Vec<i64>, Vec<
    i64>))
    requires
        primary.len() == secondary.len(),
        primary.len() <= MAX_POINTS,
        threshold == 0 || threshold >= 2,
        forall|i: int|
            0 <= i < primary.len() ==> -VAL_LIMIT <= #[trigger] primary[i] <= VAL_LIMIT,
        forall|i: int|
            0 <= i < secondary.len() ==> -VAL_LIMIT <= #[trigger] secondary[i] <= VAL_LIMIT,
    ensures
        r.0@.len() == lttb_out_len(primary.len() as int, threshold as int),
        r.1@.len() == r.0@.len(),
        forall|j: int|
            0 <= j < r.0@.len() ==> #[trigger] r.0@[j] == primary@[lttb_index(
                primary@,
                secondary@,
                threshold as int,
                j,
            )],
        forall|j: int|
            0 <= j < r.1@.len() ==> #[trigger] r.1@[j] == secondary@[lttb_index(
                primary@,
                secondary@,
                threshold as int,
                j,
            )],
        lttb_passthrough(primary.len() as int, threshold as int) ==> r.0@ == primary@ && r.1@
            == secondary@,
        primary.len() > 0 ==> r.0@.len() > 0 && r.0@[0] == primary@[0] && r.1@[0]
            == secondary@[0] && r.0@[r.0@.len() - 1] == primary@[primary.len() - 1]
            && r.1@[r.1@.len() - 1] == secondary@[secondary.len() - 1],
{
    let n = primary.len();
    if threshold >= n || threshold == 0 || n <= 2 {
        let rp = primary.clone();
        let rs = secondary.clone();
        proof {
            assert(rp@ =~= primary@);
            assert(rs@ =~= secondary@);
        }
        return (rp, rs);
    }
    let t = threshold;
    let ghost gt = t as int;
    let ghost prim = primary@;
    let ghost sec = secondary@;
    let mut out_p: Vec<i64> = Vec::new();
    let mut out_s: Vec<i64> = Vec::new();
    out_p.push(primary[0]);
    out_s.push(secondary[0]);
    let mut a: usize = 0;
    let mut k: usize = 0;
    while k < t - 2
        invariant
            2 <= t < n == primary.len() == secondary.len() <= MAX_POINTS,
            gt == t as int,
            prim == primary@,
            sec == secondary@,
            forall|i: int| 0 <= i < n ==> -VAL_LIMIT <= #[trigger] prim[i] <= VAL_LIMIT,
            forall|i: int| 0 <= i < n ==> -VAL_LIMIT <= #[trigger] sec[i] <= VAL_LIMIT,
            0 <= k <= t - 2,
            a == lttb_sel(prim, sec, gt, k as int),
            a <= n - 2,
            out_p@.len() == k + 1,
            out_s@.len() == k + 1,
            forall|j: int|
                0 <= j <= k ==> #[trigger] out_p@[j] == prim[lttb_index(prim, sec, gt, j)],
            forall|j: int|
                0 <= j <= k ==> #[trigger] out_s@[j] == sec[lttb_index(prim, sec, gt, j)],
        decreases t - 2 - k,
    {
        let lo = bucket_lo(n, t, k);
        let hi = bucket_lo(n, t, k + 1);
        let ae = bucket_lo(n, t, k + 2);
        proof {
            lemma_bucket_bounds(n as int, gt, k as int);
            lemma_bucket_bounds(n as int, gt, k + 1);
            lemma_bucket_bounds(n as int, gt, k + 2);
            assert(lo == bucket_bound(n as int, gt, k as int));
            assert(hi == bucket_bound(n as int, gt, k + 1));
            assert(ae == lttb_sel_ae(prim, gt, k + 1));
        }
        // centroid sums of the averaged range [hi, ae)
        let mut sx: i128 = 0;
        let mut sy: i128 = 0;
        let mut i: usize = hi;
        while i < ae
            invariant
                hi <= i <= ae <= n == primary.len() == secondary.len(),
                prim == primary@,
                sec == secondary@,
                forall|ii: int| 0 <= ii < n ==> -VAL_LIMIT <= #[trigger] prim[ii] <= VAL_LIMIT,
                forall|ii: int| 0 <= ii < n ==> -VAL_LIMIT <= #[trigger] sec[ii] <= VAL_LIMIT,
                sx == col_sum(sec, hi as int, i as int),
                sy == col_sum(prim, hi as int, i as int),
                -((i - hi) as int) * (VAL_LIMIT as int) <= sx <= ((i - hi) as int) * (
                VAL_LIMIT as int),
                -((i - hi) as int) * (VAL_LIMIT as int) <= sy <= ((i - hi) as int) * (
                VAL_LIMIT as int),
            decreases ae - i,
        {
            sx = sx + secondary[i] as i128;
            sy = sy + primary[i] as i128;
            i = i + 1;
        }
        let l: i128 = (ae - hi) as i128;
        // scan the current bucket [lo, hi) for the largest triangle
        let ax = secondary[a];
        let ay = primary[a];
        let mut best: usize = lo;
        let mut best_area: i128 = area2l_exec(ax, ay, secondary[lo], primary[lo], sx, sy, l);
        let mut i: usize = lo + 1;
        while i < hi
            invariant
                1 <= lo < i <= hi <= n - 1,
                n == primary.len() == secondary.len() <= MAX_POINTS,
                prim == primary@,
                sec == secondary@,
                forall|ii: int| 0 <= ii < n ==> -VAL_LIMIT <= #[trigger] prim[ii] <= VAL_LIMIT,
                forall|ii: int| 0 <= ii < n ==> -VAL_LIMIT <= #[trigger] sec[ii] <= VAL_LIMIT,
                a <= n - 2,
                ax == sec[a as int],
                ay == prim[a as int],
                1 <= l <= 1_000_000,
                -l * (VAL_LIMIT as int) <= sx <= l * (VAL_LIMIT as int),
                -l * (VAL_LIMIT as int) <= sy <= l * (VAL_LIMIT as int),
                lo <= best < i,
                best == best_in_range(prim, sec, a as int, lo as int, i as int, sx as int, sy as int, l as int),
                best_area == area2l(prim, sec, a as int, best as int, sx as int, sy as int, l as int),
            decreases hi - i,
        {
            let ar = area2l_exec(ax, ay, secondary[i], primary[i], sx, sy, l);
            if ar > best_area {
                best = i;
                best_area = ar;
            }
            i = i + 1;
        }
        out_p.push(primary[best]);
        out_s.push(secondary[best]);
        proof {
            assert(best == lttb_sel(prim, sec, gt, k + 1));
        }
        a = best;
        k = k + 1;
    }
    out_p.push(primary[n - 1]);
    out_s.push(secondary[n - 1]);
    (out_p, out_s)
}

/// Law: with a threshold of at least two the downsampler emits
/// `min(len, threshold)` points.
pub proof fn lemma_lttb_output_len(n: int, t: int)
    requires
        n >= 0,
        t >= 2,
    ensures
        lttb_out_len(n, t) == if n <= t {
            n
        } else {
            t
        },
{
}


/// Largest-Triangle-Three-Buckets with all bucket boundaries precomputed
/// up front, so the selection loop only reads them. Selects exactly the
/// points [`lttb`] selects.
pub fn lttb_optimized_memory(primary: &Vec<i64>, secondary: &Vec<i64>, threshold: usize) -> (r:
    (Vec<i64>, Vec<i64>))
    requires
        primary.len() == secondary.len(),
        primary.len() <= MAX_POINTS,
        threshold == 0 || threshold >= 2,
        forall|i: int|
            0 <= i < primary.len() ==> -VAL_LIMIT <= #[trigger] primary[i] <= VAL_LIMIT,
        forall|i: int|
            0 <= i < secondary.len() ==> -VAL_LIMIT <= #[trigger] secondary[i] <= VAL_LIMIT,
    ensures
        r.0@.len() == lttb_out_len(primary.len() as int, threshold as int),
        r.1@.len() == r.0@.len(),
        forall|j: int|
            0 <= j < r.0@.len() ==> #[trigger] r.0@[j] == primary@[lttb_index(
                primary@,
                secondary@,
                threshold as int,
                j,
            )],
        forall|j: int|
            0 <= j < r.1@.len() ==> #[trigger] r.1@[j] == secondary@[lttb_index(
                primary@,
                secondary@,
                threshold as int,
                j,
            )],
        lttb_passthrough(primary.len() as int, threshold as int) ==> r.0@ == primary@ && r.1@
            == secondary@,
        primary.len() > 0 ==> r.0@.len() > 0 && r.0@[0] == primary@[0] && r.1@[0]
            == secondary@[0] && r.0@[r.0@.len() - 1] == primary@[primary.len() - 1]
            && r.1@[r.1@.len() - 1] == secondary@[secondary.len() - 1],
{
    let n = primary.len();
    if threshold >= n || threshold == 0 || n <= 2 {
        let rp = primary.clone();
        let rs = secondary.clone();
        proof {
            assert(rp@ =~= primary@);
            assert(rs@ =~= secondary@);
        }
        return (rp, rs);
    }
    let t = threshold;
    let ghost gt = t as int;
    let ghost prim = primary@;
    let ghost sec = secondary@;
    // Precompute every bucket boundary and averaged-range end.
    let mut starts: Vec<usize> = Vec::new();
    let mut ends: Vec<usize> = Vec::new();
    let mut avg_ends: Vec<usize> = Vec::new();
    let mut k: usize = 0;
    while k < t - 2
        invariant
            2 <= t < n == primary.len() == secondary.len() <= MAX_POINTS,
            gt == t as int,
            prim == primary@,
            sec == secondary@,
            0 <= k <= t - 2,
            starts@.len() == k,
            ends@.len() == k,
            avg_ends@.len() == k,
            forall|q: int|
                0 <= q < k ==> #[trigger] starts@[q] == bucket_bound(n as int, gt, q),
            forall|q: int|
                0 <= q < k ==> #[trigger] ends@[q] == bucket_bound(n as int, gt, q + 1),
            forall|q: int|
                0 <= q < k ==> #[trigger] avg_ends@[q] == lttb_sel_ae(prim, gt, q + 1),
        decreases t - 2 - k,
    {
        let lo = bucket_lo(n, t, k);
        let hi = bucket_lo(n, t, k + 1);
        let ae = bucket_lo(n, t, k + 2);
        proof {
            lemma_bucket_bounds(n as int, gt, k as int);
            lemma_bucket_bounds(n as int, gt, k + 1);
        }
        starts.push(lo);
        ends.push(hi);
        avg_ends.push(ae);
        k = k + 1;
    }
    let mut out_p: Vec<i64> = Vec::new();
    let mut out_s: Vec<i64> = Vec::new();
    out_p.push(primary[0]);
    out_s.push(secondary[0]);
    let mut a: usize = 0;
    let mut k: usize = 0;
    while k < t - 2
        invariant
            2 <= t < n == primary.len() == secondary.len() <= MAX_POINTS,
            gt == t as int,
            prim == primary@,
            sec == secondary@,
            forall|i: int| 0 <= i < n ==> -VAL_LIMIT <= #[trigger] prim[i] <= VAL_LIMIT,
            forall|i: int| 0 <= i < n ==> -VAL_LIMIT <= #[trigger] sec[i] <= VAL_LIMIT,
            0 <= k <= t - 2,
            starts@.len() == t - 2,
            ends@.len() == t - 2,
            avg_ends@.len() == t - 2,
            forall|q: int|
                0 <= q < t - 2 ==> #[trigger] starts@[q] == bucket_bound(n as int, gt, q),
            forall|q: int|
                0 <= q < t - 2 ==> #[trigger] ends@[q] == bucket_bound(n as int, gt, q + 1),
            forall|q: int|
                0 <= q < t - 2 ==> #[trigger] avg_ends@[q] == lttb_sel_ae(prim, gt, q + 1),
            a == lttb_sel(prim, sec, gt, k as int),
            a <= n - 2,
            out_p@.len() == k + 1,
            out_s@.len() == k + 1,
            forall|j: int|
                0 <= j <= k ==> #[trigger] out_p@[j] == prim[lttb_index(prim, sec, gt, j)],
            forall|j: int|
                0 <= j <= k ==> #[trigger] out_s@[j] == sec[lttb_index(prim, sec, gt, j)],
        decreases t - 2 - k,
    {
        let lo = starts[k];
        let hi = ends[k];
        let ae = avg_ends[k];
        proof {
            lemma_bucket_bounds(n as int, gt, k as int);
            lemma_bucket_bounds(n as int, gt, k + 1);
            lemma_bucket_bounds(n as int, gt, k + 2);
            assert(lo == bucket_bound(n as int, gt, k as int));
            assert(hi == bucket_bound(n as int, gt, k + 1));
            assert(ae == lttb_sel_ae(prim, gt, k + 1));
            assert(1 <= lo < hi <= n - 1);
            assert(hi < ae <= n);
        }
        let mut sx: i128 = 0;
        let mut sy: i128 = 0;
        let mut i: usize = hi;
        while i < ae
            invariant
                hi <= i <= ae <= n == primary.len() == secondary.len(),
                prim == primary@,
                sec == secondary@,
                forall|ii: int| 0 <= ii < n ==> -VAL_LIMIT <= #[trigger] prim[ii] <= VAL_LIMIT,
                forall|ii: int| 0 <= ii < n ==> -VAL_LIMIT <= #[trigger] sec[ii] <= VAL_LIMIT,
                sx == col_sum(sec, hi as int, i as int),
                sy == col_sum(prim, hi as int, i as int),
                -((i - hi) as int) * (VAL_LIMIT as int) <= sx <= ((i - hi) as int) * (
                VAL_LIMIT as int),
                -((i - hi) as int) * (VAL_LIMIT as int) <= sy <= ((i - hi) as int) * (
                VAL_LIMIT as int),
            decreases ae - i,
        {
            sx = sx + secondary[i] as i128;
            sy = sy + primary[i] as i128;
            i = i + 1;
        }
        let l: i128 = (ae - hi) as i128;
        let ax = secondary[a];
        let ay = primary[a];
        let mut best: usize = lo;
        let mut best_area: i128 = area2l_exec(ax, ay, secondary[lo], primary[lo], sx, sy, l);
        let mut i: usize = lo + 1;
        while i < hi
            invariant
                1 <= lo < i <= hi <= n - 1,
                n == primary.len() == secondary.len() <= MAX_POINTS,
                prim == primary@,
                sec == secondary@,
                forall|ii: int| 0 <= ii < n ==> -VAL_LIMIT <= #[trigger] prim[ii] <= VAL_LIMIT,
                forall|ii: int| 0 <= ii < n ==> -VAL_LIMIT <= #[trigger] sec[ii] <= VAL_LIMIT,
                a <= n - 2,
                ax == sec[a as int],
                ay == prim[a as int],
                1 <= l <= 1_000_000,
                -l * (VAL_LIMIT as int) <= sx <= l * (VAL_LIMIT as int),
                -l * (VAL_LIMIT as int) <= sy <= l * (VAL_LIMIT as int),
                lo <= best < i,
                best == best_in_range(prim, sec, a as int, lo as int, i as int, sx as int,
                    sy as int, l as int),
                best_area == area2l(prim, sec, a as int, best as int, sx as int, sy as int,
                    l as int),
            decreases hi - i,
        {
            let ar = area2l_exec(ax, ay, secondary[i], primary[i], sx, sy, l);
            if ar > best_area {
                best = i;
                best_area = ar;
            }
            i = i + 1;
        }
        out_p.push(primary[best]);
        out_s.push(secondary[best]);
        proof {
            assert(best == lttb_sel(prim, sec, gt, k + 1));
        }
        a = best;
        k = k + 1;
    }
    out_p.push(primary[n - 1]);
    out_s.push(secondary[n - 1]);
    (out_p, out_s)
}


} // verus!

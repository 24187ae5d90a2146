//! ScaleEngine: turn a raw data range into a human-friendly (min, max, step)
//! triple for tick placement.
//!
//! Data values are `i64` micro-units. All intermediate arithmetic is exact:
//! quantities derived from the range are carried as integer numerators over
//! the fixed denominator 10^12 (micro-units have denominator 10^6, and the
//! epsilon nudge divides by a further 10^6). The chosen step is a "nice
//! number" `c * 10^k` with `c` in {1, 1.5, 2, 3, 5, 7.5}; it is stored as the
//! pair (`c10` = 10 * c, `exp` = k - 1), so `step = c10 * 10^exp` units, and
//! the resolved bounds are integer multiples `lo * step` and `hi * step`.

use vstd::prelude::*;
use crate::num::{pow10, floor_div_i128, ceil_div_i128};
use crate::num::{lemma_pow10_pos, lemma_pow10_increases};
use crate::VAL_LIMIT;

verus! {

/// A resolved axis scale: minimum `lo * step`, maximum `hi * step`,
/// step `c10 * 10^exp` units (`c10` is ten times the nice mantissa).
#[derive(Debug, Clone, Copy, PartialEq, Eq, Structural)]
pub struct ScaleResult {
    /// The scale minimum, counted in steps.
    pub lo: i64,
    /// The scale maximum, counted in steps.
    pub hi: i64,
    /// Ten times the step mantissa: 10, 15, 20, 30, 50 or 75.
    pub c10: i64,
    /// Decimal exponent of the step: `step = c10 * 10^exp` units.
    pub exp: i32,
}

impl ScaleResult {
    /// Well-formedness: a canonical nice-number step and a small tick count.
    pub open spec fn wf(self) -> bool {
        &&& (self.c10 == 10 || self.c10 == 15 || self.c10 == 20 || self.c10 == 30
            || self.c10 == 50 || self.c10 == 75)
        &&& -8 <= self.exp <= 8
        &&& self.lo <= 0 <= self.hi
        &&& 1 <= self.hi - self.lo <= 8
        &&& -20_000_000_000_000_000 <= self.lo
        &&& self.hi <= 20_000_000_000_000_000
    }

    /// The step as an integer numerator over the denominator 10^12
    /// (i.e. `step_n() == step_in_units * 10^12`).
    pub open spec fn step_n(self) -> int {
        self.c10 * pow10((self.exp + 12) as nat)
    }

    /// The scale minimum as a numerator over 10^12.
    pub open spec fn min_n(self) -> int {
        self.lo * self.step_n()
    }

    /// The scale maximum as a numerator over 10^12.
    pub open spec fn max_n(self) -> int {
        self.hi * self.step_n()
    }
}

/// Numerator (over 10^12) of the adjusted maximum: a maximum below zero is
/// clamped to zero, otherwise it is nudged up by epsilon = range / 10^6.
pub open spec fn adj_max_n(minm: int, maxm: int) -> int {
    if maxm < 0 {
        0
    } else {
        maxm * 1_000_000 + (maxm - minm)
    }
}

/// Numerator (over 10^12) of the adjusted minimum: a minimum above zero is
/// clamped to zero, otherwise it is nudged down by epsilon = range / 10^6.
pub open spec fn adj_min_n(minm: int, maxm: int) -> int {
    if minm > 0 {
        0
    } else {
        minm * 1_000_000 - (maxm - minm)
    }
}

/// The ladder element directly below `c10 * 10^exp`, as a numerator over
/// 10^12. The ladder is ..., 7.5, 1, 1.5, 2, 3, 5, 7.5, 10, ... times powers
/// of ten.
pub open spec fn prev_step_n(c10: int, exp: int) -> int {
    if c10 == 10 {
        75 * pow10((exp + 11) as nat)
    } else if c10 == 15 {
        10 * pow10((exp + 12) as nat)
    } else if c10 == 20 {
        15 * pow10((exp + 12) as nat)
    } else if c10 == 30 {
        20 * pow10((exp + 12) as nat)
    } else if c10 == 50 {
        30 * pow10((exp + 12) as nat)
    } else {
        50 * pow10((exp + 12) as nat)
    }
}

/// Full characterization of the scale algorithm on the adjusted range
/// `[adj_min, adj_max]` (numerators `nn`, `xn` over 10^12):
/// the step is the smallest ladder element at least a sixth of the range
/// (about six ticks), the bounds are the range rounded outward to step
/// multiples, and a zero-width range at the origin expands symmetrically by
/// a nominal step of one unit.
pub open spec fn scale_post(minm: int, maxm: int, r: ScaleResult) -> bool {
    let xn = adj_max_n(minm, maxm);
    let nn = adj_min_n(minm, maxm);
    &&& r.wf()
    &&& if xn == nn {
        r == (ScaleResult { lo: -1i64, hi: 1i64, c10: 10i64, exp: -1i32 })
    } else {
        &&& 6 * r.step_n() >= xn - nn
        &&& 6 * prev_step_n(r.c10 as int, r.exp as int) < xn - nn
        &&& r.lo * r.step_n() <= nn < (r.lo + 1) * r.step_n()
        &&& (r.hi - 1) * r.step_n() < xn <= r.hi * r.step_n()
    }
}

/// Pick axis bounds and a tick step that read well to a human.
///
/// The adjusted range always includes zero when the data is one-signed, the
/// target is about six ticks, and the step is snapped up to the next nice
/// number 1, 1.5, 2, 3, 5 or 7.5 times a power of ten.
pub fn get_scale_details(min_micro: i64, max_micro: i64) -> (r: ScaleResult)
    requires
        -VAL_LIMIT <= min_micro <= max_micro <= VAL_LIMIT,
    ensures
        scale_post(min_micro as int, max_micro as int, r),
{
    let range: i128 = max_micro as i128 - min_micro as i128;
    let xn: i128 = if max_micro < 0 {
        0
    } else {
        max_micro as i128 * 1_000_000 + range
    };
    let nn: i128 = if min_micro > 0 {
        0
    } else {
        min_micro as i128 * 1_000_000 - range
    };
    let total: i128 = xn - nn;
    if total == 0 {
        return ScaleResult { lo: -1, hi: 1, c10: 10, exp: -1 };
    }
    proof {
        reveal_with_fuel(pow10, 6);
        assert(total >= 1_000_000);
        assert(total <= 3_000_000_000_000_000_000_000);
    }
    let mut c10: i64 = 10;
    let mut exp: i32 = -8;
    let mut pow: i128 = 10_000;
    let mut s: i128 = 100_000;
    while 6 * s < total
        invariant
            c10 == 10 || c10 == 15 || c10 == 20 || c10 == 30 || c10 == 50 || c10 == 75,
            -8 <= exp <= 8,
            pow == pow10((exp + 12) as nat),
            pow >= 10_000,
            s == c10 * pow,
            6 * prev_step_n(c10 as int, exp as int) < total,
            1_000_000 <= total <= 3_000_000_000_000_000_000_000,
            s <= total,
        decreases total - s,
    {
        let ghost old_s = s as int;
        let ghost old_pow = pow as int;
        if c10 == 10 {
            c10 = 15;
        } else if c10 == 15 {
            c10 = 20;
        } else if c10 == 20 {
            c10 = 30;
        } else if c10 == 30 {
            c10 = 50;
        } else if c10 == 50 {
            c10 = 75;
        } else {
            proof {
                // 6 * 75 * pow < total bounds pow, which bounds exp.
                if exp + 12 >= 19 {
                    lemma_pow10_increases(19, (exp + 12) as nat);
                    reveal_with_fuel(pow10, 20);
                }
            }
            c10 = 10;
            exp = exp + 1;
            pow = pow * 10;
        }
        s = c10 as i128 * pow;
        proof {
            assert(pow10((exp + 12) as nat) == old_pow || pow10((exp + 12) as nat) == 10
                * old_pow);
        }
    }
    let lo128 = floor_div_i128(nn, s);
    let hi128 = ceil_div_i128(xn, s);
    proof {
        // Bound lo and hi so they fit comfortably in an i64.
        if lo128 + 1 <= 0 {
            assert((lo128 + 1) * s <= (lo128 + 1) * 100_000) by (nonlinear_arith)
                requires
                    s >= 100_000,
                    lo128 + 1 <= 0,
            ;
        }
        assert(lo128 * s <= nn && nn <= 0 ==> lo128 <= 0) by (nonlinear_arith)
            requires
                s >= 1,
                lo128 * s <= nn,
        ;
        if hi128 - 1 >= 0 {
            assert((hi128 - 1) * s >= (hi128 - 1) * 100_000) by (nonlinear_arith)
                requires
                    s >= 100_000,
                    hi128 - 1 >= 0,
            ;
        }
        assert(hi128 * s >= xn && xn >= 0 ==> hi128 >= 0) by (nonlinear_arith)
            requires
                s >= 1,
                hi128 * s >= xn,
        ;
        // The extent spans at most seven and at least one step.
        assert((hi128 - 1) * s - (lo128 + 1) * s == (hi128 - lo128 - 2) * s)
            by (nonlinear_arith);
        assert((hi128 - lo128 - 2) * s < 6 * s ==> hi128 - lo128 - 2 < 6) by (nonlinear_arith)
            requires
                s >= 1,
        ;
        assert(hi128 * s >= xn && lo128 * s <= nn && xn > nn ==> hi128 > lo128)
            by (nonlinear_arith)
            requires
                s >= 1,
        ;
    }
    ScaleResult { lo: lo128 as i64, hi: hi128 as i64, c10, exp }
}

/// Law: for every `min <= max` the resolved scale brackets the adjusted
/// range (and so the raw range), its step is positive, and its extent is an
/// integer multiple of the step. All quantities are numerators over 10^12.
pub proof fn lemma_scale_contains_range(minm: int, maxm: int, r: ScaleResult)
    requires
        minm <= maxm,
        scale_post(minm, maxm, r),
    ensures
        r.step_n() > 0,
        r.min_n() <= adj_min_n(minm, maxm) <= minm * 1_000_000,
        maxm * 1_000_000 <= adj_max_n(minm, maxm) <= r.max_n(),
        r.max_n() - r.min_n() == (r.hi - r.lo) * r.step_n(),
{
    lemma_pow10_pos((r.exp + 12) as nat);
    let s = r.step_n();
    assert(s > 0) by (nonlinear_arith)
        requires
            r.c10 >= 10,
            pow10((r.exp + 12) as nat) >= 1,
            s == r.c10 * pow10((r.exp + 12) as nat),
    ;
    assert(r.hi * s - r.lo * s == (r.hi - r.lo) * s) by (nonlinear_arith);
    let xn = adj_max_n(minm, maxm);
    let nn = adj_min_n(minm, maxm);
    if xn == nn {
        assert(pow10(11) == 100_000_000_000) by {
            reveal_with_fuel(pow10, 13);
        }
        assert(r.step_n() == 10 * 100_000_000_000);
        assert(r.min_n() == -1 * 1_000_000_000_000);
        assert(r.max_n() == 1 * 1_000_000_000_000);
    }
}

/// The step in micro-units, when it is representable there (the step can be
/// as small as 10^-7 of a unit, below micro resolution).
impl ScaleResult {
    pub fn step_micro(&self) -> (r: Option<i64>)
        requires
            self.wf(),
        ensures
            match r {
                Some(m) => m * 1_000_000 == self.step_n() && 1 <= m <= 7_500_000_000_000_000,
                None => self.exp < -6,
            },
    {
        if self.exp >= -6 {
            let e: u32 = (self.exp + 6) as u32;
            let p = crate::num::pow10_i128(e);
            proof {
                lemma_pow10_increases((self.exp + 6) as nat, 14);
                lemma_pow10_pos((self.exp + 6) as nat);
                assert(pow10(14) == 100_000_000_000_000) by {
                    reveal_with_fuel(pow10, 16);
                }
                assert(1 <= self.c10 * p <= 75 * 100_000_000_000_000) by (nonlinear_arith)
                    requires
                        10 <= self.c10 <= 75,
                        1 <= p <= 100_000_000_000_000,
                ;
            }
            let m: i128 = self.c10 as i128 * p;
            proof {
                crate::num::lemma_pow10_adds((self.exp + 6) as nat, 6);
                assert(pow10(6) == 1_000_000) by {
                    reveal_with_fuel(pow10, 8);
                }
                assert((self.c10 * pow10((self.exp + 6) as nat)) * 1_000_000 == self.c10 * (
                pow10((self.exp + 6) as nat) * 1_000_000)) by (nonlinear_arith);
            }
            Some(m as i64)
        } else {
            None
        }
    }

    /// The scale minimum in micro-units; `None` only for sub-micro steps.
    pub fn min_micro(&self) -> (r: Option<i64>)
        requires
            self.wf(),
            -1_000_000_000_000_000_000_000_000 <= self.min_n()
                <= 1_000_000_000_000_000_000_000_000,
    ensures
            match r {
                Some(m) => m * 1_000_000 == self.min_n(),
                None => self.exp < -6,
            },
    {
        match self.step_micro() {
            Some(sm) => {
                proof {
                    assert(-200_000_000_000_000_000_000_000_000_000_000 <= self.lo * (
                    sm as int) <= 200_000_000_000_000_000_000_000_000_000_000)
                        by (nonlinear_arith)
                        requires
                            -20_000_000_000_000_000 <= self.lo <= 20_000_000_000_000_000,
                            1 <= sm as int <= 7_500_000_000_000_000,
                    ;
                    assert((self.lo * (sm as int)) * 1_000_000 == self.lo * ((sm as int)
                        * 1_000_000)) by (nonlinear_arith);
                }
                let v: i128 = self.lo as i128 * sm as i128;
                Some(v as i64)
            },
            None => None,
        }
    }

    /// The scale maximum in micro-units; `None` only for sub-micro steps.
    pub fn max_micro(&self) -> (r: Option<i64>)
        requires
            self.wf(),
            -1_000_000_000_000_000_000_000_000 <= self.max_n()
                <= 1_000_000_000_000_000_000_000_000,
    ensures
            match r {
                Some(m) => m * 1_000_000 == self.max_n(),
                None => self.exp < -6,
            },
    {
        match self.step_micro() {
            Some(sm) => {
                proof {
                    assert(-200_000_000_000_000_000_000_000_000_000_000 <= self.hi * (
                    sm as int) <= 200_000_000_000_000_000_000_000_000_000_000)
                        by (nonlinear_arith)
                        requires
                            -20_000_000_000_000_000 <= self.hi <= 20_000_000_000_000_000,
                            1 <= sm as int <= 7_500_000_000_000_000,
                    ;
                    assert((self.hi * (sm as int)) * 1_000_000 == self.hi * ((sm as int)
                        * 1_000_000)) by (nonlinear_arith);
                }
                let v: i128 = self.hi as i128 * sm as i128;
                Some(v as i64)
            },
            None => None,
        }
    }
}

/// The least element of a non-empty sequence.
pub open spec fn seq_min(s: Seq<i64>) -> int
    decreases s.len(),
{
    if s.len() <= 1 {
        s[0] as int
    } else {
        let m = seq_min(s.drop_last());
        if s.last() < m {
            s.last() as int
        } else {
            m
        }
    }
}

/// The greatest element of a non-empty sequence.
pub open spec fn seq_max(s: Seq<i64>) -> int
    decreases s.len(),
{
    if s.len() <= 1 {
        s[0] as int
    } else {
        let m = seq_max(s.drop_last());
        if s.last() > m {
            s.last() as int
        } else {
            m
        }
    }
}

pub proof fn lemma_seq_min_max(s: Seq<i64>)
    requires
        s.len() > 0,
    ensures
        forall|i: int| 0 <= i < s.len() ==> seq_min(s) <= #[trigger] s[i] <= seq_max(s),
        exists|i: int| 0 <= i < s.len() && s[i] == seq_min(s),
        exists|i: int| 0 <= i < s.len() && s[i] == seq_max(s),
    decreases s.len(),
{
    if s.len() > 1 {
        lemma_seq_min_max(s.drop_last());
        assert forall|i: int| 0 <= i < s.len() implies seq_min(s) <= #[trigger] s[i] <= seq_max(s) by {
            if i < s.len() - 1 {
                assert(s.drop_last()[i] == s[i]);
            }
        }
        let j = choose|j: int| 0 <= j < s.drop_last().len() && s.drop_last()[j] == seq_min(
            s.drop_last());
        let k = choose|k: int| 0 <= k < s.drop_last().len() && s.drop_last()[k] == seq_max(
            s.drop_last());
        if s.last() < seq_min(s.drop_last()) {
            assert(s[s.len() - 1] == seq_min(s));
        } else {
            assert(s[j] == seq_min(s));
        }
        if s.last() > seq_max(s.drop_last()) {
            assert(s[s.len() - 1] == seq_max(s));
        } else {
            assert(s[k] == seq_max(s));
        }
    } else {
        assert(s[0] == seq_min(s));
        assert(s[0] == seq_max(s));
    }
}

/// Component-wise minimum and maximum of a non-empty data column.
pub fn get_raw_range(data: &Vec<i64>) -> (r: (i64, i64))
    requires
        data.len() > 0,
    ensures
        r.0 == seq_min(data@),
        r.1 == seq_max(data@),
{
    let mut mn: i64 = data[0];
    let mut mx: i64 = data[0];
    let mut i: usize = 1;
    proof {
        assert(data@.take(1).len() == 1);
        assert(data@.take(1)[0] == data@[0]);
    }
    while i < data.len()
        invariant
            1 <= i <= data.len(),
            mn == seq_min(data@.take(i as int)),
            mx == seq_max(data@.take(i as int)),
        decreases data.len() - i,
    {
        let v = data[i];
        proof {
            let t = data@.take(i + 1);
            assert(t.drop_last() =~= data@.take(i as int));
            assert(t.last() == data@[i as int]);
        }
        if v < mn {
            mn = v;
        }
        if v > mx {
            mx = v;
        }
        i = i + 1;
    }
    proof {
        assert(data@.take(data.len() as int) =~= data@);
    }
    (mn, mx)
}

/// Scan a data column for its raw range and resolve the nice scale for it.
pub fn calculate_axis_ticks(data: &Vec<i64>) -> (r: ScaleResult)
    requires
        data.len() > 0,
        forall|i: int| 0 <= i < data.len() ==> -VAL_LIMIT <= #[trigger] data[i] <= VAL_LIMIT,
    ensures
        scale_post(seq_min(data@), seq_max(data@), r),
{
    let (mn, mx) = get_raw_range(data);
    proof {
        lemma_seq_min_max(data@);
    }
    get_scale_details(mn, mx)
}


/// The value of a ladder element.
pub open spec fn ladder_n(c10: int, exp: int) -> int {
    c10 * pow10((exp + 12) as nat)
}

pub open spec fn ladder_ok(c10: int, exp: int) -> bool {
    (c10 == 10 || c10 == 15 || c10 == 20 || c10 == 30 || c10 == 50 || c10 == 75) && -8 <= exp
        <= 8
}

/// Two canonical ladder elements with one value are the same element.
proof fn lemma_ladder_value_unique(c1: int, e1: int, c2: int, e2: int)
    requires
        ladder_ok(c1, e1),
        ladder_ok(c2, e2),
        ladder_n(c1, e1) == ladder_n(c2, e2),
    ensures
        c1 == c2 && e1 == e2,
{
    lemma_pow10_pos((e1 + 12) as nat);
    lemma_pow10_pos((e2 + 12) as nat);
    if e1 == e2 {
        assert(c1 == c2) by (nonlinear_arith)
            requires
                c1 * pow10((e1 + 12) as nat) == c2 * pow10((e2 + 12) as nat),
                pow10((e1 + 12) as nat) == pow10((e2 + 12) as nat),
                pow10((e1 + 12) as nat) >= 1,
        ;
    } else if e1 < e2 {
        crate::num::lemma_pow10_adds((e1 + 12) as nat, (e2 - e1) as nat);
        lemma_pow10_increases(1, (e2 - e1) as nat);
        reveal_with_fuel(pow10, 3);
        assert(c1 == c2 * pow10((e2 - e1) as nat)) by (nonlinear_arith)
            requires
                c1 * pow10((e1 + 12) as nat) == c2 * (pow10((e1 + 12) as nat) * pow10(
                    (e2 - e1) as nat,
                )),
                pow10((e1 + 12) as nat) >= 1,
        ;
        assert(c1 >= c2 * 10) by (nonlinear_arith)
            requires
                c1 == c2 * pow10((e2 - e1) as nat),
                pow10((e2 - e1) as nat) >= 10,
                c2 >= 10,
        ;
        assert(false);
    } else {
        crate::num::lemma_pow10_adds((e2 + 12) as nat, (e1 - e2) as nat);
        lemma_pow10_increases(1, (e1 - e2) as nat);
        reveal_with_fuel(pow10, 3);
        assert(c2 == c1 * pow10((e1 - e2) as nat)) by (nonlinear_arith)
            requires
                c2 * pow10((e2 + 12) as nat) == c1 * (pow10((e2 + 12) as nat) * pow10(
                    (e1 - e2) as nat,
                )),
                pow10((e2 + 12) as nat) >= 1,
        ;
        assert(c2 >= c1 * 10) by (nonlinear_arith)
            requires
                c2 == c1 * pow10((e1 - e2) as nat),
                pow10((e1 - e2) as nat) >= 10,
                c1 >= 10,
        ;
        assert(false);
    }
}

/// A ladder element below another is at most the other's predecessor.
proof fn lemma_ladder_below(c1: int, e1: int, c2: int, e2: int)
    requires
        ladder_ok(c1, e1),
        ladder_ok(c2, e2),
        ladder_n(c1, e1) < ladder_n(c2, e2),
    ensures
        ladder_n(c1, e1) <= prev_step_n(c2, e2),
{
    lemma_pow10_pos((e1 + 12) as nat);
    lemma_pow10_pos((e2 + 12) as nat);
    lemma_pow10_pos((e2 + 11) as nat);
    if e1 == e2 {
        assert(c1 < c2) by (nonlinear_arith)
            requires
                c1 * pow10((e1 + 12) as nat) < c2 * pow10((e2 + 12) as nat),
                pow10((e1 + 12) as nat) == pow10((e2 + 12) as nat),
                pow10((e1 + 12) as nat) >= 1,
        ;
        if c2 == 10 {
            assert(false);
        } else {
            // within one decade the predecessor mantissa bounds c1
            let pc = if c2 == 15 {
                10int
            } else if c2 == 20 {
                15int
            } else if c2 == 30 {
                20int
            } else if c2 == 50 {
                30int
            } else {
                50int
            };
            assert(c1 <= pc);
            assert(c1 * pow10((e1 + 12) as nat) <= pc * pow10((e2 + 12) as nat))
                by (nonlinear_arith)
                requires
                    c1 <= pc,
                    pow10((e1 + 12) as nat) == pow10((e2 + 12) as nat),
                    pow10((e1 + 12) as nat) >= 1,
            ;
        }
    } else if e1 < e2 {
        // v1 <= 75 * 10^(e1+12) <= 75 * 10^(e2+11) = prev of (10, e2), and
        // every other predecessor is at least 10 * 10^(e2+12).
        lemma_pow10_increases((e1 + 12) as nat, (e2 + 11) as nat);
        assert(c1 * pow10((e1 + 12) as nat) <= 75 * pow10((e2 + 11) as nat))
            by (nonlinear_arith)
            requires
                c1 <= 75,
                pow10((e1 + 12) as nat) <= pow10((e2 + 11) as nat),
                pow10((e1 + 12) as nat) >= 1,
                pow10((e2 + 11) as nat) >= 1,
        ;
        if c2 != 10 {
            crate::num::lemma_pow10_adds((e2 + 11) as nat, 1);
            reveal_with_fuel(pow10, 2);
            assert(pow10((e2 + 12) as nat) == pow10((e2 + 11) as nat) * 10);
            assert(10 * pow10((e2 + 12) as nat) >= 100 * pow10((e2 + 11) as nat))
                by (nonlinear_arith)
                requires
                    pow10((e2 + 12) as nat) == pow10((e2 + 11) as nat) * 10,
                    pow10((e2 + 11) as nat) >= 1,
            ;
        }
    } else {
        // e1 > e2 makes v1 at least a full decade above v2: impossible.
        crate::num::lemma_pow10_adds((e2 + 12) as nat, (e1 - e2) as nat);
        lemma_pow10_increases(1, (e1 - e2) as nat);
        reveal_with_fuel(pow10, 3);
        assert(c1 * pow10((e1 + 12) as nat) >= 10 * (pow10((e2 + 12) as nat) * 10))
            by (nonlinear_arith)
            requires
                c1 >= 10,
                pow10((e1 + 12) as nat) == pow10((e2 + 12) as nat) * pow10((e1 - e2) as nat),
                pow10((e1 - e2) as nat) >= 10,
                pow10((e2 + 12) as nat) >= 1,
        ;
        assert(c2 * pow10((e2 + 12) as nat) <= 75 * pow10((e2 + 12) as nat))
            by (nonlinear_arith)
            requires
                c2 <= 75,
                pow10((e2 + 12) as nat) >= 1,
        ;
        assert(false);
    }
}

/// Law: the scale contract is deterministic — any two results that satisfy
/// it for one input range are equal.
pub proof fn lemma_scale_post_unique(minm: int, maxm: int, r1: ScaleResult, r2: ScaleResult)
    requires
        scale_post(minm, maxm, r1),
        scale_post(minm, maxm, r2),
    ensures
        r1 == r2,
{
    let xn = adj_max_n(minm, maxm);
    let nn = adj_min_n(minm, maxm);
    if xn != nn {
        let s1 = r1.step_n();
        let s2 = r2.step_n();
        if s1 < s2 {
            lemma_ladder_below(r1.c10 as int, r1.exp as int, r2.c10 as int, r2.exp as int);
        } else if s2 < s1 {
            lemma_ladder_below(r2.c10 as int, r2.exp as int, r1.c10 as int, r1.exp as int);
        }
        assert(s1 == s2);
        lemma_ladder_value_unique(r1.c10 as int, r1.exp as int, r2.c10 as int, r2.exp as int);
        assert(r1.lo == r2.lo) by (nonlinear_arith)
            requires
                r1.lo * s1 <= nn < (r1.lo + 1) * s1,
                r2.lo * s1 <= nn < (r2.lo + 1) * s1,
                s1 >= 1,
        ;
        assert(r1.hi == r2.hi) by (nonlinear_arith)
            requires
                (r1.hi - 1) * s1 < xn <= r1.hi * s1,
                (r2.hi - 1) * s1 < xn <= r2.hi * s1,
                s1 >= 1,
        ;
    }
}

/// The one scale the contract admits for a range.
pub open spec fn the_scale(minm: int, maxm: int) -> ScaleResult {
    choose|r: ScaleResult| scale_post(minm, maxm, r)
}

/// Any result satisfying the contract is `the_scale` of its range.
pub proof fn lemma_the_scale(minm: int, maxm: int, r: ScaleResult)
    requires
        scale_post(minm, maxm, r),
    ensures
        the_scale(minm, maxm) == r,
{
    assert(scale_post(minm, maxm, the_scale(minm, maxm)));
    lemma_scale_post_unique(minm, maxm, the_scale(minm, maxm), r);
}

/// Every scale the engine resolves is moderate in magnitude, covers its
/// whole input range, and is strictly increasing; this is what the
/// projector needs of it.
pub proof fn lemma_scale_helper_facts(minm: int, maxm: int, r: ScaleResult)
    requires
        scale_post(minm, maxm, r),
        -VAL_LIMIT <= minm <= maxm <= VAL_LIMIT,
    ensures
        r.min_n() < r.max_n(),
        -10_000_000_000_000_000_000_000 <= r.min_n(),
        r.max_n() <= 10_000_000_000_000_000_000_000,
        forall|v: int| minm <= v <= maxm ==> #[trigger] scale_covers_v(r, v),
{
    lemma_pow10_pos((r.exp + 12) as nat);
    lemma_pow10_pos((r.exp + 11) as nat);
    let xn = adj_max_n(minm, maxm);
    let nn = adj_min_n(minm, maxm);
    let s = r.step_n();
    assert(s >= 10) by (nonlinear_arith)
        requires
            r.c10 >= 10,
            pow10((r.exp + 12) as nat) >= 1,
            s == r.c10 * pow10((r.exp + 12) as nat),
    ;
    if xn == nn {
        reveal_with_fuel(pow10, 13);
        assert(r.min_n() == -1 * 1_000_000_000_000);
        assert(r.max_n() == 1 * 1_000_000_000_000);
        assert forall|v: int| minm <= v <= maxm implies #[trigger] scale_covers_v(r, v) by {
            assert(minm == 0 && maxm == 0);
        }
    } else {
        // The chosen step is at most 5/3 of its predecessor, and six
        // predecessors do not cover the range, so the step is below the
        // range numerator; the resolved bounds overshoot the adjusted range
        // by less than one step each.
        let p = prev_step_n(r.c10 as int, r.exp as int);
        crate::num::lemma_pow10_adds((r.exp + 11) as nat, 1);
        reveal_with_fuel(pow10, 2);
        assert(3 * s <= 5 * p) by (nonlinear_arith)
            requires
                s == r.c10 * pow10((r.exp + 12) as nat),
                pow10((r.exp + 12) as nat) == pow10((r.exp + 11) as nat) * 10,
                pow10((r.exp + 11) as nat) >= 1,
                p == prev_step_n(r.c10 as int, r.exp as int),
                r.c10 == 10 || r.c10 == 15 || r.c10 == 20 || r.c10 == 30 || r.c10 == 50
                    || r.c10 == 75,
                (r.c10 == 10 ==> p == 75 * pow10((r.exp + 11) as nat)) && (r.c10 == 15 ==> p
                    == 10 * pow10((r.exp + 12) as nat)) && (r.c10 == 20 ==> p == 15 * pow10(
                    (r.exp + 12) as nat,
                )) && (r.c10 == 30 ==> p == 20 * pow10((r.exp + 12) as nat)) && (r.c10 == 50
                    ==> p == 30 * pow10((r.exp + 12) as nat)) && (r.c10 == 75 ==> p == 50
                    * pow10((r.exp + 12) as nat)),
        ;
        assert(18 * s <= 30 * p);
        assert(30 * p < 5 * (xn - nn));
        assert(xn - nn <= 4_100_000_000_000_000_000_000);
        assert((r.lo + 1) * s == r.lo * s + s && (r.hi - 1) * s == r.hi * s - s)
            by (nonlinear_arith);
        assert(r.min_n() <= nn && nn < r.min_n() + s) by (nonlinear_arith)
            requires
                r.lo * s <= nn < (r.lo + 1) * s,
                r.min_n() == r.lo * s,
                (r.lo + 1) * s == r.lo * s + s,
        ;
        assert(r.max_n() - s < xn && xn <= r.max_n()) by (nonlinear_arith)
            requires
                (r.hi - 1) * s < xn <= r.hi * s,
                r.max_n() == r.hi * s,
                (r.hi - 1) * s == r.hi * s - s,
        ;
        assert forall|v: int| minm <= v <= maxm implies #[trigger] scale_covers_v(r, v) by {
            assert(nn <= minm * 1_000_000);
            assert(maxm * 1_000_000 <= xn);
            assert(minm * 1_000_000 <= v * 1_000_000 <= maxm * 1_000_000);
        }
    }
}

/// Twin of the projector-side coverage predicate, stated here so scale
/// lemmas need not import the axis module.
pub open spec fn scale_covers_v(sc: ScaleResult, v: int) -> bool {
    sc.min_n() <= v * 1_000_000 <= sc.max_n()
}

} // verus!

//! Exact integer arithmetic helpers for the fixed-point number model.
//!
//! Every quantity in this crate is a count of micro-units (`MICRO` per unit).
//! Intermediate computations widen to `i128` and use the floor / ceiling
//! divisions below, so no rounding happens anywhere except where a contract
//! says so explicitly.

use vstd::prelude::*;
use vstd::arithmetic::div_mod::lemma_fundamental_div_mod;
use vstd::arithmetic::div_mod::lemma_mod_bound;

verus! {

/// 10^e as a mathematical integer.
pub open spec fn pow10(e: nat) -> int
    decreases e,
{
    if e == 0 {
        1
    } else {
        10 * pow10((e - 1) as nat)
    }
}

pub proof fn lemma_pow10_pos(e: nat)
    ensures
        pow10(e) >= 1,
    decreases e,
{
    if e > 0 {
        lemma_pow10_pos((e - 1) as nat);
    }
}

pub proof fn lemma_pow10_adds(a: nat, b: nat)
    ensures
        pow10(a + b) == pow10(a) * pow10(b),
    decreases a,
{
    if a == 0 {
    } else {
        lemma_pow10_adds((a - 1) as nat, b);
        assert(pow10(a + b) == 10 * pow10((a + b - 1) as nat));
        assert(10 * (pow10((a - 1) as nat) * pow10(b)) == (10 * pow10((a - 1) as nat)) * pow10(b))
            by (nonlinear_arith);
    }
}

pub proof fn lemma_pow10_increases(a: nat, b: nat)
    requires
        a <= b,
    ensures
        pow10(a) <= pow10(b),
    decreases b,
{
    if a < b {
        lemma_pow10_increases(a, (b - 1) as nat);
        lemma_pow10_pos((b - 1) as nat);
    }
}

/// 10^e computed exactly in an `i128`.
pub fn pow10_i128(e: u32) -> (r: i128)
    requires
        e <= 37,
    ensures
        r == pow10(e as nat),
{
    proof {
        lemma_pow10_increases(e as nat, 37);
        reveal_with_fuel(pow10, 40);
        assert(pow10(37) < i128::MAX);
    }
    let mut r: i128 = 1;
    let mut i: u32 = 0;
    while i < e
        invariant
            i <= e <= 37,
            r == pow10(i as nat),
            pow10(e as nat) < i128::MAX,
        decreases e - i,
    {
        proof {
            lemma_pow10_increases((i + 1) as nat, e as nat);
            lemma_pow10_pos(i as nat);
        }
        r = r * 10;
        i = i + 1;
    }
    r
}

/// Floor division: the unique `q` with `q * b <= a < (q + 1) * b`.
pub fn floor_div_i128(a: i128, b: i128) -> (q: i128)
    requires
        b > 0,
        a > i128::MIN,
    ensures
        q * b <= a < (q + 1) * b,
{
    if a >= 0 {
        let ua: u128 = a as u128;
        let ub: u128 = b as u128;
        let uq: u128 = ua / ub;
        proof {
            lemma_fundamental_div_mod(ua as int, ub as int);
            lemma_mod_bound(ua as int, ub as int);
            let uai = ua as int;
            let ubi = ub as int;
            let uqi = uq as int;
            let rem = uai % ubi;
            assert(uqi * ubi <= uai && uai < (uqi + 1) * ubi && uqi * ubi >= uqi)
                by (nonlinear_arith)
                requires
                    uai == ubi * uqi + rem,
                    0 <= rem < ubi,
                    uqi >= 0,
                    ubi >= 1,
            ;
        }
        uq as i128
    } else {
        let m: u128 = (-a) as u128;
        let ub: u128 = b as u128;
        let uq: u128 = m / ub;
        let rem: u128 = m % ub;
        proof {
            lemma_fundamental_div_mod(m as int, ub as int);
            lemma_mod_bound(m as int, ub as int);
            let mi = m as int;
            let ubi = ub as int;
            let uqi = uq as int;
            let remi = rem as int;
            assert(uqi * ubi >= uqi && (-uqi) * ubi == -(uqi * ubi) && ((-uqi) + 1) * ubi
                == -(uqi * ubi) + ubi && ((-uqi) - 1) * ubi == -(uqi * ubi) - ubi && uqi * ubi
                + remi == mi) by (nonlinear_arith)
                requires
                    mi == ubi * uqi + remi,
                    0 <= remi < ubi,
                    uqi >= 0,
                    ubi >= 1,
            ;
        }
        if rem == 0 {
            -(uq as i128)
        } else {
            -(uq as i128) - 1
        }
    }
}

/// Ceiling division: the unique `q` with `(q - 1) * b < a <= q * b`.
pub fn ceil_div_i128(a: i128, b: i128) -> (q: i128)
    requires
        b > 0,
        i128::MIN < a < i128::MAX,
    ensures
        (q - 1) * b < a <= q * b,
{
    let f = floor_div_i128(-a, b);
    proof {
        let fi = f as int;
        let bi = b as int;
        assert((-fi) * bi == -(fi * bi) && ((-fi) - 1) * bi == -((fi + 1) * bi))
            by (nonlinear_arith);
        if f + 1 <= 0 {
            assert((fi + 1) * bi <= fi + 1) by (nonlinear_arith)
                requires
                    bi >= 1,
                    fi + 1 <= 0,
            ;
        } else {
            assert(fi * bi >= fi) by (nonlinear_arith)
                requires
                    bi >= 1,
                    fi >= 0,
            ;
        }
    }
    -f
}

} // verus!

//! Plain decimal formatting of scaled integers: the text of a value-axis
//! label is `m * 10^e` written the way a human writes a number, with no
//! exponent, no trailing fractional zeros, and a leading zero before a bare
//! fraction.

use vstd::prelude::*;
use vstd::string::StringExecFns;
use crate::num::pow10;
use crate::num::lemma_pow10_increases;
use vstd::arithmetic::div_mod::{lemma_fundamental_div_mod, lemma_mod_bound};

verus! {

pub open spec fn digit_char(d: int) -> char {
    if d == 0 {
        '0'
    } else if d == 1 {
        '1'
    } else if d == 2 {
        '2'
    } else if d == 3 {
        '3'
    } else if d == 4 {
        '4'
    } else if d == 5 {
        '5'
    } else if d == 6 {
        '6'
    } else if d == 7 {
        '7'
    } else if d == 8 {
        '8'
    } else {
        '9'
    }
}

/// The decimal digits of `n`, most significant first.
pub open spec fn dec_digits(n: nat) -> Seq<char>
    decreases n,
{
    if n < 10 {
        seq![digit_char(n as int)]
    } else {
        dec_digits(n / 10) + seq![digit_char((n % 10) as int)]
    }
}

/// The decimal digits of `n` padded with leading zeros to exactly `k`
/// digits (defined for `n < 10^k`).
pub open spec fn padded_digits(n: nat, k: nat) -> Seq<char>
    decreases k,
{
    if k <= 1 {
        seq![digit_char((n % 10) as int)]
    } else {
        padded_digits(n / 10, (k - 1) as nat) + seq![digit_char((n % 10) as int)]
    }
}

/// Strip factors of ten from the mantissa into the exponent while the value
/// still has fractional digits.
pub open spec fn fmt_reduce(m: nat, e: int) -> (nat, int)
    decreases -e,
{
    if e < 0 && m > 0 && m % 10 == 0 {
        fmt_reduce(m / 10, e + 1)
    } else {
        (m, e)
    }
}

/// How a positive value `m * 10^e` reads in plain decimal.
pub open spec fn fmt_mag(m: nat, e: int) -> Seq<char> {
    let (m2, e2) = fmt_reduce(m, e);
    if e2 >= 0 {
        dec_digits(m2) + Seq::new(e2 as nat, |i: int| '0')
    } else {
        let k = (-e2) as nat;
        dec_digits(m2 / (pow10(k) as nat)) + seq!['.'] + padded_digits(
            m2 % (pow10(k) as nat),
            k,
        )
    }
}

/// How `m * 10^e` reads in plain decimal.
pub open spec fn fmt_value(m: int, e: int) -> Seq<char> {
    if m == 0 {
        seq!['0']
    } else if m < 0 {
        seq!['-'] + fmt_mag((-m) as nat, e)
    } else {
        fmt_mag(m as nat, e)
    }
}

/// One decimal digit as a string slice.
fn digit_str(d: u64) -> (r: &'static str)
    requires
        d < 10,
    ensures
        r@ =~= seq![digit_char(d as int)],
{
    let s: &'static str = if d == 0 {
        "0"
    } else if d == 1 {
        "1"
    } else if d == 2 {
        "2"
    } else if d == 3 {
        "3"
    } else if d == 4 {
        "4"
    } else if d == 5 {
        "5"
    } else if d == 6 {
        "6"
    } else if d == 7 {
        "7"
    } else if d == 8 {
        "8"
    } else {
        "9"
    };
    proof {
        reveal_strlit("0");
        reveal_strlit("1");
        reveal_strlit("2");
        reveal_strlit("3");
        reveal_strlit("4");
        reveal_strlit("5");
        reveal_strlit("6");
        reveal_strlit("7");
        reveal_strlit("8");
        reveal_strlit("9");
    }
    s
}

/// Append the decimal digits of `n`.
fn push_digits(s: &mut String, n: u64)
    ensures
        final(s)@ == old(s)@ + dec_digits(n as nat),
    decreases n,
{
    if n >= 10 {
        push_digits(s, n / 10);
    }
    s.append(digit_str(n % 10));
    proof {
        if n < 10 {
            assert(n % 10 == n) by (nonlinear_arith)
                requires
                    0 <= n < 10,
            ;
            assert(s@ =~= old(s)@ + dec_digits(n as nat));
        } else {
            assert(s@ =~= old(s)@ + dec_digits(n as nat));
        }
    }
}

/// Append the decimal digits of `n` padded with leading zeros to `k`
/// digits.
fn push_padded(s: &mut String, n: u64, k: u32)
    requires
        k >= 1,
        n < pow10(k as nat),
    ensures
        final(s)@ == old(s)@ + padded_digits(n as nat, k as nat),
    decreases k,
{
    if k > 1 {
        proof {
            lemma_fundamental_div_mod(n as int, 10);
            lemma_mod_bound(n as int, 10);
            let q = n as int / 10;
            assert(10 * q <= n);
            assert(q < pow10((k - 1) as nat)) by (nonlinear_arith)
                requires
                    10 * q <= n,
                    n < 10 * pow10((k - 1) as nat),
            ;
        }
        push_padded(s, n / 10, k - 1);
    }
    s.append(digit_str(n % 10));
    proof {
        assert(s@ =~= old(s)@ + padded_digits(n as nat, k as nat));
    }
}

/// Format `m * 10^e` as plain decimal text.
pub fn format_value(m: i64, e: i32) -> (r: String)
    requires
        -2_000_000_000_000_000_000 <= m <= 2_000_000_000_000_000_000,
        -15 <= e <= 15,
    ensures
        r@ == fmt_value(m as int, e as int),
{
    if m == 0 {
        let r = String::from_str("0");
        proof {
            reveal_strlit("0");
            assert(r@ =~= seq!['0']);
        }
        return r;
    }
    let mut s = String::new();
    if m < 0 {
        s.append("-");
        proof {
            reveal_strlit("-");
            assert(s@ =~= seq!['-']);
        }
    }
    let mut mag: u64 = if m < 0 {
        (-(m as i128)) as u64
    } else {
        m as u64
    };
    let ghost mag0 = mag as nat;
    let mut e2: i32 = e;
    while e2 < 0 && mag % 10 == 0
        invariant
            mag >= 1,
            e as int <= e2 as int <= 15,
            fmt_reduce(mag0, e as int) == fmt_reduce(mag as nat, e2 as int),
        decreases 0 - e2,
    {
        proof {
            lemma_fundamental_div_mod(mag as int, 10);
        }
        mag = mag / 10;
        e2 = e2 + 1;
    }
    let ghost red = fmt_reduce(mag0, e as int);
    proof {
        assert(red == (mag as nat, e2 as int));
        assert(red.0 == mag as nat && red.1 == e2 as int);
    }
    if e2 >= 0 {
        push_digits(&mut s, mag);
        let mut z: i32 = 0;
        while z < e2
            invariant
                0 <= z <= e2 <= 15,
                s@ == if m < 0 {
                    seq!['-'] + dec_digits(red.0) + Seq::new(z as nat, |i: int| '0')
                } else {
                    dec_digits(red.0) + Seq::new(z as nat, |i: int| '0')
                },
            decreases e2 - z,
        {
            s.append(digit_str(0));
            proof {
                assert(s@ =~= if m < 0 {
                    seq!['-'] + dec_digits(red.0) + Seq::new((z + 1) as nat, |i: int| '0')
                } else {
                    dec_digits(red.0) + Seq::new((z + 1) as nat, |i: int| '0')
                });
            }
            z = z + 1;
        }
        proof {
            assert(s@ =~= fmt_value(m as int, e as int));
        }
    } else {
        let k: u32 = (-e2) as u32;
        proof {
            lemma_pow10_increases(k as nat, 15);
            reveal_with_fuel(pow10, 17);
        }
        let p: u64 = crate::num::pow10_i128(k) as u64;
        let ip: u64 = mag / p;
        let fp: u64 = mag % p;
        proof {
            lemma_fundamental_div_mod(mag as int, p as int);
            lemma_mod_bound(mag as int, p as int);
        }
        push_digits(&mut s, ip);
        s.append(".");
        proof {
            reveal_strlit(".");
            assert(("."@) =~= seq!['.']);
        }
        push_padded(&mut s, fp, k);
        proof {
            assert(s@ =~= fmt_value(m as int, e as int));
        }
    }
    s
}

} // verus!

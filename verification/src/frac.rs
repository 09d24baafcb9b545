//! Rational approximation of a boundary value.
//!
//! A brute-force denominator search finds the best small fraction for a
//! value; the winning pair is put into lowest terms by the outside
//! rational-arithmetic crate through the one trusted wrapper below, and
//! the formatter prints it only when it stayed small enough to read.

use vstd::prelude::*;

use crate::nums::{abs_i, abs_spec, div_round, div_round_spec, SCALE, ZERO_EPS};

verus! {

/// Euclid's greatest common divisor.
pub open spec fn gcd_spec(a: nat, b: nat) -> nat
    decreases b,
{
    if b == 0 {
        a
    } else {
        gcd_spec(b, a % b)
    }
}

/// The lowest-terms form of `n / d` for a positive denominator: both
/// divided by their greatest common divisor, the sign kept on the
/// numerator.  This is exactly what the rational crate's constructor
/// produces.
pub open spec fn frac_reduced(n: int, d: int) -> (int, int)
    recommends
        d >= 1,
{
    let m = if n < 0 {
        (-n) as nat
    } else {
        n as nat
    };
    let g = gcd_spec(m, d as nat);
    if g == 0 {
        (n, d)
    } else {
        let q = (m as int) / (g as int);
        (
            if n < 0 {
                -q
            } else {
                q
            },
            d / (g as int),
        )
    }
}

/// Relies on `num_rational::Ratio::<i64>::new`: its source reduces the
/// pair to lowest terms by their greatest common divisor and keeps the
/// denominator positive (it already is here), panicking only on a zero
/// denominator, which the precondition rules out.
#[verifier::external_body]
fn ratio_reduce(n: i64, d: i64) -> (r: (i64, i64))
    requires
        1 <= d <= 1_000_000,
        -1_000_000_000 <= n <= 1_000_000_000,
    ensures
        (r.0 as int, r.1 as int) == frac_reduced(n as int, d as int),
        1 <= r.1 <= d,
        -1_000_000_000 <= r.0 <= 1_000_000_000,
{
    let ratio = num_rational::Ratio::new(n, d);
    (*ratio.numer(), *ratio.denom())
}

/// One step of the denominator search: the error numerator of the best
/// multiple of `1/d` for `m` (nonnegative, raw), relative to denominator
/// `d`.
pub open spec fn frac_err(m: int, d: int) -> (int, int)
    recommends
        m >= 0,
        d >= 1,
{
    let n = div_round_spec(m * d, SCALE as int);
    let e = m * d - n * (SCALE as int);
    (
        n,
        if e < 0 {
            -e
        } else {
            e
        },
    )
}

/// The denominator search from `d` up: the best `(numerator,
/// denominator, error numerator)` triple, errors compared as fractions.
pub open spec fn best_frac(m: int, d: int, bn: int, bd: int, be: int) -> (int, int, int)
    decreases 1001 - d,
{
    if d > 1000 || d < 1 {
        (bn, bd, be)
    } else {
        let (n, e) = frac_err(m, d);
        let (bn2, bd2, be2) = if e * bd < be * d {
            (n, d, e)
        } else {
            (bn, bd, be)
        };
        if e < d {
            (bn2, bd2, be2)
        } else {
            best_frac(m, d + 1, bn2, bd2, be2)
        }
    }
}

/// What the rational approximation of `v` reports: a reduced pair, or
/// nothing when no small denominator comes close enough.
pub open spec fn ratio_of(v: i128) -> Option<(int, int)> {
    let m = abs_spec(v);
    let bn0 = div_round_spec(m, SCALE as int);
    let be0 = {
        let e = m - bn0 * (SCALE as int);
        if e < 0 {
            -e
        } else {
            e
        }
    };
    let (bn, bd, be) = best_frac(m, 1, bn0, 1, be0);
    if be < (ZERO_EPS as int) * bd {
        Option::Some(
            frac_reduced(
                if v < 0 {
                    -bn
                } else {
                    bn
                },
                bd,
            ),
        )
    } else {
        Option::None
    }
}

/// Approximate `v` by a fraction with denominator up to a thousand,
/// reduced to lowest terms; nothing when no denominator gets within the
/// snap tolerance.
pub fn float_to_ratio(v: i128) -> (r: Option<(i64, i64)>)
    requires
        -1000 * (SCALE as int) <= v <= 1000 * (SCALE as int),
    ensures
        match r {
            Option::Some(p) => ratio_of(v) == Option::Some((p.0 as int, p.1 as int)) && 1 <= p.1
                <= 1000,
            Option::None => ratio_of(v) is None,
        },
{
    let m = abs_i(v);
    let bn0 = div_round(m, SCALE);
    let e0 = m - bn0 * SCALE;
    let be0 = if e0 < 0 {
        -e0
    } else {
        e0
    };
    let mut bn = bn0;
    let mut bd: i128 = 1;
    let mut be = be0;
    let mut d: i128 = 1;
    let mut stopped = false;
    while !stopped && d <= 1000
        invariant
            0 <= m <= 1000 * (SCALE as int),
            1 <= d <= 1001,
            1 <= bd <= 1000,
            0 <= bn <= 2_000_000,
            0 <= be <= 2_000 * (SCALE as int),
            !stopped ==> best_frac(m as int, 1, bn0 as int, 1, be0 as int) == best_frac(
                m as int,
                d as int,
                bn as int,
                bd as int,
                be as int,
            ),
            stopped ==> best_frac(m as int, 1, bn0 as int, 1, be0 as int) == (
                bn as int,
                bd as int,
                be as int,
            ),
        decreases 1002 - d,
    {
        proof {
            assert(0 <= m * d <= 1000 * (SCALE as int) * 1001) by (nonlinear_arith)
                requires
                    0 <= m <= 1000 * (SCALE as int),
                    1 <= d <= 1001,
            ;
        }
        let n = div_round(m * d, SCALE);
        proof {
            vstd::arithmetic::div_mod::lemma_div_is_ordered(
                (m * d) as int,
                1_001_000 * (SCALE as int),
                SCALE as int,
            );
            assert((1_001_000 * (SCALE as int)) / (SCALE as int) == 1_001_000) by {
                vstd::arithmetic::div_mod::lemma_div_multiples_vanish(
                    1_001_000,
                    SCALE as int,
                );
            }
        }
        let e0x = m * d - n * SCALE;
        let e = if e0x < 0 {
            -e0x
        } else {
            e0x
        };
        proof {
            assert(e * bd <= e * 1000 && be * d <= be * 1001) by (nonlinear_arith)
                requires
                    0 <= e,
                    0 <= be,
                    1 <= bd <= 1000,
                    1 <= d <= 1001,
            ;
        }
        if e * bd < be * d {
            bn = n;
            bd = d;
            be = e;
        }
        if e < d {
            stopped = true;
        }
        d = d + 1;
    }
    proof {
        if !stopped {
            assert(best_frac(m as int, d as int, bn as int, bd as int, be as int) == (
                bn as int,
                bd as int,
                be as int,
            ));
        }
    }
    if be < ZERO_EPS * bd {
        let sn: i128 = if v < 0 {
            -bn
        } else {
            bn
        };
        let r = ratio_reduce(sn as i64, bd as i64);
        Option::Some(r)
    } else {
        Option::None
    }
}

} // verus!

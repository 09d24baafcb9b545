//! Bounded one-dimensional optimization.
//!
//! A golden-section search combined with inverse-parabolic interpolation:
//! the parabolic step is taken only when it lands strictly inside the
//! bracket and moves less than half the step before last; otherwise the
//! bracket shrinks by the golden ratio.  A point where the function is
//! undefined is a rejected trial, not an error: the iteration simply goes
//! on without accepting it.  To seek a maximum the objective is negated
//! internally and the reported value negated back.  The parabolic
//! numerator and denominator are pre-scaled by a common power of two so
//! the interpolation stays inside machine range; the ratio they form is
//! unchanged by that scaling.

use vstd::prelude::*;

use crate::nums::{abs_i, favg, favg_spec, tdiv, tdiv_spec, CLIP_CAP, SCALE};
use crate::oracle::{obs, probe, RealFn};

verus! {

/// Golden-section fraction of the bracket, in raw units per unit.
pub const GOLD_RAW: i128 = 381_966_011_250;

/// Convergence tolerance scale (a billionth per unit of position).
pub const BRT_RAW: i128 = 1_000;

/// The optimizer's working state: bracket `[a, b]`, best point `x`, the
/// two next-best points `w`, `v`, their objective values, the last step
/// `d` and the step before last `e`.
#[derive(Clone, Copy, Debug, PartialEq, Eq, Structural)]
pub struct Bst {
    pub a: i128,
    pub b: i128,
    pub x: i128,
    pub w: i128,
    pub v: i128,
    pub fx: i128,
    pub fw: i128,
    pub fv: i128,
    pub d: i128,
    pub e: i128,
}

/// One optimizer outcome: converged at `(x, value)`, or a next state.
#[derive(Clone, Copy, Debug, PartialEq, Eq, Structural)]
pub enum BStep {
    Done(i128, i128),
    Next(Bst),
}

/// The (possibly negated) objective.
pub open spec fn oget<F: RealFn>(f: &F, x: i128, neg: bool) -> Option<i128> {
    match obs(f, x) {
        Option::None => Option::None,
        Option::Some(y) => Option::Some(
            if neg {
                (-y) as i128
            } else {
                y
            },
        ),
    }
}

fn oget_exec<F: RealFn>(f: &F, x: i128, neg: bool) -> (r: Option<i128>)
    ensures
        r == oget(f, x, neg),
{
    match probe(f, x) {
        Option::None => Option::None,
        Option::Some(y) => Option::Some(
            if neg {
                -y
            } else {
                y
            },
        ),
    }
}

/// State well-formedness relative to the original bracket.
pub open spec fn bwf(st: Bst, a0: i128, b0: i128) -> bool {
    &&& a0 <= st.a <= st.b <= b0
    &&& st.a <= st.x <= st.b
    &&& a0 <= st.w <= b0
    &&& a0 <= st.v <= b0
    &&& -CLIP_CAP <= st.fx <= CLIP_CAP
    &&& -CLIP_CAP <= st.fw <= CLIP_CAP
    &&& -CLIP_CAP <= st.fv <= CLIP_CAP
    &&& -(b0 - a0) <= st.d <= b0 - a0
    &&& -(b0 - a0) <= st.e <= b0 - a0
}

/// Acceptable original brackets.
pub open spec fn bracket_ok(a0: i128, b0: i128) -> bool {
    &&& -1_000_000_000_000_000 <= a0
    &&& b0 <= 1_000_000_000_000_000
    &&& 10_000_000 <= b0 - a0 <= 16_000_000_000_000
}

/// Halve both parabolic differences until each fits in 32 bits; their
/// ratio, which is all the interpolation uses, is preserved up to
/// rounding.
pub open spec fn shrink_pair(a: int, b: int) -> (int, int)
    decreases abs2(a) + abs2(b),
{
    if -0x1_0000_0000 < a < 0x1_0000_0000 && -0x1_0000_0000 < b < 0x1_0000_0000 {
        (a, b)
    } else {
        shrink_pair(tdiv_spec(a, 2), tdiv_spec(b, 2))
    }
}

pub open spec fn abs2(a: int) -> int {
    if a < 0 {
        -a
    } else {
        a
    }
}

fn shrink_pair_exec(a: i128, b: i128) -> (r: (i128, i128))
    requires
        -2 * CLIP_CAP <= a <= 2 * CLIP_CAP,
        -2 * CLIP_CAP <= b <= 2 * CLIP_CAP,
    ensures
        (r.0 as int, r.1 as int) == shrink_pair(a as int, b as int),
        -0x1_0000_0000 < r.0 < 0x1_0000_0000,
        -0x1_0000_0000 < r.1 < 0x1_0000_0000,
    decreases abs2(a as int) + abs2(b as int),
{
    if -0x1_0000_0000 < a && a < 0x1_0000_0000 && -0x1_0000_0000 < b && b < 0x1_0000_0000 {
        (a, b)
    } else {
        shrink_pair_exec(tdiv(a, 2), tdiv(b, 2))
    }
}

/// Truncated division by a positive divisor is bounded by any bound on
/// the exact quotient.
proof fn lemma_tdiv_bounds(p: int, q: int, c: int)
    requires
        q > 0,
        c >= 0,
        p < q * c,
        p > -(q * c),
    ensures
        -c <= tdiv_spec(p, q) <= c,
{
    if p >= 0 {
        vstd::arithmetic::div_mod::lemma_div_is_ordered(p, q * c, q);
        vstd::arithmetic::div_mod::lemma_div_multiples_vanish(c, q);
        assert((q * c) / q == c);
    } else {
        vstd::arithmetic::div_mod::lemma_div_is_ordered(-p, q * c, q);
        vstd::arithmetic::div_mod::lemma_div_multiples_vanish(c, q);
        assert((q * c) / q == c);
    }
}

/// One iteration of the optimizer over state `st`.
pub open spec fn step_spec<F: RealFn>(f: &F, st: Bst, neg: bool, a0: i128, b0: i128) -> BStep {
    let mid = favg_spec(st.a as int, st.b as int);
    let tol1 = (BRT_RAW as int) * abs2(st.x as int) / (SCALE as int) + 1;
    let tol2 = 2 * tol1;
    if abs2(st.x - mid) <= tol2 - (st.b - st.a) / 2 {
        BStep::Done(
            st.x,
            if neg {
                (-st.fx) as i128
            } else {
                st.fx
            },
        )
    } else {
        let golden_e = if st.x < mid {
            st.b - st.x
        } else {
            st.a - st.x
        };
        let golden_d = tdiv_spec(golden_e * (GOLD_RAW as int), SCALE as int);
        let para = if abs2(st.e as int) > tol1 {
            let (dfv, dfw) = shrink_pair(st.fx - st.fv, st.fx - st.fw);
            let r0 = (st.x - st.w) * dfv;
            let q0 = (st.x - st.v) * dfw;
            let p0 = (st.x - st.v) * q0 - (st.x - st.w) * r0;
            let q1 = 2 * (q0 - r0);
            let p1 = if q1 > 0 {
                -p0
            } else {
                p0
            };
            let q2 = if q1 > 0 {
                q1
            } else {
                -q1
            };
            let e1 = st.d as int;
            if q2 > 0 && abs2(p1) < abs2(q2 * (st.e as int)) / 2 && p1 > q2 * (st.a - st.x)
                && p1 < q2 * (st.b - st.x) {
                let dp = tdiv_spec(p1, q2);
                let u0 = st.x + dp;
                let d2 = if u0 - st.a < tol2 || st.b - u0 < tol2 {
                    if st.x < mid {
                        tol1
                    } else {
                        -tol1
                    }
                } else {
                    dp
                };
                Option::Some((d2, e1))
            } else {
                Option::None
            }
        } else {
            Option::None
        };
        let (d1, e1) = match para {
            Option::Some(de) => de,
            Option::None => (golden_d, golden_e),
        };
        let u1 = if abs2(d1) >= tol1 {
            st.x as int + d1
        } else if d1 >= 0 {
            st.x as int + tol1
        } else {
            st.x as int - tol1
        };
        let u = if u1 < st.a {
            st.a as int
        } else if u1 > st.b {
            st.b as int
        } else {
            u1
        };
        match oget(f, u as i128, neg) {
            Option::None => BStep::Next(
                Bst { d: d1 as i128, e: e1 as i128, ..st },
            ),
            Option::Some(fu) => {
                if fu <= st.fx {
                    let (na, nb) = if u < st.x {
                        (st.a, st.x)
                    } else {
                        (st.x, st.b)
                    };
                    BStep::Next(
                        Bst {
                            a: na,
                            b: nb,
                            x: u as i128,
                            w: st.x,
                            v: st.w,
                            fx: fu,
                            fw: st.fx,
                            fv: st.fw,
                            d: d1 as i128,
                            e: e1 as i128,
                        },
                    )
                } else {
                    let (na, nb) = if u < st.x {
                        (u as i128, st.b)
                    } else {
                        (st.a, u as i128)
                    };
                    if fu <= st.fw || st.w == st.x {
                        BStep::Next(
                            Bst {
                                a: na,
                                b: nb,
                                w: u as i128,
                                v: st.w,
                                fw: fu,
                                fv: st.fw,
                                d: d1 as i128,
                                e: e1 as i128,
                                ..st
                            },
                        )
                    } else if fu <= st.fv || st.v == st.x || st.v == st.w {
                        BStep::Next(
                            Bst {
                                a: na,
                                b: nb,
                                v: u as i128,
                                fv: fu,
                                d: d1 as i128,
                                e: e1 as i128,
                                ..st
                            },
                        )
                    } else {
                        BStep::Next(Bst { a: na, b: nb, d: d1 as i128, e: e1 as i128, ..st })
                    }
                }
            },
        }
    }
}

#[verifier::rlimit(100)]
fn step_exec<F: RealFn>(f: &F, st: Bst, neg: bool, Ghost(a0): Ghost<i128>, Ghost(b0): Ghost<
    i128,
>) -> (r: BStep)
    requires
        bracket_ok(a0, b0),
        bwf(st, a0, b0),
    ensures
        r == step_spec(f, st, neg, a0, b0),
        match r {
            BStep::Next(st2) => bwf(st2, a0, b0),
            BStep::Done(x, val) => a0 <= x <= b0 && -CLIP_CAP <= val <= CLIP_CAP,
        },
{
    let mid = favg(st.a, st.b);
    let tol1 = BRT_RAW * abs_i(st.x) / SCALE + 1;
    let tol2 = 2 * tol1;
    proof {
        assert(tol1 == (BRT_RAW as int) * abs2(st.x as int) / (SCALE as int) + 1);
        assert((BRT_RAW as int) * abs2(st.x as int) <= 1000 * 1_000_000_000_000_000) by (
        nonlinear_arith)
            requires
                0 <= abs2(st.x as int) <= 1_000_000_000_000_000,
        ;
        vstd::arithmetic::div_mod::lemma_div_is_ordered(
            (BRT_RAW as int) * abs2(st.x as int),
            1000int * 1_000_000_000_000_000,
            SCALE as int,
        );
        assert(tol1 <= 1_000_001);
    }
    if abs_i(st.x - mid) <= tol2 - (st.b - st.a) / 2 {
        return BStep::Done(
            st.x,
            if neg {
                -st.fx
            } else {
                st.fx
            },
        );
    }
    let golden_e = if st.x < mid {
        st.b - st.x
    } else {
        st.a - st.x
    };
    let golden_d = tdiv(golden_e * GOLD_RAW, SCALE);
    proof {
        assert(-(b0 - a0) <= golden_e <= b0 - a0);
        assert(golden_e * GOLD_RAW < (b0 - a0) * (SCALE as int) && golden_e * GOLD_RAW > -((b0
            - a0) * (SCALE as int))) by (nonlinear_arith)
            requires
                -(b0 - a0) <= golden_e <= b0 - a0,
                0 < GOLD_RAW < SCALE,
                b0 - a0 > 0,
        ;
        lemma_tdiv_bounds(golden_e * GOLD_RAW, SCALE as int, (b0 - a0) as int);
    }
    let mut d1: i128;
    let mut e1: i128;
    if abs_i(st.e) > tol1 {
        let (dfv, dfw) = shrink_pair_exec(st.fx - st.fv, st.fx - st.fw);
        proof {
            assert(-16_000_000_000_000 <= st.x - st.w <= 16_000_000_000_000);
            assert(-16_000_000_000_000 <= st.x - st.v <= 16_000_000_000_000);
            assert(-70_000_000_000_000_000_000_000 <= (st.x - st.w) * dfv
                <= 70_000_000_000_000_000_000_000 && -70_000_000_000_000_000_000_000 <= (st.x
                - st.v) * dfw <= 70_000_000_000_000_000_000_000) by (nonlinear_arith)
                requires
                    -16_000_000_000_000 <= st.x - st.w <= 16_000_000_000_000,
                    -16_000_000_000_000 <= st.x - st.v <= 16_000_000_000_000,
                    -0x1_0000_0000 < dfv < 0x1_0000_0000,
                    -0x1_0000_0000 < dfw < 0x1_0000_0000,
            ;
        }
        let r0 = (st.x - st.w) * dfv;
        let q0 = (st.x - st.v) * dfw;
        proof {
            assert(-3_000_000_000_000_000_000_000_000_000_000_000_000 <= (st.x - st.v) * q0
                <= 3_000_000_000_000_000_000_000_000_000_000_000_000
                && -3_000_000_000_000_000_000_000_000_000_000_000_000 <= (st.x - st.w) * r0
                <= 3_000_000_000_000_000_000_000_000_000_000_000_000) by (nonlinear_arith)
                requires
                    -16_000_000_000_000 <= st.x - st.w <= 16_000_000_000_000,
                    -16_000_000_000_000 <= st.x - st.v <= 16_000_000_000_000,
                    -70_000_000_000_000_000_000_000 <= q0 <= 70_000_000_000_000_000_000_000,
                    -70_000_000_000_000_000_000_000 <= r0 <= 70_000_000_000_000_000_000_000,
            ;
        }
        let p0 = (st.x - st.v) * q0 - (st.x - st.w) * r0;
        let q1 = 2 * (q0 - r0);
        let p1 = if q1 > 0 {
            -p0
        } else {
            p0
        };
        let q2 = if q1 > 0 {
            q1
        } else {
            -q1
        };
        proof {
            assert(q2 >= 0);
            assert(q2 * (st.e as int) <= 5_000_000_000_000_000_000_000_000_000_000_000_000 && q2
                * (st.e as int) >= -5_000_000_000_000_000_000_000_000_000_000_000_000 && q2 * (
            st.a - st.x) <= 5_000_000_000_000_000_000_000_000_000_000_000_000 && q2 * (st.a
                - st.x) >= -5_000_000_000_000_000_000_000_000_000_000_000_000 && q2 * (st.b
                - st.x) <= 5_000_000_000_000_000_000_000_000_000_000_000_000 && q2 * (st.b
                - st.x) >= -5_000_000_000_000_000_000_000_000_000_000_000_000) by (
            nonlinear_arith)
                requires
                    0 <= q2 <= 300_000_000_000_000_000_000_000,
                    -16_000_000_000_000 <= st.e <= 16_000_000_000_000,
                    -16_000_000_000_000 <= st.a - st.x <= 16_000_000_000_000,
                    -16_000_000_000_000 <= st.b - st.x <= 16_000_000_000_000,
            ;
        }
        if q2 > 0 && abs_i(p1) < abs_i(q2 * st.e) / 2 && p1 > q2 * (st.a - st.x) && p1 < q2 * (
        st.b - st.x) {
            proof {
                assert(q2 * (st.a - st.x) >= q2 * (-((b0 - a0) as int)) && q2 * (st.b - st.x)
                    <= q2 * ((b0 - a0) as int)) by (nonlinear_arith)
                    requires
                        q2 > 0,
                        a0 <= st.a <= st.b <= b0,
                        st.a <= st.x <= st.b,
                ;
                assert(q2 * (-((b0 - a0) as int)) == -(q2 * ((b0 - a0) as int)))
                    by (nonlinear_arith);
                lemma_tdiv_bounds(p1 as int, q2 as int, (b0 - a0) as int);
            }
            let dp = tdiv(p1, q2);
            let u0 = st.x + dp;
            if u0 - st.a < tol2 || st.b - u0 < tol2 {
                d1 = if st.x < mid {
                    tol1
                } else {
                    -tol1
                };
            } else {
                d1 = dp;
            }
            e1 = st.d;
        } else {
            d1 = golden_d;
            e1 = golden_e;
        }
    } else {
        d1 = golden_d;
        e1 = golden_e;
    }
    let u1 = if abs_i(d1) >= tol1 {
        st.x + d1
    } else if d1 >= 0 {
        st.x + tol1
    } else {
        st.x - tol1
    };
    let u = if u1 < st.a {
        st.a
    } else if u1 > st.b {
        st.b
    } else {
        u1
    };
    match oget_exec(f, u, neg) {
        Option::None => BStep::Next(Bst { d: d1, e: e1, ..st }),
        Option::Some(fu) => {
            if fu <= st.fx {
                let (na, nb) = if u < st.x {
                    (st.a, st.x)
                } else {
                    (st.x, st.b)
                };
                BStep::Next(
                    Bst {
                        a: na,
                        b: nb,
                        x: u,
                        w: st.x,
                        v: st.w,
                        fx: fu,
                        fw: st.fx,
                        fv: st.fw,
                        d: d1,
                        e: e1,
                    },
                )
            } else {
                let (na, nb) = if u < st.x {
                    (u, st.b)
                } else {
                    (st.a, u)
                };
                if fu <= st.fw || st.w == st.x {
                    BStep::Next(
                        Bst { a: na, b: nb, w: u, v: st.w, fw: fu, fv: st.fw, d: d1, e: e1, ..st },
                    )
                } else if fu <= st.fv || st.v == st.x || st.v == st.w {
                    BStep::Next(Bst { a: na, b: nb, v: u, fv: fu, d: d1, e: e1, ..st })
                } else {
                    BStep::Next(Bst { a: na, b: nb, d: d1, e: e1, ..st })
                }
            }
        },
    }
}

/// The optimizer run to its iteration cap.
pub open spec fn brent_iter<F: RealFn>(f: &F, st: Bst, neg: bool, a0: i128, b0: i128, k: int) -> (
    i128,
    i128,
)
    decreases k,
{
    if k <= 0 {
        (
            st.x,
            if neg {
                (-st.fx) as i128
            } else {
                st.fx
            },
        )
    } else {
        match step_spec(f, st, neg, a0, b0) {
            BStep::Done(x, val) => (x, val),
            BStep::Next(st2) => brent_iter(f, st2, neg, a0, b0, k - 1),
        }
    }
}

/// What the bounded optimizer returns on `[a0, b0]`.
pub open spec fn brent_spec<F: RealFn>(f: &F, a0: i128, b0: i128, neg: bool) -> Option<
    (i128, i128),
> {
    let x0 = (a0 as int + tdiv_spec((b0 - a0) * (GOLD_RAW as int), SCALE as int)) as i128;
    match oget(f, x0, neg) {
        Option::None => Option::None,
        Option::Some(fx0) => {
            let st0 = Bst {
                a: a0,
                b: b0,
                x: x0,
                w: x0,
                v: x0,
                fx: fx0,
                fw: fx0,
                fv: fx0,
                d: 0,
                e: 0,
            };
            Option::Some(brent_iter(f, st0, neg, a0, b0, 100))
        },
    }
}

/// Refine an extremum of `f` inside the finite bracket `[a0, b0]`.
/// Seeking a maximum negates the objective internally.  Returns the
/// located point and its (de-negated) value, or nothing when the first
/// trial point is undefined.  The located point never leaves the bracket.
pub fn brent_extremize<F: RealFn>(f: &F, a0: i128, b0: i128, seek_max: bool) -> (r: Option<
    (i128, i128),
>)
    requires
        bracket_ok(a0, b0),
    ensures
        r == brent_spec(f, a0, b0, seek_max),
        match r {
            Option::Some(p) => a0 <= p.0 <= b0 && -CLIP_CAP <= p.1 <= CLIP_CAP,
            Option::None => true,
        },
{
    let width = b0 - a0;
    let x0 = a0 + tdiv(width * GOLD_RAW, SCALE);
    proof {
        assert(width * GOLD_RAW < width * (SCALE as int) && width * GOLD_RAW >= 0) by (
        nonlinear_arith)
            requires
                0 < width,
                0 < GOLD_RAW < SCALE,
        ;
        lemma_tdiv_bounds(width * GOLD_RAW, SCALE as int, width as int);
    }
    proof {
        assert(x0 == (a0 as int + tdiv_spec(((b0 - a0) as int) * (GOLD_RAW as int),
            SCALE as int)) as i128);
    }
    let fx0 = match oget_exec(f, x0, seek_max) {
        Option::None => {
            return Option::None;
        },
        Option::Some(v) => v,
    };
    let mut st = Bst { a: a0, b: b0, x: x0, w: x0, v: x0, fx: fx0, fw: fx0, fv: fx0, d: 0, e: 0 };
    let mut k: u32 = 100;
    while k > 0
        invariant
            bracket_ok(a0, b0),
            bwf(st, a0, b0),
            k <= 100,
            brent_spec(f, a0, b0, seek_max) == Option::Some(
                brent_iter(f, st, seek_max, a0, b0, k as int),
            ),
        decreases k,
    {
        match step_exec(f, st, seek_max, Ghost(a0), Ghost(b0)) {
            BStep::Done(x, val) => {
                return Option::Some((x, val));
            },
            BStep::Next(st2) => {
                st = st2;
            },
        }
        k = k - 1;
    }
    Option::Some(
        (
            st.x,
            if seek_max {
                -st.fx
            } else {
                st.fx
            },
        ),
    )
}

} // verus!

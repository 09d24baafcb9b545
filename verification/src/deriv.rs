//! Critical point search.
//!
//! A central-difference derivative estimate is taken at ten thousand and
//! one evenly spaced points across the effective search window, the probe
//! offset growing with the magnitude of the point to keep relative error
//! controlled.  Two adjacent samples whose estimates are both defined and
//! of strictly opposite sign report their midpoint as a critical point
//! candidate.  Since the offset is positive, the sign of the difference
//! alone decides; no division is needed.

use vstd::prelude::*;

use crate::model::{Domain, DomainV};
use crate::nums::{abs_i, abs_spec, div_round, favg, favg_spec, Ext, CLIP_CAP, SCALE};
use crate::oracle::{obs, probe, RealFn};

verus! {

/// The probe offset at `x`: a hundred-millionth, scaled by one plus the
/// magnitude.
pub open spec fn dstep_h(x: i128) -> int {
    10_000 + abs_spec(x) / 100_000_000
}

/// The central difference at `x`, when both probes are defined.
pub open spec fn dnum<F: RealFn>(f: &F, x: i128) -> Option<i128> {
    let h = dstep_h(x);
    match (obs(f, (x + h) as i128), obs(f, (x - h) as i128)) {
        (Option::Some(p), Option::Some(m)) => Option::Some((p - m) as i128),
        _ => Option::None,
    }
}

fn dnum_exec<F: RealFn>(f: &F, x: i128) -> (r: Option<i128>)
    requires
        -6 * CLIP_CAP <= x <= 6 * CLIP_CAP,
    ensures
        r == dnum(f, x),
{
    let h = 10_000 + abs_i(x) / 100_000_000;
    match (probe(f, x + h), probe(f, x - h)) {
        (Option::Some(p), Option::Some(m)) => Option::Some(p - m),
        _ => Option::None,
    }
}

/// A genuine sign change: both estimates defined, strictly opposite sign.
pub open spec fn sgn_change(a: Option<i128>, b: Option<i128>) -> bool {
    match (a, b) {
        (Option::Some(x), Option::Some(y)) => (x > 0 && y < 0) || (x < 0 && y > 0),
        _ => false,
    }
}

/// Midpoints of adjacent sample pairs whose derivative estimates change
/// sign, walking the window from `x`.
pub open spec fn crit_from<F: RealFn>(
    f: &F,
    x: int,
    step: int,
    left: int,
    prevx: int,
    prevd: Option<i128>,
) -> Seq<i128>
    decreases left,
{
    if left <= 0 {
        Seq::empty()
    } else {
        let d = dnum(f, x as i128);
        let head: Seq<i128> = if sgn_change(prevd, d) {
            seq![favg_spec(prevx, x) as i128]
        } else {
            Seq::empty()
        };
        head + crit_from(f, x + step, step, left - 1, x, d)
    }
}

/// The effective search window for derivative sampling.
pub open spec fn crit_window(dom: DomainV) -> (int, int) {
    match dom {
        DomainV::Interval(iv) => (
            match iv.lo {
                Ext::Fin(v) => v + 1_000_000,
                _ => -1000 * (SCALE as int),
            },
            match iv.hi {
                Ext::Fin(v) => v - 1_000_000,
                _ => 1000 * (SCALE as int),
            },
        ),
        _ => (-1000 * (SCALE as int), 1000 * (SCALE as int)),
    }
}

/// All critical point candidates for this domain.
pub open spec fn crit_spec<F: RealFn>(f: &F, dom: DomainV) -> Seq<i128> {
    let (lo, hi) = crit_window(dom);
    let q = crate::nums::div_round_spec(hi - lo, 10_000);
    let step = if q < 1 {
        1
    } else {
        q
    };
    crit_from(f, lo, step, 10_001, lo, Option::None)
}

/// Locate candidate critical points: x-locations where the estimated
/// derivative crosses zero across the search window.
pub fn find_critical_points<F: RealFn>(f: &F, dom: &Domain) -> (r: Vec<i128>)
    requires
        dom.capped_bounds(),
    ensures
        r@ == crit_spec(f, dom.dv()),
{
    let (lo, hi): (i128, i128) = match dom {
        Domain::Interval(iv) => (
            match iv.lo {
                Ext::Fin(v) => v + 1_000_000,
                _ => -1000 * SCALE,
            },
            match iv.hi {
                Ext::Fin(v) => v - 1_000_000,
                _ => 1000 * SCALE,
            },
        ),
        _ => (-1000 * SCALE, 1000 * SCALE),
    };
    let q = div_round(hi - lo, 10_000);
    let step = if q < 1 {
        1
    } else {
        q
    };
    proof {
        if hi - lo >= 0 {
            vstd::arithmetic::div_mod::lemma_div_is_ordered(
                (hi - lo) as int,
                3 * CLIP_CAP,
                10_000,
            );
        }
        assert(1 <= step <= 3 * CLIP_CAP / 10_000 + 1);
    }
    let mut out: Vec<i128> = Vec::new();
    let mut x = lo;
    let mut left: u32 = 10_001;
    let mut prevx = lo;
    let mut prevd: Option<i128> = Option::None;
    proof {
        assert(out@ + crit_from(f, lo as int, step as int, 10_001, lo as int, Option::None)
            =~= crit_from(f, lo as int, step as int, 10_001, lo as int, Option::None));
        assert(x as int == lo + (10_001 - left) * (step as int)) by (nonlinear_arith)
            requires
                x == lo,
                left == 10_001u32,
        ;
    }
    while left > 0
        invariant
            -2 * CLIP_CAP <= lo <= 2 * CLIP_CAP,
            1 <= step <= 3 * CLIP_CAP / 10_000 + 1,
            left <= 10_001,
            x as int == lo + (10_001 - left) * (step as int),
            -6 * CLIP_CAP <= x <= 6 * CLIP_CAP,
            -6 * CLIP_CAP <= prevx <= 6 * CLIP_CAP,
            crit_spec(f, dom.dv()) == out@ + crit_from(
                f,
                x as int,
                step as int,
                left as int,
                prevx as int,
                prevd,
            ),
        decreases left,
    {
        let ghost pre = out@;
        let d = dnum_exec(f, x);
        let hit = match (prevd, d) {
            (Option::Some(a), Option::Some(b)) => (a > 0 && b < 0) || (a < 0 && b > 0),
            _ => false,
        };
        if hit {
            out.push(favg(prevx, x));
            proof {
                assert(out@ =~= pre + seq![favg_spec(prevx as int, x as int) as i128]);
            }
        }
        proof {
            let ghost head: Seq<i128> = if sgn_change(prevd, d) {
                seq![favg_spec(prevx as int, x as int) as i128]
            } else {
                Seq::<i128>::empty()
            };
            assert(out@ =~= pre + head);
            assert(pre + crit_from(f, x as int, step as int, left as int, prevx as int, prevd)
                =~= out@ + crit_from(f, x as int + step, step as int, left - 1, x as int, d));
            assert((10_001 - (left - 1)) * (step as int) == (10_001 - left) * (step as int)
                + step) by (nonlinear_arith);
            assert((10_001 - left + 1) * (step as int) <= 10_001 * (step as int)) by (
            nonlinear_arith)
                requires
                    step >= 1,
                    1 <= left <= 10_001,
            ;
            assert(10_001 * (step as int) <= 10_001 * (3 * CLIP_CAP / 10_000 + 1)) by (
            nonlinear_arith)
                requires
                    1 <= step <= 3 * CLIP_CAP / 10_000 + 1,
            ;
            assert((10_001 - left + 1) * (step as int) >= 0) by (nonlinear_arith)
                requires
                    step >= 1,
                    1 <= left <= 10_001u32,
            ;
        }
        prevx = x;
        prevd = d;
        x = x + step;
        left = left - 1;
    }
    proof {
        assert(crit_from(f, x as int, step as int, 0, prevx as int, prevd) =~= Seq::<
            i128,
        >::empty());
        assert(out@ + Seq::<i128>::empty() =~= out@);
    }
    out
}

} // verus!

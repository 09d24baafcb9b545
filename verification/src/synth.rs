//! Evidence gathering for range synthesis.
//!
//! The grid fold reduces every defined sample to one statistics record
//! (rough extrema plus the sign/magnitude facts the shape rules need);
//! critical-point values and per-subinterval optimizer runs widen the
//! rough extrema; horizontal asymptotes that a dense probe never attains
//! become suspected excluded outputs.  All folds are commutative
//! min/max-style reductions, insensitive to sample order.

use vstd::prelude::*;

use crate::detect::capped;
use crate::limits::{attained_spec, value_attained};
use crate::model::Ival;
use crate::nums::{Ext, CLIP_CAP, SCALE, SYM_EPS};
use crate::optimize::{brent_extremize, brent_spec, bracket_ok};
use crate::oracle::{obs, probe, RealFn};

verus! {

/// What one pass over the grid values established.
#[derive(Clone, Copy, Debug, PartialEq, Eq, Structural)]
pub struct GridStats {
    /// Whether any sampled point was defined.
    pub any: bool,
    /// Least defined sample (the cap when none).
    pub lo: i128,
    /// Greatest defined sample (minus the cap when none).
    pub hi: i128,
    /// Some sample lies above a tenth.
    pub has_pos: bool,
    /// Some sample lies below minus a tenth.
    pub has_neg: bool,
    /// Some sample lies within a hundredth of zero.
    pub near_zero: bool,
    /// Least absolute sample (the cap when none).
    pub min_abs: i128,
}

pub open spec fn stats_init() -> GridStats {
    GridStats {
        any: false,
        lo: CLIP_CAP,
        hi: (-CLIP_CAP) as i128,
        has_pos: false,
        has_neg: false,
        near_zero: false,
        min_abs: CLIP_CAP,
    }
}

/// Absorb one defined sample.
pub open spec fn stats_step(st: GridStats, y: i128) -> GridStats {
    let ay = if y < 0 {
        (-y) as i128
    } else {
        y
    };
    GridStats {
        any: true,
        lo: if y < st.lo {
            y
        } else {
            st.lo
        },
        hi: if y > st.hi {
            y
        } else {
            st.hi
        },
        has_pos: st.has_pos || y > SCALE / 10,
        has_neg: st.has_neg || y < -(SCALE / 10),
        near_zero: st.near_zero || (-(SCALE / 100) < y && y < SCALE / 100),
        min_abs: if ay < st.min_abs {
            ay
        } else {
            st.min_abs
        },
    }
}

/// The fold over the grid from index `i`.
pub open spec fn stats_from<F: RealFn>(f: &F, grid: Seq<i128>, i: int, st: GridStats) -> GridStats
    decreases grid.len() - i,
{
    if i < 0 || i >= grid.len() {
        st
    } else {
        let st2 = match obs(f, grid[i]) {
            Option::Some(y) => stats_step(st, y),
            Option::None => st,
        };
        stats_from(f, grid, i + 1, st2)
    }
}

pub open spec fn stats_spec<F: RealFn>(f: &F, grid: Seq<i128>) -> GridStats {
    stats_from(f, grid, 0, stats_init())
}

/// Whether a statistics record is internally consistent and capped.
pub open spec fn stats_wf(st: GridStats) -> bool {
    &&& -CLIP_CAP <= st.lo <= CLIP_CAP
    &&& -CLIP_CAP <= st.hi <= CLIP_CAP
    &&& 0 <= st.min_abs <= CLIP_CAP
    &&& st.any ==> st.lo <= st.hi
}

/// Evaluate the function across the whole grid and reduce to statistics.
pub fn grid_stats<F: RealFn>(f: &F, grid: &Vec<i128>) -> (r: GridStats)
    ensures
        r == stats_spec(f, grid@),
        stats_wf(r),
{
    let mut st = GridStats {
        any: false,
        lo: CLIP_CAP,
        hi: -CLIP_CAP,
        has_pos: false,
        has_neg: false,
        near_zero: false,
        min_abs: CLIP_CAP,
    };
    let mut i: usize = 0;
    while i < grid.len()
        invariant
            0 <= i <= grid@.len(),
            stats_spec(f, grid@) == stats_from(f, grid@, i as int, st),
            stats_wf(st),
        decreases grid@.len() - i,
    {
        match probe(f, grid[i]) {
            Option::Some(y) => {
                let ay = if y < 0 {
                    -y
                } else {
                    y
                };
                st = GridStats {
                    any: true,
                    lo: if y < st.lo {
                        y
                    } else {
                        st.lo
                    },
                    hi: if y > st.hi {
                        y
                    } else {
                        st.hi
                    },
                    has_pos: st.has_pos || y > SCALE / 10,
                    has_neg: st.has_neg || y < -(SCALE / 10),
                    near_zero: st.near_zero || (-(SCALE / 100) < y && y < SCALE / 100),
                    min_abs: if ay < st.min_abs {
                        ay
                    } else {
                        st.min_abs
                    },
                };
            },
            Option::None => {},
        }
        i = i + 1;
    }
    st
}

/// Widen rough extrema with the function's values at candidate critical
/// points, from index `i`.
pub open spec fn widen_crit<F: RealFn>(
    f: &F,
    crits: Seq<i128>,
    i: int,
    lo: i128,
    hi: i128,
) -> (i128, i128)
    decreases crits.len() - i,
{
    if i < 0 || i >= crits.len() {
        (lo, hi)
    } else {
        let (lo2, hi2) = match obs(f, crits[i]) {
            Option::Some(y) => (
                if y < lo {
                    y
                } else {
                    lo
                },
                if y > hi {
                    y
                } else {
                    hi
                },
            ),
            Option::None => (lo, hi),
        };
        widen_crit(f, crits, i + 1, lo2, hi2)
    }
}

/// Evaluate each candidate critical point and widen the rough extrema.
pub fn widen_with_crits<F: RealFn>(f: &F, crits: &Vec<i128>, lo0: i128, hi0: i128) -> (r: (
    i128,
    i128,
))
    requires
        -CLIP_CAP <= lo0 <= CLIP_CAP,
        -CLIP_CAP <= hi0 <= CLIP_CAP,
    ensures
        r == widen_crit(f, crits@, 0, lo0, hi0),
        -CLIP_CAP <= r.0 <= CLIP_CAP,
        -CLIP_CAP <= r.1 <= CLIP_CAP,
        r.0 <= lo0,
        r.1 >= hi0,
{
    let mut lo = lo0;
    let mut hi = hi0;
    let mut i: usize = 0;
    while i < crits.len()
        invariant
            0 <= i <= crits@.len(),
            -CLIP_CAP <= lo <= CLIP_CAP,
            -CLIP_CAP <= hi <= CLIP_CAP,
            lo <= lo0,
            hi >= hi0,
            widen_crit(f, crits@, 0, lo0, hi0) == widen_crit(f, crits@, i as int, lo, hi),
        decreases crits@.len() - i,
    {
        match probe(f, crits[i]) {
            Option::Some(y) => {
                if y < lo {
                    lo = y;
                }
                if y > hi {
                    hi = y;
                }
            },
            Option::None => {},
        }
        i = i + 1;
    }
    (lo, hi)
}

/// Widen rough extrema with optimizer runs over successive subintervals
/// `[a, a+d]`, `left` of them remaining.
pub open spec fn brent_widen_spec<F: RealFn>(
    f: &F,
    a: i128,
    d: i128,
    left: int,
    lo: i128,
    hi: i128,
) -> (i128, i128)
    decreases left,
{
    if left <= 0 || d < 10_000_000 {
        (lo, hi)
    } else {
        let lo2 = match brent_spec(f, a, (a + d) as i128, false) {
            Option::Some(p) => {
                if p.1 < lo {
                    p.1
                } else {
                    lo
                }
            },
            Option::None => lo,
        };
        let hi2 = match brent_spec(f, a, (a + d) as i128, true) {
            Option::Some(p) => {
                if p.1 > hi {
                    p.1
                } else {
                    hi
                }
            },
            Option::None => hi,
        };
        brent_widen_spec(f, (a + d) as i128, d, left - 1, lo2, hi2)
    }
}

/// Run the optimizer across twenty equal subintervals of the search
/// window, both ways, widening the rough extrema; a heuristic
/// multi-start, not a global-optimality guarantee.
pub fn brent_widen<F: RealFn>(f: &F, slo: i128, d: i128, lo0: i128, hi0: i128) -> (r: (
    i128,
    i128,
))
    requires
        -100 * (SCALE as int) <= slo <= 100 * (SCALE as int),
        0 <= d <= 10_000_000_000_000,
        -CLIP_CAP <= lo0 <= CLIP_CAP,
        -CLIP_CAP <= hi0 <= CLIP_CAP,
    ensures
        r == brent_widen_spec(f, slo, d, 20, lo0, hi0),
        -CLIP_CAP <= r.0 <= CLIP_CAP,
        -CLIP_CAP <= r.1 <= CLIP_CAP,
        r.0 <= lo0,
        r.1 >= hi0,
{
    let mut lo = lo0;
    let mut hi = hi0;
    let mut a = slo;
    let mut left: u32 = 20;
    while left > 0 && d >= 10_000_000
        invariant
            0 <= d <= 10_000_000_000_000,
            left <= 20,
            a as int == slo + (20 - left) * (d as int),
            -100 * (SCALE as int) <= slo <= 100 * (SCALE as int),
            -CLIP_CAP <= lo <= CLIP_CAP,
            -CLIP_CAP <= hi <= CLIP_CAP,
            lo <= lo0,
            hi >= hi0,
            brent_widen_spec(f, slo, d, 20, lo0, hi0) == brent_widen_spec(
                f,
                a,
                d,
                left as int,
                lo,
                hi,
            ),
        decreases left,
    {
        proof {
            assert((20 - left) * (d as int) <= 20 * (d as int) && (20 - left) * (d as int)
                >= 0) by (nonlinear_arith)
                requires
                    0 < left <= 20,
                    d >= 0,
            ;
            assert(bracket_ok(a, (a + d) as i128));
        }
        match brent_extremize(f, a, a + d, false) {
            Option::Some(p) => {
                if p.1 < lo {
                    lo = p.1;
                }
            },
            Option::None => {},
        }
        match brent_extremize(f, a, a + d, true) {
            Option::Some(p) => {
                if p.1 > hi {
                    hi = p.1;
                }
            },
            Option::None => {},
        }
        proof {
            assert((20 - (left - 1)) * (d as int) == (20 - left) * (d as int) + d) by (
            nonlinear_arith);
        }
        a = a + d;
        left = left - 1;
    }
    (lo, hi)
}

/// Asymptote values the dense probe never lands near: suspected excluded
/// outputs, from index `i`.
pub open spec fn unattained_from<F: RealFn>(
    f: &F,
    asyms: Seq<i128>,
    i: int,
    sings: Seq<i128>,
) -> Seq<i128>
    decreases asyms.len() - i,
{
    if i < 0 || i >= asyms.len() {
        Seq::empty()
    } else {
        let rest = unattained_from(f, asyms, i + 1, sings);
        if !attained_spec(f, asyms[i], sings, SYM_EPS) {
            seq![asyms[i]] + rest
        } else {
            rest
        }
    }
}

/// Keep the asymptotes that the dense probe shows are never attained.
pub fn filter_unattained<F: RealFn>(f: &F, asyms: &Vec<i128>, sings: &Vec<i128>) -> (r: Vec<
    i128,
>)
    requires
        forall|k: int| 0 <= k < asyms@.len() ==> capped(#[trigger] asyms@[k]),
        forall|k: int| 0 <= k < sings@.len() ==> capped(#[trigger] sings@[k]),
    ensures
        r@ == unattained_from(f, asyms@, 0, sings@),
        forall|k: int| 0 <= k < r@.len() ==> capped(#[trigger] r@[k]),
{
    let mut out: Vec<i128> = Vec::new();
    let mut i: usize = 0;
    proof {
        assert(out@ + unattained_from(f, asyms@, 0, sings@) =~= unattained_from(
            f,
            asyms@,
            0,
            sings@,
        ));
    }
    while i < asyms.len()
        invariant
            0 <= i <= asyms@.len(),
            forall|k: int| 0 <= k < asyms@.len() ==> capped(#[trigger] asyms@[k]),
            forall|k: int| 0 <= k < sings@.len() ==> capped(#[trigger] sings@[k]),
            forall|k: int| 0 <= k < out@.len() ==> capped(#[trigger] out@[k]),
            unattained_from(f, asyms@, 0, sings@) == out@ + unattained_from(
                f,
                asyms@,
                i as int,
                sings@,
            ),
        decreases asyms@.len() - i,
    {
        let ghost pre = out@;
        let a = asyms[i];
        if !value_attained(f, a, sings, SYM_EPS) {
            out.push(a);
            proof {
                assert(out@ =~= pre + seq![a]);
                assert(pre + unattained_from(f, asyms@, i as int, sings@) =~= out@
                    + unattained_from(f, asyms@, i + 1, sings@));
            }
        } else {
            proof {
                assert(pre + unattained_from(f, asyms@, i as int, sings@) =~= out@
                    + unattained_from(f, asyms@, i + 1, sings@));
            }
        }
        i = i + 1;
    }
    proof {
        assert(unattained_from(f, asyms@, asyms@.len() as int, sings@) =~= Seq::<i128>::empty());
        assert(out@ + Seq::<i128>::empty() =~= out@);
    }
    out
}

/// The open parts of an explicit union: below the first excluded output,
/// between consecutive ones, above the last.
pub open spec fn union_parts_of(es: Seq<i128>, i: int) -> Seq<Ival>
    decreases es.len() - i,
{
    if es.len() == 0 {
        Seq::empty()
    } else if i < 0 {
        Seq::empty()
    } else if i == 0 {
        seq![
            Ival { lo: Ext::NegInf, hi: Ext::Fin(es[0]), lo_open: true, hi_open: true },
        ] + union_parts_of(es, 1)
    } else if i < es.len() {
        seq![
            Ival { lo: Ext::Fin(es[i - 1]), hi: Ext::Fin(es[i]), lo_open: true, hi_open: true },
        ] + union_parts_of(es, i + 1)
    } else {
        seq![
            Ival {
                lo: Ext::Fin(es[es.len() - 1]),
                hi: Ext::PosInf,
                lo_open: true,
                hi_open: true,
            },
        ]
    }
}

/// Build the explicit union decomposition around the excluded outputs.
pub fn build_union_parts(es: &Vec<i128>) -> (r: Vec<Ival>)
    ensures
        r@ == union_parts_of(es@, 0),
{
    let mut out: Vec<Ival> = Vec::new();
    if es.len() == 0 {
        proof {
            assert(out@ =~= union_parts_of(es@, 0));
        }
        return out;
    }
    out.push(Ival { lo: Ext::NegInf, hi: Ext::Fin(es[0]), lo_open: true, hi_open: true });
    let mut i: usize = 1;
    proof {
        assert(out@ =~= seq![
            Ival { lo: Ext::NegInf, hi: Ext::Fin(es@[0]), lo_open: true, hi_open: true },
        ]);
        assert(union_parts_of(es@, 0) == seq![
            Ival { lo: Ext::NegInf, hi: Ext::Fin(es@[0]), lo_open: true, hi_open: true },
        ] + union_parts_of(es@, 1));
    }
    while i < es.len()
        invariant
            1 <= i <= es@.len(),
            es@.len() > 0,
            union_parts_of(es@, 0) == out@ + union_parts_of(es@, i as int),
        decreases es@.len() - i,
    {
        let ghost pre = out@;
        out.push(
            Ival { lo: Ext::Fin(es[i - 1]), hi: Ext::Fin(es[i]), lo_open: true, hi_open: true },
        );
        i = i + 1;
        proof {
            assert(out@ =~= pre + seq![
                Ival {
                    lo: Ext::Fin(es@[i - 2]),
                    hi: Ext::Fin(es@[i - 1]),
                    lo_open: true,
                    hi_open: true,
                },
            ]);
            assert(pre + union_parts_of(es@, i - 1) =~= out@ + union_parts_of(es@, i as int));
        }
    }
    let ghost pre = out@;
    out.push(
        Ival {
            lo: Ext::Fin(es[es.len() - 1]),
            hi: Ext::PosInf,
            lo_open: true,
            hi_open: true,
        },
    );
    proof {
        assert(union_parts_of(es@, es@.len() as int) =~= seq![
            Ival {
                lo: Ext::Fin(es@[es@.len() - 1]),
                hi: Ext::PosInf,
                lo_open: true,
                hi_open: true,
            },
        ]);
        assert(out@ =~= pre + union_parts_of(es@, es@.len() as int));
    }
    out
}

} // verus!

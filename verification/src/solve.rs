//! The inference pipeline.
//!
//! One run walks the fixed stages: domain detection, grid sampling,
//! critical-point search, per-subinterval optimization, limit and
//! singularity analysis, and a final synthesis that merges all evidence
//! with the special-case knowledge base into one consistent answer.  No
//! stage is retried; each either contributes best-effort evidence or, if
//! the whole grid came back undefined, the run short-circuits to an
//! explicit undefined result.  The entire pipeline is a function of the
//! expression text and the callable's mathematical content alone, which
//! is what the determinism law at the bottom of this file states.

use vstd::prelude::*;
use vstd::string::StringSliceAdditionalSpecFns;

use crate::cases::{case_override, lookup_case};
use crate::deriv::{crit_spec, find_critical_points};
use crate::detect::{
    detect_domain, domain_spec, find_denominator_zeros, nice_spec, round_to_nice, zeros_spec,
};
use crate::grid::{generate_grid, grid_spec};
use crate::keys::{contains_spec, contains_sub, lit, match_at, norm_spec, normalize, starts_with};
use crate::limits::{
    analyze_limit, attained_spec, find_horizontal_asymptotes, hasym_spec, limit_spec,
    singularity_asymptotics, value_attained,
};
use crate::model::{
    Confidence, Domain, DomainV, Evidence, NumRange, NumRangeV, RangeShape, RangeShapeV,
    Solution, SolutionV,
};
use crate::nums::{max_i, min_i, Ext, ACH_TOL, INF_RAW, SCALE};
use crate::oracle::RealFn;
use crate::seqs::{sort_dedup, sort_spec};
use crate::synth::{
    brent_widen, brent_widen_spec, build_union_parts, filter_unattained, grid_stats, stats_spec,
    union_parts_of, unattained_from, widen_crit, widen_with_crits, GridStats,
};
use crate::limits::sing_div_from;

verus! {

/// The canonical key of an expression text.
pub open spec fn solve_key(text: Seq<u8>) -> Seq<u8> {
    norm_spec(text)
}

/// The singularities the pipeline works with.
pub open spec fn solve_sings<F: RealFn>(text: Seq<u8>, f: &F) -> Seq<i128> {
    zeros_spec(solve_key(text), f)
}

/// The domain the pipeline reports.
pub open spec fn solve_dom<F: RealFn>(text: Seq<u8>, f: &F) -> DomainV {
    domain_spec(solve_key(text), f, solve_sings(text, f))
}

/// The evaluation grid of the run.
pub open spec fn solve_grid<F: RealFn>(text: Seq<u8>, f: &F) -> Seq<i128> {
    grid_spec(solve_dom(text, f), solve_sings(text, f))
}

/// The grid statistics of the run.
pub open spec fn solve_stats<F: RealFn>(text: Seq<u8>, f: &F) -> GridStats {
    stats_spec(f, solve_grid(text, f))
}

/// The clamped optimizer search window for a domain.
pub open spec fn search_window(dom: DomainV) -> (int, int) {
    let raw: (int, int) = match dom {
        DomainV::Interval(iv) => (
            match iv.lo {
                Ext::Fin(v) => v + 10_000,
                _ => -100 * (SCALE as int),
            },
            match iv.hi {
                Ext::Fin(v) => v - 10_000,
                _ => 100 * (SCALE as int),
            },
        ),
        _ => (-100 * (SCALE as int), 100 * (SCALE as int)),
    };
    let lo = if raw.0 < -100 * (SCALE as int) {
        -100 * (SCALE as int)
    } else {
        raw.0
    };
    let hi0 = if raw.1 > 100 * (SCALE as int) {
        100 * (SCALE as int)
    } else {
        raw.1
    };
    let hi = if hi0 < lo {
        lo
    } else {
        hi0
    };
    (lo, hi)
}

/// The full answer of one inference run, as a function of the expression
/// text and the callable's mathematical content alone.
pub open spec fn solve_spec<F: RealFn>(text: Seq<u8>, f: &F) -> SolutionV {
    let key = solve_key(text);
    let sings = solve_sings(text, f);
    let domv = solve_dom(text, f);
    let st = solve_stats(text, f);
    if !st.any {
        SolutionV { domain: domv, range: Option::None, confidence: Confidence::Undefined }
    } else {
        let (lo1, hi1) = widen_crit(f, crit_spec(f, domv), 0, st.lo, st.hi);
        let win = search_window(domv);
        let d20 = (win.1 - win.0) / 20;
        let (lo2, hi2) = brent_widen_spec(f, win.0 as i128, d20 as i128, 20, lo1, hi1);
        let p0 = hi2 > INF_RAW;
        let n0 = lo2 < -INF_RAW;
        let p1 = p0 || limit_spec(f, 1) == Option::Some(Ext::PosInf) || limit_spec(
            f,
            (-1) as i128,
        ) == Option::Some(Ext::PosInf);
        let n1 = n0 || limit_spec(f, 1) == Option::Some(Ext::NegInf) || limit_spec(
            f,
            (-1) as i128,
        ) == Option::Some(Ext::NegInf);
        let pn2 = sing_div_from(f, sings, 0, p1, n1);
        let excl = unattained_from(f, hasym_spec(f), 0, sings);
        let case = case_override(key);
        let p3 = match case.div {
            Option::Some(d) => d.0,
            Option::None => pn2.0,
        };
        let n3 = match case.div {
            Option::Some(d) => d.1,
            Option::None => pn2.1,
        };
        let lo3 = match case.lo_val {
            Option::Some(v) => v,
            Option::None => lo2,
        };
        let hi3 = match case.hi_val {
            Option::Some(v) => v,
            Option::None => hi2,
        };
        let floorceil = contains_spec(key, "floor".spec_bytes()) || contains_spec(
            key,
            "ceil".spec_bytes(),
        );
        let p4 = p3 || floorceil;
        let n4 = n3 || floorceil;
        let circle = match_at(key, "sqrt(".spec_bytes(), 0) && contains_spec(
            key,
            "-x^2".spec_bytes(),
        );
        let lo5 = if circle {
            0
        } else {
            lo3
        };
        let p5 = if circle {
            false
        } else {
            p4
        };
        let n5 = if circle {
            false
        } else {
            n4
        };
        let rlo = nice_spec(lo5 as int) as i128;
        let rhi = nice_spec(hi3 as int) as i128;
        let flo = if rlo <= rhi {
            rlo
        } else {
            rhi
        };
        let fhi = if rlo <= rhi {
            rhi
        } else {
            rlo
        };
        let blo = if n5 {
            Ext::NegInf
        } else {
            Ext::Fin(flo)
        };
        let bhi = if p5 {
            Ext::PosInf
        } else {
            Ext::Fin(fhi)
        };
        let lo_open0 = if n5 {
            true
        } else {
            !attained_spec(f, flo, sings, ACH_TOL)
        };
        let hi_open0 = if p5 {
            true
        } else {
            !attained_spec(f, fhi, sings, ACH_TOL)
        };
        let lo_open1 = if !n5 {
            match case.lo_open {
                Option::Some(b) => b,
                Option::None => lo_open0,
            }
        } else {
            lo_open0
        };
        let hi_open1 = if !p5 {
            match case.hi_open {
                Option::Some(b) => b,
                Option::None => hi_open0,
            }
        } else {
            hi_open0
        };
        let lo_open = if circle {
            false
        } else {
            lo_open1
        };
        let hi_open = if circle {
            false
        } else {
            hi_open1
        };
        let shape: RangeShapeV = match case.shape {
            Option::Some(s) => s,
            Option::None => {
                if floorceil {
                    RangeShapeV::IntegerLattice
                } else if excl.len() > 0 && p5 && n5 {
                    RangeShapeV::UnionParts { parts: union_parts_of(sort_spec(excl), 0) }
                } else if st.has_pos && st.has_neg && !st.near_zero && p5 && n5 {
                    if st.min_abs > 9 * (SCALE / 10) {
                        RangeShapeV::UnionExterior { bound: st.min_abs, closed: false }
                    } else {
                        RangeShapeV::SplitAt { excluded: 0 }
                    }
                } else {
                    RangeShapeV::Simple
                }
            },
        };
        let conf = if case.hit || sings.len() > 0 || excl.len() > 0 || circle || floorceil {
            Confidence::Exact
        } else {
            Confidence::Hybrid
        };
        SolutionV {
            domain: domv,
            range: Option::Some(
                NumRangeV { lo: blo, hi: bhi, lo_open, hi_open, shape },
            ),
            confidence: conf,
        }
    }
}

/// Run the engine on (already preprocessed) expression text and an opaque
/// callable.  The answer is a pure function of the text and the
/// callable's content (see [`lemma_solve_deterministic`]); whenever the
/// grid yields at least one defined value the reported range satisfies
/// `lo <= hi`, and when every grid point is undefined the result is the
/// explicit undefined marker with no range at all.
#[verifier::rlimit(100)]
pub fn solve_for<F: RealFn>(text: &Vec<u8>, f: &F) -> (r: Solution)
    ensures
        r.dv() == solve_spec(text@, f),
        r.wf(),
        solve_stats(text@, f).any ==> r.range is Some && r.confidence != Confidence::Undefined,
        !solve_stats(text@, f).any ==> r.range is None && r.confidence == Confidence::Undefined,
{
    let key = normalize(text);
    let sings = find_denominator_zeros(&key, f);
    let dom = detect_domain(&key, f, &sings);
    let grid = generate_grid(&dom, &sings);
    let st = grid_stats(f, &grid);
    if !st.any {
        return Solution {
            domain: dom,
            range: Option::None,
            confidence: Confidence::Undefined,
        };
    }
    let crits = find_critical_points(f, &dom);
    let (lo1, hi1) = widen_with_crits(f, &crits, st.lo, st.hi);
    let (wlo, whi): (i128, i128) = match &dom {
        Domain::Interval(iv) => (
            match iv.lo {
                Ext::Fin(v) => v + 10_000,
                _ => -100 * SCALE,
            },
            match iv.hi {
                Ext::Fin(v) => v - 10_000,
                _ => 100 * SCALE,
            },
        ),
        _ => (-100 * SCALE, 100 * SCALE),
    };
    let slo = if wlo < -100 * SCALE {
        -100 * SCALE
    } else {
        wlo
    };
    let shi0 = if whi > 100 * SCALE {
        100 * SCALE
    } else {
        whi
    };
    let shi = if shi0 < slo {
        slo
    } else {
        shi0
    };
    let d20 = (shi - slo) / 20;
    proof {
        assert((slo as int, shi as int) == search_window(dom.dv()));
        vstd::arithmetic::div_mod::lemma_div_is_ordered(
            (shi - slo) as int,
            200 * (SCALE as int),
            20,
        );
    }
    let (lo2, hi2) = brent_widen(f, slo, d20, lo1, hi1);
    let mut div_pos = hi2 > INF_RAW;
    let mut div_neg = lo2 < -INF_RAW;
    match analyze_limit(f, true) {
        Option::Some(Ext::PosInf) => {
            div_pos = true;
        },
        Option::Some(Ext::NegInf) => {
            div_neg = true;
        },
        _ => {},
    }
    match analyze_limit(f, false) {
        Option::Some(Ext::PosInf) => {
            div_pos = true;
        },
        Option::Some(Ext::NegInf) => {
            div_neg = true;
        },
        _ => {},
    }
    let (div_pos2, div_neg2) = singularity_asymptotics(f, &sings, div_pos, div_neg);
    let asyms = find_horizontal_asymptotes(f);
    let excl = filter_unattained(f, &asyms, &sings);
    let ev = Evidence {
        any: st.any,
        lo: lo2,
        hi: hi2,
        div_pos: div_pos2,
        div_neg: div_neg2,
        excluded_out: excl,
    };
    let case = lookup_case(&key);
    let (mut p, mut n) = match case.div {
        Option::Some(d) => d,
        Option::None => (ev.div_pos, ev.div_neg),
    };
    let lo3 = match case.lo_val {
        Option::Some(v) => v,
        Option::None => ev.lo,
    };
    let hi3 = match case.hi_val {
        Option::Some(v) => v,
        Option::None => ev.hi,
    };
    let floorceil = contains_sub(&key, &lit("floor")) || contains_sub(&key, &lit("ceil"));
    if floorceil {
        p = true;
        n = true;
    }
    let circle = starts_with(&key, &lit("sqrt(")) && contains_sub(&key, &lit("-x^2"));
    let lo5 = if circle {
        0
    } else {
        lo3
    };
    if circle {
        p = false;
        n = false;
    }
    let rlo = round_to_nice(lo5);
    let rhi = round_to_nice(hi3);
    let flo = min_i(rlo, rhi);
    let fhi = max_i(rlo, rhi);
    let blo = if n {
        Ext::NegInf
    } else {
        Ext::Fin(flo)
    };
    let bhi = if p {
        Ext::PosInf
    } else {
        Ext::Fin(fhi)
    };
    let mut lo_open = if n {
        true
    } else {
        !value_attained(f, flo, &sings, ACH_TOL)
    };
    let mut hi_open = if p {
        true
    } else {
        !value_attained(f, fhi, &sings, ACH_TOL)
    };
    if !n {
        match case.lo_open {
            Option::Some(b) => {
                lo_open = b;
            },
            Option::None => {},
        }
    }
    if !p {
        match case.hi_open {
            Option::Some(b) => {
                hi_open = b;
            },
            Option::None => {},
        }
    }
    if circle {
        lo_open = false;
        hi_open = false;
    }
    let shape: RangeShape = match case.shape {
        Option::Some(s) => s,
        Option::None => {
            if floorceil {
                RangeShape::IntegerLattice
            } else if ev.excluded_out.len() > 0 && p && n {
                let sorted = sort_dedup(&ev.excluded_out);
                RangeShape::UnionParts { parts: build_union_parts(&sorted) }
            } else if st.has_pos && st.has_neg && !st.near_zero && p && n {
                if st.min_abs > 9 * (SCALE / 10) {
                    RangeShape::UnionExterior { bound: st.min_abs, closed: false }
                } else {
                    RangeShape::SplitAt { excluded: 0 }
                }
            } else {
                RangeShape::Simple
            }
        },
    };
    let conf = if case.hit || sings.len() > 0 || ev.excluded_out.len() > 0 || circle
        || floorceil {
        Confidence::Exact
    } else {
        Confidence::Hybrid
    };
    Solution {
        domain: dom,
        range: Option::Some(
            NumRange { lo: blo, hi: bhi, lo_open, hi_open, shape },
        ),
        confidence: conf,
    }
}

/// Ordered-range law: for every expression and callable whose grid
/// yields at least one defined value, the engine reports a range and its
/// lower bound never exceeds its upper bound.
pub proof fn lemma_range_ordered<F: RealFn>(text: Seq<u8>, f: &F)
    requires
        solve_stats(text, f).any,
    ensures
        solve_spec(text, f).range is Some,
        solve_spec(text, f).range.unwrap().lo.le(solve_spec(text, f).range.unwrap().hi),
{
}

/// Empty-evidence law: when the evaluator comes back undefined on every
/// grid point, the engine reports the explicit undefined marker and no
/// range at all — never a spurious degenerate interval.
pub proof fn lemma_empty_grid_is_undefined<F: RealFn>(text: Seq<u8>, f: &F)
    requires
        !solve_stats(text, f).any,
    ensures
        solve_spec(text, f).confidence is Undefined,
        solve_spec(text, f).range is None,
{
}

/// Idempotence of the engine: the answer is a mathematical function of
/// the expression text and the callable's content, so two runs on the
/// same input return identical domain and range structures; no hidden
/// mutable state can influence a result.
pub proof fn lemma_solve_deterministic<F: RealFn>(
    text: Seq<u8>,
    f: &F,
    r1: SolutionV,
    r2: SolutionV,
)
    requires
        r1 == solve_spec(text, f),
        r2 == solve_spec(text, f),
    ensures
        r1 == r2,
{
}

} // verus!

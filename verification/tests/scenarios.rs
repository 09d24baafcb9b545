//! End-to-end scenarios: the engine driven by a real expression evaluator.

use realrange::keys::preprocess;
use realrange::deriv::find_critical_points;
use realrange::model::{Confidence, Domain, RangeShape, Solution};
use realrange::nums::{Ext, HALF_PI_RAW, PI_RAW, SCALE};
use realrange::oracle::{NoWhere, RealFn};
use realrange::solve::solve_for;

/// A callable backed by the expression evaluator, in fixed-point form.
struct MevalFn {
    f: Box<dyn Fn(f64) -> f64>,
}

impl MevalFn {
    fn new(expr: &str) -> MevalFn {
        let e: meval::Expr = expr.parse().unwrap();
        let f = e.bind("x").unwrap();
        MevalFn { f: Box::new(f) }
    }
}

const CAP: i128 = 1_000_000_000_000_000_000_000_000_000;

impl RealFn for MevalFn {
    // The ghost member of the trait is erased at run time and never
    // called; any body satisfies the compiler here.
    fn spec_eval(&self, _x: i128) -> Option<i128> {
        None
    }

    fn eval(&self, x: i128) -> Option<i128> {
        let xf = (x as f64) / 1.0e12;
        let y = (self.f)(xf);
        if !y.is_finite() {
            return None;
        }
        let r = y * 1.0e12;
        if !r.is_finite() {
            return None;
        }
        if r > 1.0e27 {
            Some(CAP)
        } else if r < -1.0e27 {
            Some(-CAP)
        } else {
            Some(r.round() as i128)
        }
    }
}

fn solve_expr(expr: &str) -> Solution {
    let pp = preprocess(&expr.as_bytes().to_vec());
    let text = String::from_utf8(pp.clone()).unwrap();
    let f = MevalFn::new(&text);
    solve_for(&pp, &f)
}

#[test]
fn sine_is_exactly_minus_one_to_one() {
    let s = solve_expr("sin(x)");
    assert!(matches!(s.domain, Domain::AllReals));
    let r = s.range.expect("range");
    assert_eq!(r.lo, Ext::Fin(-SCALE));
    assert_eq!(r.hi, Ext::Fin(SCALE));
    assert!(!r.lo_open);
    assert!(!r.hi_open);
    assert!(matches!(r.shape, RangeShape::Simple));
    assert_eq!(s.confidence, Confidence::Exact);
}

#[test]
fn reciprocal_splits_at_zero() {
    let s = solve_expr("1/x");
    match &s.domain {
        Domain::ExcludedPoints { excluded } => {
            assert_eq!(excluded.as_slice(), &[0i128]);
        }
        other => panic!("domain was {:?}", other),
    }
    let r = s.range.expect("range");
    assert!(matches!(r.shape, RangeShape::SplitAt { excluded: 0 }));
    assert_eq!(s.confidence, Confidence::Exact);
}

#[test]
fn square_is_closed_zero_to_open_infinity() {
    let s = solve_expr("x^2");
    assert!(matches!(s.domain, Domain::AllReals));
    let r = s.range.expect("range");
    assert_eq!(r.lo, Ext::Fin(0));
    assert_eq!(r.hi, Ext::PosInf);
    assert!(!r.lo_open);
    assert!(r.hi_open);
    assert_eq!(s.confidence, Confidence::Exact);
}

#[test]
fn circle_root_has_closed_disk_and_closed_range() {
    let s = solve_expr("sqrt(16 - x^2)");
    match &s.domain {
        Domain::Interval(iv) => {
            assert_eq!(iv.lo, Ext::Fin(-4 * SCALE));
            assert_eq!(iv.hi, Ext::Fin(4 * SCALE));
            assert!(!iv.lo_open);
            assert!(!iv.hi_open);
        }
        other => panic!("domain was {:?}", other),
    }
    let r = s.range.expect("range");
    assert_eq!(r.lo, Ext::Fin(0));
    assert_eq!(r.hi, Ext::Fin(4 * SCALE));
    assert!(!r.lo_open);
    assert!(!r.hi_open);
}

#[test]
fn tangent_excludes_half_pi_periodically() {
    let s = solve_expr("tan(x)");
    match &s.domain {
        Domain::PeriodicExclusion { offset, period } => {
            assert_eq!(*offset, HALF_PI_RAW);
            assert_eq!(*period, PI_RAW);
        }
        other => panic!("domain was {:?}", other),
    }
    let r = s.range.expect("range");
    assert_eq!(r.lo, Ext::NegInf);
    assert_eq!(r.hi, Ext::PosInf);
    assert!(r.lo_open);
    assert!(r.hi_open);
    assert_eq!(s.confidence, Confidence::Exact);
}

#[test]
fn all_undefined_grid_yields_undefined_marker() {
    let f = NoWhere;
    let text = b"mystery(x)".to_vec();
    let s = solve_for(&text, &f);
    assert_eq!(s.confidence, Confidence::Undefined);
    assert!(s.range.is_none());
}

#[test]
fn two_runs_agree_exactly() {
    let s1 = solve_expr("x^2");
    let s2 = solve_expr("x^2");
    assert_eq!(s1, s2);
    let t1 = solve_expr("exp(x)");
    let t2 = solve_expr("exp(x)");
    assert_eq!(t1, t2);
}

#[test]
fn range_bounds_are_ordered_when_evidence_exists() {
    for expr in ["sin(x)", "x^3", "exp(x)", "1/(1+x^2)", "x^2"] {
        let s = solve_expr(expr);
        let r = s.range.expect("range");
        match (r.lo, r.hi) {
            (Ext::Fin(a), Ext::Fin(b)) => assert!(a <= b, "{expr}"),
            (Ext::PosInf, Ext::Fin(_)) => panic!("{expr}: inverted"),
            (Ext::Fin(_), Ext::NegInf) => panic!("{expr}: inverted"),
            (Ext::PosInf, Ext::NegInf) => panic!("{expr}: inverted"),
            _ => {}
        }
    }
}

#[test]
fn reported_domain_flags_agree_with_probing() {
    let expr = "sqrt(16 - x^2)";
    let pp = preprocess(&expr.as_bytes().to_vec());
    let text = String::from_utf8(pp.clone()).unwrap();
    let f = MevalFn::new(&text);
    let s = solve_for(&pp, &f);
    match &s.domain {
        Domain::Interval(iv) => {
            if let Ext::Fin(v) = iv.lo {
                let defined = f.eval(v).is_some();
                assert_eq!(defined, !iv.lo_open);
            }
            if let Ext::Fin(v) = iv.hi {
                let defined = f.eval(v).is_some();
                assert_eq!(defined, !iv.hi_open);
            }
        }
        other => panic!("domain was {:?}", other),
    }
}

#[test]
fn logarithm_domain_is_open_positive_reals() {
    let s = solve_expr("ln(x)");
    match &s.domain {
        Domain::Interval(iv) => {
            assert_eq!(iv.lo, Ext::Fin(0));
            assert_eq!(iv.hi, Ext::PosInf);
            assert!(iv.lo_open);
            assert!(iv.hi_open);
        }
        other => panic!("domain was {:?}", other),
    }
    let r = s.range.expect("range");
    assert_eq!(r.lo, Ext::NegInf);
    assert_eq!(r.hi, Ext::PosInf);
}

#[test]
fn derivative_sign_change_is_found_off_grid() {
    let f = MevalFn::new("x^2 - x");
    let crits = find_critical_points(&f, &Domain::AllReals);
    assert!(crits.iter().any(|&c| (c - SCALE / 2).abs() < SCALE / 2));
}

#[test]
fn floor_yields_the_integer_lattice() {
    let s = solve_expr("floor(x)");
    let r = s.range.expect("range");
    assert!(matches!(r.shape, RangeShape::IntegerLattice));
    assert_eq!(r.lo, Ext::NegInf);
    assert_eq!(r.hi, Ext::PosInf);
    assert_eq!(s.confidence, Confidence::Exact);
}

#[test]
fn cosecant_is_a_closed_exterior_union() {
    let s = solve_expr("1/sin(x)");
    match &s.domain {
        Domain::PeriodicExclusion { offset, period } => {
            assert_eq!(*offset, 0);
            assert_eq!(*period, PI_RAW);
        }
        other => panic!("domain was {:?}", other),
    }
    let r = s.range.expect("range");
    assert!(matches!(r.shape, RangeShape::UnionExterior { bound, closed: true } if bound == SCALE));
}

#[test]
fn quintic_is_hybrid_with_unbounded_range() {
    let s = solve_expr("x^5");
    let r = s.range.expect("range");
    assert_eq!(r.lo, Ext::NegInf);
    assert_eq!(r.hi, Ext::PosInf);
    assert_eq!(s.confidence, Confidence::Hybrid);
}

#[test]
fn linear_factor_hint_excludes_its_root() {
    let s = solve_expr("1/(x-3)");
    match &s.domain {
        Domain::ExcludedPoints { excluded } => {
            assert_eq!(excluded.as_slice(), &[3 * SCALE]);
        }
        other => panic!("domain was {:?}", other),
    }
}

#[test]
fn quadratic_factor_hint_excludes_both_roots() {
    let s = solve_expr("1/(x^2-4)");
    match &s.domain {
        Domain::ExcludedPoints { excluded } => {
            assert_eq!(excluded.as_slice(), &[-2 * SCALE, 2 * SCALE]);
        }
        other => panic!("domain was {:?}", other),
    }
}

#[test]
fn square_root_domain_is_closed_at_zero() {
    let s = solve_expr("sqrt(x)");
    match &s.domain {
        Domain::Interval(iv) => {
            assert_eq!(iv.lo, Ext::Fin(0));
            assert_eq!(iv.hi, Ext::PosInf);
            assert!(!iv.lo_open);
            assert!(iv.hi_open);
        }
        other => panic!("domain was {:?}", other),
    }
    let r = s.range.expect("range");
    assert_eq!(r.lo, Ext::Fin(0));
    assert!(!r.lo_open);
    assert_eq!(r.hi, Ext::PosInf);
}

#[test]
fn exterior_union_is_detected_numerically() {
    // Not in the knowledge base: the shape must come from the numeric
    // rule (samples straddle zero, none near it, smallest magnitude
    // above nine tenths, both tails unbounded).
    let s = solve_expr("1/(sin(x)^3)");
    let r = s.range.expect("range");
    match r.shape {
        RangeShape::UnionExterior { bound, closed } => {
            assert!(!closed);
            assert!(bound >= SCALE);
            assert!(bound < SCALE + SCALE / 100);
        }
        other => panic!("shape was {:?}", other),
    }
}

#[test]
fn arc_tangent_is_open_half_pi_band() {
    let s = solve_expr("atan(x)");
    let r = s.range.expect("range");
    assert_eq!(r.lo, Ext::Fin(-HALF_PI_RAW));
    assert_eq!(r.hi, Ext::Fin(HALF_PI_RAW));
    assert!(r.lo_open);
    assert!(r.hi_open);
}

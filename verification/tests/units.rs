//! Component-level checks: text handling, snapping, sorting, optimization,
//! limits and rendering on concrete values.

use realrange::detect::{isqrt, round_to_nice};
use realrange::keys::{normalize, preprocess};
use realrange::limits::{analyze_limit, value_attained};
use realrange::model::{Domain, Ival, NumRange, RangeShape};
use realrange::nums::{Ext, ACH_TOL, PI_RAW, SCALE};
use realrange::optimize::brent_extremize;
use realrange::oracle::{AbsVal, NoWhere, RealFn, Recip, Square, TableFn};
use realrange::render::{ext_symbolic, format_symbolic, render_domain, render_range};
use realrange::seqs::{merge_dedup, sort_dedup};
use realrange::solve::solve_for;

#[test]
fn normalization_lowers_and_strips() {
    let t = b"Sin( X ) + 1".to_vec();
    assert_eq!(normalize(&t), b"sin(x)+1".to_vec());
}

#[test]
fn preprocessing_rewrites_power_and_logarithm() {
    let t = b"x**2 + log(x)".to_vec();
    assert_eq!(preprocess(&t), b"x^2 + ln(x)".to_vec());
}

#[test]
fn snapping_finds_whole_numbers_and_fractions() {
    assert_eq!(round_to_nice(4 * SCALE - 12), 4 * SCALE);
    assert_eq!(round_to_nice(SCALE / 2 + 400), SCALE / 2);
    let third = SCALE / 3;
    assert_eq!(round_to_nice(third), 333_333_333_333);
    assert_eq!(round_to_nice(123_456_789_000), 123_456_789_000);
}

#[test]
fn integer_square_root_is_exact() {
    assert_eq!(isqrt(0), 0);
    assert_eq!(isqrt(16), 4);
    assert_eq!(isqrt(15), 3);
    assert_eq!(isqrt(16_000_000_000_000_000_000_000_000), 4_000_000_000_000);
}

#[test]
fn merging_keeps_order_and_drops_repeats() {
    let a = vec![1i128, 3, 5];
    let b = vec![2i128, 3, 6];
    assert_eq!(merge_dedup(&a, &b), vec![1i128, 2, 3, 5, 6]);
    let u = vec![9i128, 1, 5, 1];
    assert_eq!(sort_dedup(&u), vec![1i128, 5, 9]);
}

#[test]
fn optimizer_finds_the_square_minimum() {
    let f = Square;
    let r = brent_extremize(&f, -5 * SCALE, 5 * SCALE, false).expect("first trial defined");
    assert!(r.1 >= 0);
    assert!(r.1 < SCALE / 1000);
    let m = brent_extremize(&f, -5 * SCALE, 5 * SCALE, true).expect("first trial defined");
    assert!(m.1 > 5 * SCALE);
}

#[test]
fn limits_classify_growth_and_silence() {
    assert_eq!(analyze_limit(&Square, true), Some(Ext::PosInf));
    assert_eq!(analyze_limit(&NoWhere, true), None);
}

#[test]
fn reachability_probe_sees_attained_values_only() {
    let zeros: Vec<i128> = Vec::new();
    assert!(value_attained(&AbsVal, 0, &zeros, ACH_TOL));
    assert!(!value_attained(&Recip, 0, &zeros, ACH_TOL));
}

#[test]
fn table_function_answers_pointwise() {
    let f = TableFn { pts: vec![(0, 7 * SCALE), (SCALE, 9 * SCALE)] };
    assert_eq!(f.eval(0), Some(7 * SCALE));
    assert_eq!(f.eval(SCALE), Some(9 * SCALE));
    assert_eq!(f.eval(5), None);
}

#[test]
fn single_point_table_gives_degenerate_closed_range() {
    let f = TableFn { pts: vec![(0, 7 * SCALE)] };
    let s = solve_for(&b"data(x)".to_vec(), &f);
    let r = s.range.expect("range");
    assert_eq!(r.lo, Ext::Fin(7 * SCALE));
    assert_eq!(r.hi, Ext::Fin(7 * SCALE));
    assert!(!r.lo_open);
    assert!(!r.hi_open);
}

#[test]
fn symbolic_tokens_for_known_constants() {
    assert_eq!(format_symbolic(PI_RAW + 5_000), b"pi".to_vec());
    assert_eq!(format_symbolic(-PI_RAW), b"-pi".to_vec());
    assert_eq!(format_symbolic(SCALE / 2), b"1/2".to_vec());
    assert_eq!(format_symbolic(0), b"0".to_vec());
    assert_eq!(format_symbolic(2_250_000_000_000), b"9/4".to_vec());
    assert_eq!(format_symbolic(1_234_567_000_000), b"1.234567".to_vec());
    assert_eq!(format_symbolic(3 * SCALE), b"3".to_vec());
    assert_eq!(ext_symbolic(&Ext::PosInf), b"oo".to_vec());
    assert_eq!(ext_symbolic(&Ext::NegInf), b"-oo".to_vec());
}

#[test]
fn domain_rendering_matches_the_notation() {
    assert_eq!(render_domain(&Domain::AllReals), b"Reals".to_vec());
    assert_eq!(render_domain(&Domain::Empty), b"EmptySet".to_vec());
    let iv = Ival { lo: Ext::Fin(-SCALE), hi: Ext::Fin(SCALE), lo_open: false, hi_open: false };
    assert_eq!(render_domain(&Domain::Interval(iv)), b"Interval(-1, 1)".to_vec());
    let d = Domain::ExcludedPoints { excluded: vec![0] };
    assert_eq!(render_domain(&d), b"Complement(Reals, {0})".to_vec());
    let p = Domain::PeriodicExclusion { offset: 0, period: PI_RAW };
    assert_eq!(
        render_domain(&p),
        b"Complement(Reals, ImageSet(Lambda(_n, _n*pi), Integers))".to_vec()
    );
}

#[test]
fn range_rendering_honours_the_shape() {
    let split = NumRange {
        lo: Ext::NegInf,
        hi: Ext::PosInf,
        lo_open: true,
        hi_open: true,
        shape: RangeShape::SplitAt { excluded: 0 },
    };
    assert_eq!(
        render_range(&split),
        b"Union(Interval.open(-oo, 0), Interval.open(0, oo))".to_vec()
    );
    let cosec = NumRange {
        lo: Ext::NegInf,
        hi: Ext::PosInf,
        lo_open: true,
        hi_open: true,
        shape: RangeShape::UnionExterior { bound: SCALE, closed: true },
    };
    assert_eq!(
        render_range(&cosec),
        b"Union(Interval(-oo, -1], Interval[1, oo))".to_vec()
    );
    let simple = NumRange {
        lo: Ext::Fin(0),
        hi: Ext::PosInf,
        lo_open: false,
        hi_open: true,
        shape: RangeShape::Simple,
    };
    assert_eq!(render_range(&simple), b"Interval.Ropen(0, oo)".to_vec());
    let latt = NumRange {
        lo: Ext::NegInf,
        hi: Ext::PosInf,
        lo_open: true,
        hi_open: true,
        shape: RangeShape::IntegerLattice,
    };
    assert_eq!(render_range(&latt), b"Integers".to_vec());
}

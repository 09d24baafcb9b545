//! Domain detection.
//!
//! Structural hints in the expression text trigger targeted numeric
//! searches (a bisection for the edge of a root's validity disk, a sign
//! probe for a logarithm); with no hint, a fixed scan looks for isolated
//! singularities, refining each by bisection.  When every heuristic comes
//! up empty the domain defaults to all reals, which is a conservative
//! default, not a proof.

use vstd::prelude::*;
use vstd::string::StringSliceAdditionalSpecFns;

use crate::keys::{
    contains_spec, contains_sub, div_lin_from, div_sq_from, eq_bytes, find_div_lin, find_div_sq,
    lit,
};
use crate::model::{Domain, DomainV, Ival};
use crate::nums::{
    clip, div_round, div_round_spec, favg, favg_spec, Ext, ACH_TOL, CLIP_CAP, HALF_PI_RAW,
    HUNDRED_RAW, PI_RAW, SCALE, SQRT2_RAW, SQRT3_RAW, SQRT5_RAW, ZERO_EPS,
};
use crate::oracle::{obs, probe, RealFn};
use crate::seqs::{sort_dedup, sort_spec, sorted_strict};

verus! {

/// A value within cap range for arithmetic below.
pub open spec fn capped(v: i128) -> bool {
    -CLIP_CAP <= v <= CLIP_CAP
}

/// Snap to the nearest whole number if closer than the snap tolerance.
pub open spec fn int_snap(v: int) -> Option<int> {
    let r = div_round_spec(v, SCALE as int) * (SCALE as int);
    if -(ZERO_EPS as int) < v - r < ZERO_EPS as int {
        Option::Some(r)
    } else {
        Option::None
    }
}

/// Snap to the nearest multiple of `1/d` if closer than the snap tolerance.
pub open spec fn frac_snap(v: int, d: int) -> Option<int> {
    let n = div_round_spec(v * d, SCALE as int);
    if -(ZERO_EPS as int) * d < v * d - n * (SCALE as int) < (ZERO_EPS as int) * d {
        Option::Some(div_round_spec(n * (SCALE as int), d))
    } else {
        Option::None
    }
}

/// Snap to `c` or `-c` if closer than the snap tolerance.
pub open spec fn const_snap(v: int, c: int) -> Option<int> {
    if -(ZERO_EPS as int) < v - c < ZERO_EPS as int {
        Option::Some(c)
    } else if -(ZERO_EPS as int) < v + c < ZERO_EPS as int {
        Option::Some(-c)
    } else {
        Option::None
    }
}

/// Clamp into the value cap (spec-level, over `int`).
pub open spec fn cl_spec(v: int) -> int {
    if v > CLIP_CAP {
        CLIP_CAP as int
    } else if v < -CLIP_CAP {
        -(CLIP_CAP as int)
    } else {
        v
    }
}

/// The raw "nice" candidate: a whole number, a small fraction, or a
/// square-root constant; otherwise the value itself.
pub open spec fn nice_core(v: int) -> int {
    if int_snap(v) is Some {
        int_snap(v).unwrap()
    } else if frac_snap(v, 2) is Some {
        frac_snap(v, 2).unwrap()
    } else if frac_snap(v, 3) is Some {
        frac_snap(v, 3).unwrap()
    } else if frac_snap(v, 4) is Some {
        frac_snap(v, 4).unwrap()
    } else if frac_snap(v, 5) is Some {
        frac_snap(v, 5).unwrap()
    } else if frac_snap(v, 6) is Some {
        frac_snap(v, 6).unwrap()
    } else if frac_snap(v, 8) is Some {
        frac_snap(v, 8).unwrap()
    } else if frac_snap(v, 10) is Some {
        frac_snap(v, 10).unwrap()
    } else if const_snap(v, SQRT2_RAW as int) is Some {
        const_snap(v, SQRT2_RAW as int).unwrap()
    } else if const_snap(v, SQRT3_RAW as int) is Some {
        const_snap(v, SQRT3_RAW as int).unwrap()
    } else if const_snap(v, SQRT5_RAW as int) is Some {
        const_snap(v, SQRT5_RAW as int).unwrap()
    } else {
        v
    }
}

/// Round to the nearest "nice" value, clamped into the value cap.
pub open spec fn nice_spec(v: int) -> int {
    cl_spec(nice_core(v))
}

fn int_snap_exec(v: i128) -> (r: Option<i128>)
    requires
        capped(v),
    ensures
        match r {
            Option::Some(x) => int_snap(v as int) == Option::Some(x as int),
            Option::None => int_snap(v as int) is None,
        },
{
    let q = div_round(v, SCALE);
    let r = q * SCALE;
    let d = v - r;
    if -ZERO_EPS < d && d < ZERO_EPS {
        Option::Some(r)
    } else {
        Option::None
    }
}

fn frac_snap_exec(v: i128, d: i128) -> (r: Option<i128>)
    requires
        capped(v),
        2 <= d <= 10,
    ensures
        match r {
            Option::Some(x) => frac_snap(v as int, d as int) == Option::Some(x as int),
            Option::None => frac_snap(v as int, d as int) is None,
        },
{
    proof {
        assert(-10 * CLIP_CAP <= v * d <= 10 * CLIP_CAP) by (nonlinear_arith)
            requires
                capped(v),
                2 <= d <= 10,
        ;
    }
    let vd = v * d;
    let n = div_round(vd, SCALE);
    proof {
        assert(vd >= 0 ==> (vd as int) / (SCALE as int) <= 10 * CLIP_CAP / (SCALE as int)) by {
            if vd >= 0 {
                vstd::arithmetic::div_mod::lemma_div_is_ordered(
                    vd as int,
                    10 * CLIP_CAP,
                    SCALE as int,
                );
            }
        }
        assert(vd < 0 ==> (-(vd as int)) / (SCALE as int) <= 10 * CLIP_CAP / (SCALE as int)) by {
            if vd < 0 {
                vstd::arithmetic::div_mod::lemma_div_is_ordered(
                    -(vd as int),
                    10 * CLIP_CAP,
                    SCALE as int,
                );
            }
        }
    }
    let e = vd - n * SCALE;
    proof {
        assert(0 < ZERO_EPS * d <= 10_000) by (nonlinear_arith)
            requires
                2 <= d <= 10,
                ZERO_EPS == 1000i128,
        ;
    }
    if -(ZERO_EPS * d) < e && e < ZERO_EPS * d {
        Option::Some(div_round(n * SCALE, d))
    } else {
        Option::None
    }
}

fn const_snap_exec(v: i128, c: i128) -> (r: Option<i128>)
    requires
        capped(v),
        0 < c < SCALE * 10,
    ensures
        match r {
            Option::Some(x) => const_snap(v as int, c as int) == Option::Some(x as int),
            Option::None => const_snap(v as int, c as int) is None,
        },
{
    let d1 = v - c;
    if -ZERO_EPS < d1 && d1 < ZERO_EPS {
        return Option::Some(c);
    }
    let d2 = v + c;
    if -ZERO_EPS < d2 && d2 < ZERO_EPS {
        return Option::Some(-c);
    }
    Option::None
}

/// Round to the nearest "nice" value (whole number, small fraction, root
/// constant) within tolerance; otherwise return the value unchanged.
pub fn round_to_nice(v: i128) -> (r: i128)
    requires
        capped(v),
    ensures
        r == nice_spec(v as int),
        capped(r),
{
    if let Option::Some(x) = int_snap_exec(v) {
        return clip(x);
    }
    if let Option::Some(x) = frac_snap_exec(v, 2) {
        return clip(x);
    }
    if let Option::Some(x) = frac_snap_exec(v, 3) {
        return clip(x);
    }
    if let Option::Some(x) = frac_snap_exec(v, 4) {
        return clip(x);
    }
    if let Option::Some(x) = frac_snap_exec(v, 5) {
        return clip(x);
    }
    if let Option::Some(x) = frac_snap_exec(v, 6) {
        return clip(x);
    }
    if let Option::Some(x) = frac_snap_exec(v, 8) {
        return clip(x);
    }
    if let Option::Some(x) = frac_snap_exec(v, 10) {
        return clip(x);
    }
    if let Option::Some(x) = const_snap_exec(v, SQRT2_RAW) {
        return clip(x);
    }
    if let Option::Some(x) = const_snap_exec(v, SQRT3_RAW) {
        return clip(x);
    }
    if let Option::Some(x) = const_snap_exec(v, SQRT5_RAW) {
        return clip(x);
    }
    clip(v)
}

/// The whole-number square root, as picked out by its defining property.
pub open spec fn isqrt_spec(v: int) -> int {
    choose|r: int| 0 <= r && #[trigger] (r * r) <= v < (r + 1) * (r + 1)
}

proof fn lemma_isqrt_unique(v: int, r1: int, r2: int)
    requires
        0 <= r1 && r1 * r1 <= v < (r1 + 1) * (r1 + 1),
        0 <= r2 && r2 * r2 <= v < (r2 + 1) * (r2 + 1),
    ensures
        r1 == r2,
{
    assert(r1 == r2) by (nonlinear_arith)
        requires
            0 <= r1 && r1 * r1 <= v < (r1 + 1) * (r1 + 1),
            0 <= r2 && r2 * r2 <= v < (r2 + 1) * (r2 + 1),
    ;
}

/// Whole-number square root by bisection.
pub fn isqrt(v: i128) -> (r: i128)
    requires
        0 <= v,
        v <= 15_000_000_000_000_000_000_000_000_000_000,
    ensures
        r == isqrt_spec(v as int),
        0 <= r <= 4_000_000_000_000_000,
        r * r <= v,
{
    let mut lo: i128 = 0;
    let mut hi: i128 = 4_000_000_000_000_000;
    proof {
        assert(hi * hi > v) by (nonlinear_arith)
            requires
                hi == 4_000_000_000_000_000i128,
                v <= 15_000_000_000_000_000_000_000_000_000_000,
        ;
    }
    while lo + 1 < hi
        invariant
            0 <= lo < hi <= 4_000_000_000_000_000,
            lo * lo <= v,
            hi * hi > v,
        decreases hi - lo,
    {
        let mid = lo + (hi - lo) / 2;
        proof {
            assert(mid * mid <= 4_000_000_000_000_000i128 * 4_000_000_000_000_000i128)
                by (nonlinear_arith)
                requires
                    0 <= mid <= 4_000_000_000_000_000i128,
            ;
        }
        if mid * mid <= v {
            lo = mid;
        } else {
            hi = mid;
        }
    }
    proof {
        assert(lo * lo <= v < (lo + 1) * (lo + 1));
        assert(exists|r: int| 0 <= r && #[trigger] (r * r) <= v < (r + 1) * (r + 1)) by {
            assert(0 <= lo as int && (lo as int) * (lo as int) <= v < ((lo as int) + 1) * ((
            lo as int) + 1));
        }
        let w = isqrt_spec(v as int);
        assert(0 <= w && w * w <= v < (w + 1) * (w + 1));
        lemma_isqrt_unique(v as int, lo as int, w);
    }
    lo
}

/// Bisection refinement of a singularity inside `[lo, hi]`, following the
/// defined/undefined pattern at the bracket ends; narrows to one raw unit.
pub open spec fn refine_spec<F: RealFn>(f: &F, lo: i128, hi: i128) -> Option<i128>
    recommends
        lo < hi,
    decreases hi - lo,
{
    if hi - lo <= 1 {
        Option::Some(favg_spec(lo as int, hi as int) as i128)
    } else {
        let mid = favg_spec(lo as int, hi as int) as i128;
        if obs(f, mid) is None {
            if obs(f, lo) is Some {
                refine_spec(f, lo, mid)
            } else if obs(f, hi) is Some {
                refine_spec(f, mid, hi)
            } else {
                Option::Some(mid)
            }
        } else {
            if obs(f, lo) is None {
                refine_spec(f, lo, mid)
            } else if obs(f, hi) is None {
                refine_spec(f, mid, hi)
            } else {
                Option::None
            }
        }
    }
}

/// Refine a singularity location by bisection between a defined and an
/// undefined end, until the bracket is one raw unit wide.
pub fn refine_singularity<F: RealFn>(f: &F, lo: i128, hi: i128) -> (r: Option<i128>)
    requires
        -1_000_000_000_000_000 <= lo < hi <= 1_000_000_000_000_000,
    ensures
        r == refine_spec(f, lo, hi),
        match r {
            Option::Some(z) => lo <= z <= hi,
            Option::None => true,
        },
    decreases hi - lo,
{
    if hi - lo <= 1 {
        Option::Some(favg(lo, hi))
    } else {
        let mid = favg(lo, hi);
        if probe(f, mid).is_none() {
            if probe(f, lo).is_some() {
                refine_singularity(f, lo, mid)
            } else if probe(f, hi).is_some() {
                refine_singularity(f, mid, hi)
            } else {
                Option::Some(mid)
            }
        } else {
            if probe(f, lo).is_none() {
                refine_singularity(f, lo, mid)
            } else if probe(f, hi).is_none() {
                refine_singularity(f, mid, hi)
            } else {
                Option::None
            }
        }
    }
}

/// Bisection for the edge of validity: `lo` stays defined, `hi` stays
/// undefined; narrows to one raw unit.
pub open spec fn edge_search_spec<F: RealFn>(f: &F, lo: i128, hi: i128) -> (i128, i128)
    recommends
        lo < hi,
    decreases hi - lo,
{
    if hi - lo <= 1 {
        (lo, hi)
    } else {
        let mid = favg_spec(lo as int, hi as int) as i128;
        if obs(f, mid) is Some {
            edge_search_spec(f, mid, hi)
        } else {
            edge_search_spec(f, lo, mid)
        }
    }
}

/// The root-disk bound: what the targeted search for a root-type
/// expression reports.
pub open spec fn sqrt_bound_spec<F: RealFn>(f: &F) -> Option<i128> {
    if obs(f, HUNDRED_RAW) is Some {
        Option::None
    } else if obs(f, 0) is None {
        Option::None
    } else {
        let (lo, hi) = edge_search_spec(f, 0, HUNDRED_RAW);
        let b = nice_spec(favg_spec(lo as int, hi as int)) as i128;
        if lo > 0 && b > 0 {
            Option::Some(b)
        } else {
            Option::None
        }
    }
}

proof fn lemma_edge_search<F: RealFn>(f: &F, lo: i128, hi: i128)
    requires
        lo < hi,
        obs(f, lo) is Some,
        obs(f, hi) is None,
    ensures
        ({
            let (l, h) = edge_search_spec(f, lo, hi);
            lo <= l < h <= hi && h - l <= 1 && obs(f, l) is Some && obs(f, h) is None
        }),
    decreases hi - lo,
{
    if hi - lo <= 1 {
    } else {
        let mid = favg_spec(lo as int, hi as int) as i128;
        if obs(f, mid) is Some {
            lemma_edge_search(f, mid, hi);
        } else {
            lemma_edge_search(f, lo, mid);
        }
    }
}

/// Search for the positive edge of a bounded validity disk, assuming
/// validity is monotone outward from a defined interior point at zero.
/// Reports nothing when the function is defined far out (no finite disk)
/// or undefined at the interior point.
pub fn detect_sqrt_bound<F: RealFn>(f: &F) -> (r: Option<i128>)
    ensures
        r == sqrt_bound_spec(f),
        match r {
            Option::Some(b) => 0 < b <= CLIP_CAP,
            Option::None => true,
        },
{
    if probe(f, HUNDRED_RAW).is_some() {
        return Option::None;
    }
    if probe(f, 0).is_none() {
        return Option::None;
    }
    let mut lo: i128 = 0;
    let mut hi: i128 = HUNDRED_RAW;
    proof {
        lemma_edge_search(f, 0, HUNDRED_RAW);
    }
    while hi - lo > 1
        invariant
            0 <= lo < hi <= HUNDRED_RAW,
            obs(f, lo) is Some,
            obs(f, hi) is None,
            edge_search_spec(f, lo, hi) == edge_search_spec(f, 0, HUNDRED_RAW),
        decreases hi - lo,
    {
        let mid = favg(lo, hi);
        if probe(f, mid).is_some() {
            lo = mid;
        } else {
            hi = mid;
        }
    }
    let b = round_to_nice(favg(lo, hi));
    proof {
        let (l, h) = edge_search_spec(f, 0, HUNDRED_RAW);
        assert(l == lo && h == hi);
    }
    if lo > 0 && b > 0 {
        Option::Some(b)
    } else {
        Option::None
    }
}

/// Whether some listed zero lies strictly within `tol` of `z`.
pub open spec fn near_any(zs: Seq<i128>, z: i128, tol: i128) -> bool {
    exists|k: int| 0 <= k < zs.len() && -(tol as int) < #[trigger] zs[k] - z < tol as int
}

pub fn near_any_exec(zs: &Vec<i128>, z: i128, tol: i128) -> (r: bool)
    requires
        0 < tol,
        forall|k: int| 0 <= k < zs@.len() ==> capped(#[trigger] zs@[k]),
        capped(z),
        tol <= SCALE,
    ensures
        r == near_any(zs@, z, tol),
{
    let mut k: usize = 0;
    while k < zs.len()
        invariant
            0 <= k <= zs@.len(),
            forall|t: int| 0 <= t < zs@.len() ==> capped(#[trigger] zs@[t]),
            capped(z),
            0 < tol <= SCALE,
            forall|t: int| 0 <= t < k ==> !(-(tol as int) < #[trigger] zs@[t] - z < tol as int),
        decreases zs@.len() - k,
    {
        let d = zs[k] - z;
        if -tol < d && d < tol {
            return true;
        }
        k = k + 1;
    }
    false
}

/// Probe location of the fixed singularity scan: twentieths of a unit
/// from minus ten to ten.
pub open spec fn scan_pt(i: int) -> i128 {
    ((i - 200) * ((SCALE as int) / 20)) as i128
}

/// The fixed scan for isolated singularities: a point that is undefined
/// while an immediate neighbour is defined marks a suspected singularity,
/// refined by bisection and kept if no close zero is already listed.
pub open spec fn scan_zeros<F: RealFn>(f: &F, i: int, acc: Seq<i128>) -> Seq<i128>
    decreases 401 - i,
{
    if i < 0 || i > 400 {
        acc
    } else {
        let pt = scan_pt(i);
        let acc2 = if obs(f, pt) is None && (obs(f, (pt - (SCALE as int) / 50) as i128) is Some
            || obs(f, (pt + (SCALE as int) / 50) as i128) is Some) {
            match refine_spec(f, (pt - (SCALE as int) / 10) as i128, (pt + (SCALE as int)
                / 10) as i128) {
                Option::Some(z) => {
                    if !near_any(acc, z, (SCALE / 100) as i128) {
                        acc.push(z)
                    } else {
                        acc
                    }
                },
                Option::None => acc,
            }
        } else {
            acc
        };
        scan_zeros(f, i + 1, acc2)
    }
}

/// Nice-rounding of every listed zero.
pub open spec fn map_nice(s: Seq<i128>, i: int) -> Seq<i128>
    decreases s.len() - i,
{
    if i < 0 || i >= s.len() {
        Seq::empty()
    } else {
        seq![nice_spec(s[i] as int) as i128] + map_nice(s, i + 1)
    }
}

/// All denominator zeros (isolated singularities) the detector reports
/// for this expression: textual hints first, then the numeric scan, each
/// rounded to a nice value.
pub open spec fn zeros_spec<F: RealFn>(key: Seq<u8>, f: &F) -> Seq<i128> {
    if key == "1/x".spec_bytes() {
        seq![0i128]
    } else {
        let acc1 = match div_lin_from(key, 0) {
            Option::Some(z) => seq![z as i128],
            Option::None => Seq::empty(),
        };
        let acc2 = match div_sq_from(key, 0) {
            Option::Some(n) => acc1 + seq![
                isqrt_spec(n * (SCALE as int)) as i128,
                ((-1) * (isqrt_spec(n * (SCALE as int)) as i128)) as i128,
            ],
            Option::None => acc1,
        };
        map_nice(scan_zeros(f, 0, acc2), 0)
    }
}

/// Find the isolated singularities of the function: textual reciprocal
/// hints, then a fixed numeric scan with bisection refinement.
pub fn find_denominator_zeros<F: RealFn>(key: &Vec<u8>, f: &F) -> (r: Vec<i128>)
    ensures
        r@ == zeros_spec(key@, f),
        forall|k: int| 0 <= k < r@.len() ==> capped(#[trigger] r@[k]),
{
    let one_over_x = lit("1/x");
    if eq_bytes(key, &one_over_x) {
        let mut r: Vec<i128> = Vec::new();
        r.push(0);
        proof {
            assert(r@ =~= seq![0i128]);
        }
        return r;
    }
    let mut acc: Vec<i128> = Vec::new();
    match find_div_lin(key, 0) {
        Option::Some(z) => {
            acc.push(z);
        },
        Option::None => {},
    }
    let ghost acc1 = acc@;
    match find_div_sq(key, 0) {
        Option::Some(n) => {
            let root = isqrt(n * SCALE);
            acc.push(root);
            acc.push(-root);
            proof {
                assert(acc@ =~= acc1 + seq![
                    isqrt_spec((n as int) * (SCALE as int)) as i128,
                    ((-1) * (isqrt_spec((n as int) * (SCALE as int)) as i128)) as i128,
                ]);
            }
        },
        Option::None => {},
    }
    let ghost acc2 = acc@;
    proof {
        assert forall|k: int| 0 <= k < acc@.len() implies -20_000_000_000_000_000_000
            <= #[trigger] acc@[k] <= 20_000_000_000_000_000_000 by {}
    }
    let mut i: usize = 0;
    while i <= 400
        invariant
            0 <= i <= 401,
            scan_zeros(f, 0, acc2) == scan_zeros(f, i as int, acc@),
            forall|k: int| 0 <= k < acc@.len() ==> -20_000_000_000_000_000_000
                <= #[trigger] acc@[k] <= 20_000_000_000_000_000_000,
        decreases 401 - i,
    {
        let pt: i128 = ((i as i128) - 200) * (SCALE / 20);
        proof {
            assert(pt == scan_pt(i as int));
        }
        if probe(f, pt).is_none() && (probe(f, pt - SCALE / 50).is_some() || probe(
            f,
            pt + SCALE / 50,
        ).is_some()) {
            match refine_singularity(f, pt - SCALE / 10, pt + SCALE / 10) {
                Option::Some(z) => {
                    if !near_any_exec(&acc, z, SCALE / 100) {
                        acc.push(z);
                    }
                },
                Option::None => {},
            }
        }
        i = i + 1;
    }
    let mut out: Vec<i128> = Vec::new();
    let mut j: usize = 0;
    proof {
        assert(out@ + map_nice(acc@, 0) =~= map_nice(acc@, 0));
    }
    while j < acc.len()
        invariant
            0 <= j <= acc@.len(),
            map_nice(acc@, 0) == out@ + map_nice(acc@, j as int),
            forall|k: int| 0 <= k < acc@.len() ==> -20_000_000_000_000_000_000
                <= #[trigger] acc@[k] <= 20_000_000_000_000_000_000,
            forall|k: int| 0 <= k < out@.len() ==> capped(#[trigger] out@[k]),
        decreases acc@.len() - j,
    {
        let ghost pre = out@;
        let z = round_to_nice(acc[j]);
        out.push(z);
        j = j + 1;
        proof {
            assert(out@ =~= pre + seq![z]);
            assert(map_nice(acc@, j - 1) == seq![z] + map_nice(acc@, j as int));
            assert(pre + map_nice(acc@, j - 1) =~= out@ + map_nice(acc@, j as int));
        }
    }
    proof {
        assert(map_nice(acc@, acc@.len() as int) =~= Seq::<i128>::empty());
        assert(out@ + Seq::<i128>::empty() =~= out@);
    }
    out
}

/// A reported openness flag agrees with probing near the bound: a closed
/// finite bound has a defined point within the reachability tolerance of
/// it, an open finite bound is undefined at the bound itself.
pub open spec fn flag_probe_ok<F: RealFn>(f: &F, b: Ext, open_flag: bool) -> bool {
    match b {
        Ext::Fin(v) => {
            if open_flag {
                obs(f, v) is None
            } else {
                exists|p: i128|
                    -(ACH_TOL as int) <= p - v <= ACH_TOL as int && #[trigger] obs(f, p) is Some
            }
        },
        _ => true,
    }
}

/// The detector's decision, in priority order: root-type search, logarithm
/// sign probe, self-exponentiation hint, known periodic-singularity
/// shapes, inverse-trig hints, isolated singularities, all reals.
pub open spec fn domain_spec<F: RealFn>(key: Seq<u8>, f: &F, zeros: Seq<i128>) -> DomainV {
    if contains_spec(key, "sqrt".spec_bytes()) && sqrt_bound_spec(f) is Some {
        let b = sqrt_bound_spec(f).unwrap();
        DomainV::Interval(
            Ival {
                lo: Ext::Fin((-b) as i128),
                hi: Ext::Fin(b),
                lo_open: obs(f, (-b) as i128) is None,
                hi_open: obs(f, b) is None,
            },
        )
    } else if key == "sqrt(x)".spec_bytes() {
        DomainV::Interval(
            Ival {
                lo: Ext::Fin(0),
                hi: Ext::PosInf,
                lo_open: obs(f, 0) is None,
                hi_open: true,
            },
        )
    } else if (contains_spec(key, "ln(".spec_bytes()) || contains_spec(
        key,
        "log(".spec_bytes(),
    )) && !contains_spec(key, "abs".spec_bytes()) && obs(f, (SCALE / 2) as i128) is Some && obs(
        f,
        (-(SCALE / 2)) as i128,
    ) is None {
        DomainV::Interval(
            Ival {
                lo: Ext::Fin(0),
                hi: Ext::PosInf,
                lo_open: obs(f, 0) is None,
                hi_open: true,
            },
        )
    } else if contains_spec(key, "x^x".spec_bytes()) {
        DomainV::Interval(
            Ival {
                lo: Ext::Fin(0),
                hi: Ext::PosInf,
                lo_open: obs(f, 0) is None,
                hi_open: true,
            },
        )
    } else if key == "tan(x)".spec_bytes() {
        DomainV::PeriodicExclusion { offset: HALF_PI_RAW, period: PI_RAW }
    } else if key == "cot(x)".spec_bytes() || key == "1/sin(x)".spec_bytes() || key
        == "csc(x)".spec_bytes() {
        DomainV::PeriodicExclusion { offset: 0, period: PI_RAW }
    } else if key == "1/cos(x)".spec_bytes() || key == "sec(x)".spec_bytes() {
        DomainV::PeriodicExclusion { offset: HALF_PI_RAW, period: PI_RAW }
    } else if key == "asin(x)".spec_bytes() || key == "acos(x)".spec_bytes() {
        DomainV::Interval(
            Ival {
                lo: Ext::Fin((-SCALE) as i128),
                hi: Ext::Fin(SCALE),
                lo_open: obs(f, (-SCALE) as i128) is None,
                hi_open: obs(f, SCALE) is None,
            },
        )
    } else if zeros.len() > 0 {
        DomainV::ExcludedPoints { excluded: sort_spec(zeros) }
    } else {
        DomainV::AllReals
    }
}

/// Classify the defined-input set from textual hints and numeric probing;
/// the reported openness of every finite interval bound agrees with a
/// probe at that bound.
pub fn detect_domain<F: RealFn>(key: &Vec<u8>, f: &F, zeros: &Vec<i128>) -> (r: Domain)
    requires
        forall|k: int| 0 <= k < zeros@.len() ==> capped(#[trigger] zeros@[k]),
    ensures
        r.dv() == domain_spec(key@, f, zeros@),
        r.wf(),
        r.capped_bounds(),
        match r {
            Domain::Interval(iv) => flag_probe_ok(f, iv.lo, iv.lo_open) && flag_probe_ok(
                f,
                iv.hi,
                iv.hi_open,
            ),
            _ => true,
        },
{
    if contains_sub(key, &lit("sqrt")) {
        if let Option::Some(b) = detect_sqrt_bound(f) {
            let lo_def = probe(f, -b).is_some();
            let hi_def = probe(f, b).is_some();
            let r = Domain::Interval(
                Ival {
                    lo: Ext::Fin(-b),
                    hi: Ext::Fin(b),
                    lo_open: !lo_def,
                    hi_open: !hi_def,
                },
            );
            proof {
                lemma_self_witness(f, (-b) as i128);
                lemma_self_witness(f, b);
            }
            return r;
        }
    }
    if eq_bytes(key, &lit("sqrt(x)")) {
        let zero_def = probe(f, 0).is_some();
        proof {
            lemma_self_witness(f, 0);
        }
        return Domain::Interval(
            Ival { lo: Ext::Fin(0), hi: Ext::PosInf, lo_open: !zero_def, hi_open: true },
        );
    }
    if (contains_sub(key, &lit("ln(")) || contains_sub(key, &lit("log("))) && !contains_sub(
        key,
        &lit("abs"),
    ) && probe(f, SCALE / 2).is_some() && probe(f, -(SCALE / 2)).is_none() {
        let zero_def = probe(f, 0).is_some();
        proof {
            lemma_self_witness(f, 0);
        }
        return Domain::Interval(
            Ival { lo: Ext::Fin(0), hi: Ext::PosInf, lo_open: !zero_def, hi_open: true },
        );
    }
    if contains_sub(key, &lit("x^x")) {
        let zero_def = probe(f, 0).is_some();
        proof {
            lemma_self_witness(f, 0);
        }
        return Domain::Interval(
            Ival { lo: Ext::Fin(0), hi: Ext::PosInf, lo_open: !zero_def, hi_open: true },
        );
    }
    if eq_bytes(key, &lit("tan(x)")) {
        return Domain::PeriodicExclusion { offset: HALF_PI_RAW, period: PI_RAW };
    }
    if eq_bytes(key, &lit("cot(x)")) || eq_bytes(key, &lit("1/sin(x)")) || eq_bytes(
        key,
        &lit("csc(x)"),
    ) {
        return Domain::PeriodicExclusion { offset: 0, period: PI_RAW };
    }
    if eq_bytes(key, &lit("1/cos(x)")) || eq_bytes(key, &lit("sec(x)")) {
        return Domain::PeriodicExclusion { offset: HALF_PI_RAW, period: PI_RAW };
    }
    if eq_bytes(key, &lit("asin(x)")) || eq_bytes(key, &lit("acos(x)")) {
        let lo_def = probe(f, -SCALE).is_some();
        let hi_def = probe(f, SCALE).is_some();
        proof {
            lemma_self_witness(f, (-SCALE) as i128);
            lemma_self_witness(f, SCALE);
        }
        return Domain::Interval(
            Ival {
                lo: Ext::Fin(-SCALE),
                hi: Ext::Fin(SCALE),
                lo_open: !lo_def,
                hi_open: !hi_def,
            },
        );
    }
    if zeros.len() > 0 {
        let sorted = sort_dedup(zeros);
        return Domain::ExcludedPoints { excluded: sorted };
    }
    Domain::AllReals
}

/// Probe-consistency law of the detector: whenever its decision is a
/// single interval, the openness flag of each finite bound agrees with
/// probing near that bound — a closed bound has a defined point within
/// the reachability tolerance, an open bound is undefined at the bound
/// itself.
pub proof fn lemma_domain_flags_probe_consistent<F: RealFn>(
    key: Seq<u8>,
    f: &F,
    zeros: Seq<i128>,
)
    ensures
        match domain_spec(key, f, zeros) {
            DomainV::Interval(iv) => flag_probe_ok(f, iv.lo, iv.lo_open) && flag_probe_ok(
                f,
                iv.hi,
                iv.hi_open,
            ),
            _ => true,
        },
{
    let d = domain_spec(key, f, zeros);
    match d {
        DomainV::Interval(iv) => {
            match iv.lo {
                Ext::Fin(v) => lemma_self_witness(f, v),
                _ => (),
            }
            match iv.hi {
                Ext::Fin(v) => lemma_self_witness(f, v),
                _ => (),
            }
        },
        _ => (),
    }
}

/// A defined bound is its own reachability witness.
proof fn lemma_self_witness<F: RealFn>(f: &F, v: i128)
    ensures
        obs(f, v) is Some ==> exists|p: i128|
            -(ACH_TOL as int) <= p - v <= ACH_TOL as int && #[trigger] obs(f, p) is Some,
{
    if obs(f, v) is Some {
        assert(-(ACH_TOL as int) <= v - v <= ACH_TOL as int && obs(f, v) is Some);
    }
}

} // verus!

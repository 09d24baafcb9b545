//! Limit and asymptote analysis.
//!
//! Behaviour toward the infinities is read off a fixed geometric ladder
//! of magnitudes: samples climbing consecutively by more than a ten
//! percent margin and ending huge mean divergence; a last stretch of
//! samples within a hundredth of one another means a finite limit;
//! anything else is reported as indeterminate rather than guessed.
//! Separately, probes at shrinking offsets on both sides of each known
//! singularity decide whether it contributes unbounded outputs, and a
//! pair of far-out ladders hunts for horizontal asymptotes: values the
//! function approaches but, if a dense probe never lands near them, does
//! not attain.

use vstd::prelude::*;

use crate::detect::{capped, near_any, near_any_exec, nice_spec, round_to_nice};
use crate::nums::{favg, favg_spec, Ext, CLIP_CAP, DIV_RAW, INF_RAW, SCALE};
use crate::oracle::{obs, probe, RealFn};

verus! {

/// The magnitude ladder probed toward an infinity (a hundred units up to
/// a trillion).
pub open spec fn limit_mags() -> Seq<i128> {
    seq![
        100_000_000_000_000i128,
        1_000_000_000_000_000,
        10_000_000_000_000_000,
        100_000_000_000_000_000,
        1_000_000_000_000_000_000,
        10_000_000_000_000_000_000,
        100_000_000_000_000_000_000,
        1_000_000_000_000_000_000_000,
        10_000_000_000_000_000_000_000,
        1_000_000_000_000_000_000_000_000,
    ]
}

fn limit_mags_vec() -> (r: Vec<i128>)
    ensures
        r@ == limit_mags(),
{
    let mut v: Vec<i128> = Vec::new();
    v.push(100_000_000_000_000);
    v.push(1_000_000_000_000_000);
    v.push(10_000_000_000_000_000);
    v.push(100_000_000_000_000_000);
    v.push(1_000_000_000_000_000_000);
    v.push(10_000_000_000_000_000_000);
    v.push(100_000_000_000_000_000_000);
    v.push(1_000_000_000_000_000_000_000);
    v.push(10_000_000_000_000_000_000_000);
    v.push(1_000_000_000_000_000_000_000_000);
    proof {
        assert(v@ =~= limit_mags());
    }
    v
}

/// The ladder probed when hunting horizontal asymptotes (a thousand up to
/// a hundred million units).
pub open spec fn asym_mags() -> Seq<i128> {
    seq![
        1_000_000_000_000_000i128,
        10_000_000_000_000_000,
        100_000_000_000_000_000,
        1_000_000_000_000_000_000,
        10_000_000_000_000_000_000,
        100_000_000_000_000_000_000,
    ]
}

fn asym_mags_vec() -> (r: Vec<i128>)
    ensures
        r@ == asym_mags(),
{
    let mut v: Vec<i128> = Vec::new();
    v.push(1_000_000_000_000_000);
    v.push(10_000_000_000_000_000);
    v.push(100_000_000_000_000_000);
    v.push(1_000_000_000_000_000_000);
    v.push(10_000_000_000_000_000_000);
    v.push(100_000_000_000_000_000_000);
    proof {
        assert(v@ =~= asym_mags());
    }
    v
}

/// The defined observations along a point list, sign applied.
pub open spec fn vals_from<F: RealFn>(f: &F, pts: Seq<i128>, s: i128, i: int) -> Seq<i128>
    decreases pts.len() - i,
{
    if i < 0 || i >= pts.len() {
        Seq::empty()
    } else {
        let rest = vals_from(f, pts, s, i + 1);
        match obs(f, ((s as int) * pts[i]) as i128) {
            Option::Some(y) => seq![y] + rest,
            Option::None => rest,
        }
    }
}

fn collect_vals<F: RealFn>(f: &F, pts: &Vec<i128>, s: i128) -> (r: Vec<i128>)
    requires
        s == 1 || s == -1i128,
        forall|k: int| 0 <= k < pts@.len() ==> capped(#[trigger] pts@[k]),
    ensures
        r@ == vals_from(f, pts@, s, 0),
        forall|k: int| 0 <= k < r@.len() ==> capped(#[trigger] r@[k]),
    decreases pts@.len(),
{
    let mut out: Vec<i128> = Vec::new();
    let mut i: usize = 0;
    proof {
        assert(out@ + vals_from(f, pts@, s, 0) =~= vals_from(f, pts@, s, 0));
    }
    while i < pts.len()
        invariant
            s == 1 || s == -1i128,
            0 <= i <= pts@.len(),
            forall|k: int| 0 <= k < pts@.len() ==> capped(#[trigger] pts@[k]),
            vals_from(f, pts@, s, 0) == out@ + vals_from(f, pts@, s, i as int),
            forall|k: int| 0 <= k < out@.len() ==> capped(#[trigger] out@[k]),
        decreases pts@.len() - i,
    {
        let ghost pre = out@;
        match probe(f, s * pts[i]) {
            Option::Some(y) => {
                out.push(y);
                proof {
                    assert(out@ =~= pre + seq![y]);
                    assert(pre + vals_from(f, pts@, s, i as int) =~= out@ + vals_from(
                        f,
                        pts@,
                        s,
                        i + 1,
                    ));
                }
            },
            Option::None => {
                proof {
                    assert(pre + vals_from(f, pts@, s, i as int) =~= out@ + vals_from(
                        f,
                        pts@,
                        s,
                        i + 1,
                    ));
                }
            },
        }
        i = i + 1;
    }
    proof {
        assert(vals_from(f, pts@, s, pts@.len() as int) =~= Seq::<i128>::empty());
        assert(out@ + Seq::<i128>::empty() =~= out@);
    }
    out
}

/// Consecutive samples each grow past nine tenths of their predecessor.
pub open spec fn grows_up(vals: Seq<i128>) -> bool {
    forall|j: int| 0 <= j < vals.len() - 1 ==> 10 * vals[j + 1] > 9 * #[trigger] vals[j]
}

/// Consecutive samples each fall below nine tenths of their predecessor.
pub open spec fn grows_down(vals: Seq<i128>) -> bool {
    forall|j: int| 0 <= j < vals.len() - 1 ==> 10 * vals[j + 1] < 9 * #[trigger] vals[j]
}

#[verifier::rlimit(100)]
fn check_grows(vals: &Vec<i128>) -> (r: (bool, bool))
    requires
        forall|k: int| 0 <= k < vals@.len() ==> capped(#[trigger] vals@[k]),
    ensures
        r.0 == grows_up(vals@),
        r.1 == grows_down(vals@),
{
    let mut up = true;
    let mut down = true;
    let mut j: usize = 0;
    while vals.len() - j > 1
        invariant
            0 <= j <= vals@.len(),
            forall|k: int| 0 <= k < vals@.len() ==> capped(#[trigger] vals@[k]),
            up ==> forall|t: int| 0 <= t < j ==> 10 * vals@[t + 1] > 9 * #[trigger] vals@[t],
            !up ==> exists|t: int| 0 <= t < vals@.len() - 1 && !(10 * vals@[t + 1] > 9
                * #[trigger] vals@[t]),
            down ==> forall|t: int| 0 <= t < j ==> 10 * vals@[t + 1] < 9 * #[trigger] vals@[t],
            !down ==> exists|t: int| 0 <= t < vals@.len() - 1 && !(10 * vals@[t + 1] < 9
                * #[trigger] vals@[t]),
        decreases vals@.len() - j,
    {
        let a = vals[j];
        let b = vals[j + 1];
        if !(10 * b > 9 * a) {
            up = false;
            proof {
                assert(0 <= j < vals@.len() - 1 && !(10 * vals@[j + 1] > 9 * vals@[j as int]));
            }
        }
        if !(10 * b < 9 * a) {
            down = false;
            proof {
                assert(0 <= j < vals@.len() - 1 && !(10 * vals@[j + 1] < 9 * vals@[j as int]));
            }
        }
        j = j + 1;
    }
    proof {
        assert(vals@.len() - j <= 1);
    }
    (up, down)
}

/// Least element from index `i` on.
pub open spec fn seq_min_from(vals: Seq<i128>, i: int) -> i128
    decreases vals.len() - i,
{
    if i < 0 || i >= vals.len() {
        CLIP_CAP
    } else {
        let rest = seq_min_from(vals, i + 1);
        if vals[i] <= rest {
            vals[i]
        } else {
            rest
        }
    }
}

/// Greatest element from index `i` on.
pub open spec fn seq_max_from(vals: Seq<i128>, i: int) -> i128
    decreases vals.len() - i,
{
    if i < 0 || i >= vals.len() {
        (-CLIP_CAP) as i128
    } else {
        let rest = seq_max_from(vals, i + 1);
        if vals[i] >= rest {
            vals[i]
        } else {
            rest
        }
    }
}

fn seq_min_exec(vals: &Vec<i128>, i: usize) -> (r: i128)
    requires
        i <= vals@.len(),
        forall|k: int| 0 <= k < vals@.len() ==> capped(#[trigger] vals@[k]),
    ensures
        r == seq_min_from(vals@, i as int),
        capped(r),
    decreases vals@.len() - i,
{
    if i < vals.len() {
        let rest = seq_min_exec(vals, i + 1);
        if vals[i] <= rest {
            vals[i]
        } else {
            rest
        }
    } else {
        CLIP_CAP
    }
}

fn seq_max_exec(vals: &Vec<i128>, i: usize) -> (r: i128)
    requires
        i <= vals@.len(),
        forall|k: int| 0 <= k < vals@.len() ==> capped(#[trigger] vals@[k]),
    ensures
        r == seq_max_from(vals@, i as int),
        capped(r),
    decreases vals@.len() - i,
{
    if i < vals.len() {
        let rest = seq_max_exec(vals, i + 1);
        if vals[i] >= rest {
            vals[i]
        } else {
            rest
        }
    } else {
        -CLIP_CAP
    }
}

/// What limit extrapolation reports toward the positive (`s = 1`) or
/// negative (`s = -1`) infinity: divergence, a finite limit, or nothing.
pub open spec fn limit_spec<F: RealFn>(f: &F, s: i128) -> Option<Ext> {
    let vals = vals_from(f, limit_mags(), s, 0);
    if vals.len() < 3 {
        Option::None
    } else if grows_up(vals) && vals.last() > DIV_RAW {
        Option::Some(Ext::PosInf)
    } else if grows_down(vals) && vals.last() < -DIV_RAW {
        Option::Some(Ext::NegInf)
    } else {
        let start = if vals.len() >= 4 {
            vals.len() - 4
        } else {
            0
        };
        let mn = seq_min_from(vals, start as int);
        let mx = seq_max_from(vals, start as int);
        if mx - mn < SCALE / 100 {
            Option::Some(Ext::Fin(favg_spec(mn as int, mx as int) as i128))
        } else {
            Option::None
        }
    }
}

/// Extrapolate behaviour toward one infinity from a geometric ladder of
/// magnitudes; indeterminate evidence yields `None`, never a guess.
pub fn analyze_limit<F: RealFn>(f: &F, toward_pos: bool) -> (r: Option<Ext>)
    ensures
        r == limit_spec(
            f,
            if toward_pos {
                1
            } else {
                (-1) as i128
            },
        ),
{
    let s: i128 = if toward_pos {
        1
    } else {
        -1
    };
    let mags = limit_mags_vec();
    let vals = collect_vals(f, &mags, s);
    if vals.len() < 3 {
        return Option::None;
    }
    let (up, down) = check_grows(&vals);
    let last = vals[vals.len() - 1];
    proof {
        assert(last == vals_from(f, limit_mags(), s, 0).last());
    }
    if up && last > DIV_RAW {
        return Option::Some(Ext::PosInf);
    }
    if down && last < -DIV_RAW {
        return Option::Some(Ext::NegInf);
    }
    let start: usize = if vals.len() >= 4 {
        vals.len() - 4
    } else {
        0
    };
    let mn = seq_min_exec(&vals, start);
    let mx = seq_max_exec(&vals, start);
    if mx - mn < SCALE / 100 {
        Option::Some(Ext::Fin(favg(mn, mx)))
    } else {
        Option::None
    }
}

/// Probe offsets used on both sides of a singularity.
pub open spec fn sing_eps_probe() -> Seq<i128> {
    seq![1_000_000_000i128, 10_000_000, 100_000, 1_000]
}

fn sing_eps_probe_vec() -> (r: Vec<i128>)
    ensures
        r@ == sing_eps_probe(),
{
    let mut v: Vec<i128> = Vec::new();
    v.push(1_000_000_000);
    v.push(10_000_000);
    v.push(100_000);
    v.push(1_000);
    proof {
        assert(v@ =~= sing_eps_probe());
    }
    v
}

/// Divergence flags accumulated from probing one singularity at offsets
/// from index `j` on.
pub open spec fn side_div<F: RealFn>(f: &F, z: i128, j: int, pos: bool, neg: bool) -> (
    bool,
    bool,
)
    decreases sing_eps_probe().len() - j,
{
    if j < 0 || j >= sing_eps_probe().len() {
        (pos, neg)
    } else {
        let e = sing_eps_probe()[j];
        let p1 = match obs(f, (z - e) as i128) {
            Option::Some(y) => pos || y > DIV_RAW,
            Option::None => pos,
        };
        let n1 = match obs(f, (z - e) as i128) {
            Option::Some(y) => neg || y < -DIV_RAW,
            Option::None => neg,
        };
        let p2 = match obs(f, (z + e) as i128) {
            Option::Some(y) => p1 || y > DIV_RAW,
            Option::None => p1,
        };
        let n2 = match obs(f, (z + e) as i128) {
            Option::Some(y) => n1 || y < -DIV_RAW,
            Option::None => n1,
        };
        side_div(f, z, j + 1, p2, n2)
    }
}

/// Divergence flags accumulated over the singularities from index `i` on.
pub open spec fn sing_div_from<F: RealFn>(
    f: &F,
    zs: Seq<i128>,
    i: int,
    pos: bool,
    neg: bool,
) -> (bool, bool)
    decreases zs.len() - i,
{
    if i < 0 || i >= zs.len() {
        (pos, neg)
    } else {
        let (p, n) = side_div(f, zs[i], 0, pos, neg);
        sing_div_from(f, zs, i + 1, p, n)
    }
}

/// Probe each singularity at shrinking offsets on both sides; huge
/// magnitudes mark it as contributing unboundedness in that direction.
pub fn singularity_asymptotics<F: RealFn>(f: &F, zs: &Vec<i128>, pos0: bool, neg0: bool) -> (r:
    (bool, bool))
    requires
        forall|k: int| 0 <= k < zs@.len() ==> capped(#[trigger] zs@[k]),
    ensures
        r == sing_div_from(f, zs@, 0, pos0, neg0),
{
    let eps = sing_eps_probe_vec();
    let mut pos = pos0;
    let mut neg = neg0;
    let mut i: usize = 0;
    while i < zs.len()
        invariant
            0 <= i <= zs@.len(),
            forall|k: int| 0 <= k < zs@.len() ==> capped(#[trigger] zs@[k]),
            eps@ == sing_eps_probe(),
            sing_div_from(f, zs@, 0, pos0, neg0) == sing_div_from(
                f,
                zs@,
                i as int,
                pos,
                neg,
            ),
        decreases zs@.len() - i,
    {
        let z = zs[i];
        let ghost p0 = pos;
        let ghost n0 = neg;
        let mut j: usize = 0;
        while j < eps.len()
            invariant
                0 <= j <= eps@.len(),
                capped(z),
                eps@ == sing_eps_probe(),
                side_div(f, z, 0, p0, n0) == side_div(f, z, j as int, pos, neg),
            decreases eps@.len() - j,
        {
            let e = eps[j];
            proof {
                assert(0 < e <= SCALE);
            }
            match probe(f, z - e) {
                Option::Some(y) => {
                    if y > DIV_RAW {
                        pos = true;
                    }
                    if y < -DIV_RAW {
                        neg = true;
                    }
                },
                Option::None => {},
            }
            match probe(f, z + e) {
                Option::Some(y) => {
                    if y > DIV_RAW {
                        pos = true;
                    }
                    if y < -DIV_RAW {
                        neg = true;
                    }
                },
                Option::None => {},
            }
            j = j + 1;
        }
        proof {
            assert(side_div(f, z, eps@.len() as int, pos, neg) == (pos, neg));
        }
        i = i + 1;
    }
    (pos, neg)
}

/// Candidate from one far-out ladder: the last two defined samples close
/// together and small enough, nice-rounded.
pub open spec fn asym_candidate<F: RealFn>(f: &F, s: i128) -> Option<i128> {
    let vals = vals_from(f, asym_mags(), s, 0);
    if vals.len() >= 3 {
        let last = vals.last();
        let prev = vals[vals.len() - 2];
        if -(SCALE as int) / 1000 < last - prev < (SCALE as int) / 1000 && -INF_RAW < last
            < INF_RAW {
            Option::Some(nice_spec(last as int) as i128)
        } else {
            Option::None
        }
    } else {
        Option::None
    }
}

/// The horizontal asymptotes both ladders report, deduplicated.
pub open spec fn hasym_spec<F: RealFn>(f: &F) -> Seq<i128> {
    let part1: Seq<i128> = match asym_candidate(f, 1) {
        Option::Some(a) => seq![a],
        Option::None => Seq::empty(),
    };
    match asym_candidate(f, (-1) as i128) {
        Option::Some(a) => {
            if !near_any(part1, a, (SCALE / 1000) as i128) {
                part1 + seq![a]
            } else {
                part1
            }
        },
        Option::None => part1,
    }
}

fn asym_candidate_exec<F: RealFn>(f: &F, s: i128) -> (r: Option<i128>)
    requires
        s == 1 || s == -1i128,
    ensures
        match r {
            Option::Some(a) => asym_candidate(f, s) == Option::Some(a) && capped(a),
            Option::None => asym_candidate(f, s) is None,
        },
{
    let mags = asym_mags_vec();
    let vals = collect_vals(f, &mags, s);
    if vals.len() >= 3 {
        let last = vals[vals.len() - 1];
        let prev = vals[vals.len() - 2];
        let d = last - prev;
        if -(SCALE / 1000) < d && d < SCALE / 1000 && -INF_RAW < last && last < INF_RAW {
            Option::Some(round_to_nice(last))
        } else {
            Option::None
        }
    } else {
        Option::None
    }
}

/// Find horizontal asymptotes: finite values the function settles toward
/// as the input grows without bound in either direction.
pub fn find_horizontal_asymptotes<F: RealFn>(f: &F) -> (r: Vec<i128>)
    ensures
        r@ == hasym_spec(f),
        forall|k: int| 0 <= k < r@.len() ==> capped(#[trigger] r@[k]),
{
    let mut out: Vec<i128> = Vec::new();
    match asym_candidate_exec(f, 1) {
        Option::Some(a) => {
            out.push(a);
        },
        Option::None => {},
    }
    let ghost part1 = out@;
    match asym_candidate_exec(f, -1) {
        Option::Some(a) => {
            if !near_any_exec(&out, a, SCALE / 1000) {
                out.push(a);
                proof {
                    assert(out@ =~= part1 + seq![a]);
                }
            }
        },
        Option::None => {},
    }
    proof {
        match asym_candidate(f, 1) {
            Option::Some(a) => {
                assert(part1 =~= seq![a]);
            },
            Option::None => {
                assert(part1 =~= Seq::<i128>::empty());
            },
        }
    }
    out
}

/// Whether a dense fixed probe finds an output within `tol` of `target`,
/// skipping inputs close to an excluded point, walking from `x`.
pub open spec fn attained_from<F: RealFn>(
    f: &F,
    target: i128,
    excl: Seq<i128>,
    x: int,
    left: int,
    tol: i128,
) -> bool
    decreases left,
{
    if left <= 0 {
        false
    } else {
        let hit = if near_any(excl, x as i128, (SCALE / 1000) as i128) {
            false
        } else {
            match obs(f, x as i128) {
                Option::Some(y) => -(tol as int) < y - target < tol as int,
                Option::None => false,
            }
        };
        hit || attained_from(f, target, excl, x + (SCALE as int) / 1000, left - 1, tol)
    }
}

/// Whether the target output is attained within `tol` anywhere on the
/// dense reachability probe (a thousandth of a unit apart across the
/// central window, domain exclusions skipped).
pub open spec fn attained_spec<F: RealFn>(
    f: &F,
    target: i128,
    excl: Seq<i128>,
    tol: i128,
) -> bool {
    attained_from(f, target, excl, -100 * (SCALE as int), 200_001, tol)
}

/// The reachability probe: densely resample the central window and check
/// whether any defined output lands within `tol` of the target.
pub fn value_attained<F: RealFn>(f: &F, target: i128, excl: &Vec<i128>, tol: i128) -> (r: bool)
    requires
        capped(target),
        0 < tol <= SCALE,
        forall|k: int| 0 <= k < excl@.len() ==> capped(#[trigger] excl@[k]),
    ensures
        r == attained_spec(f, target, excl@, tol),
{
    let mut x: i128 = -100 * SCALE;
    let mut left: u32 = 200_001;
    while left > 0
        invariant
            capped(target),
            0 < tol <= SCALE,
            forall|k: int| 0 <= k < excl@.len() ==> capped(#[trigger] excl@[k]),
            -100 * (SCALE as int) <= x <= 101 * (SCALE as int),
            x as int == -100 * (SCALE as int) + (200_001 - left) * 1_000_000_000,
            left <= 200_001,
            attained_spec(f, target, excl@, tol) == attained_from(
                f,
                target,
                excl@,
                x as int,
                left as int,
                tol,
            ),
        decreases left,
    {
        if !near_any_exec(excl, x, SCALE / 1000) {
            match probe(f, x) {
                Option::Some(y) => {
                    let d = y - target;
                    if -tol < d && d < tol {
                        proof {
                            assert(attained_from(
                                f,
                                target,
                                excl@,
                                x as int,
                                left as int,
                                tol,
                            ));
                        }
                        return true;
                    }
                },
                Option::None => {},
            }
        }
        x = x + SCALE / 1000;
        left = left - 1;
    }
    false
}

} // verus!

//! Sample point generation.
//!
//! Probing density is shaped by the detected domain: a bounded interval
//! gets a uniform grid plus geometric clusters at its ends; an unbounded
//! domain gets a dense central scan, geometric clusters around every known
//! singularity and around multiples of half pi (to catch periodic
//! structure), and a geometrically growing wide scan to catch slow
//! unbounded behaviour.  Uniform-only sampling dense enough to catch
//! narrow spikes would be cost-prohibitive; clustering concentrates
//! resolution where discontinuities are likely.  The result is strictly
//! ascending: at the engine's resolution, equal raw values are one point.

use vstd::prelude::*;

use crate::detect::{capped, near_any, near_any_exec};
use crate::model::{Domain, DomainV};
use crate::nums::{div_round, Ext, CLIP_CAP, HALF_PI_RAW, HUNDRED_RAW, PI_RAW, SCALE};
use crate::seqs::{merge_dedup, merge_spec, sort_dedup, sort_spec, sorted_strict};

verus! {

/// A uniform ascending run: `x`, `x+step`, ... while within `hi`, capped
/// in count.
pub open spec fn uniform_spec(x: int, hi: int, step: int, fuel: int) -> Seq<i128>
    decreases fuel,
{
    if fuel <= 0 || x > hi {
        Seq::empty()
    } else {
        seq![x as i128] + uniform_spec(x + step, hi, step, fuel - 1)
    }
}

fn build_uniform(lo: i128, hi: i128, step: i128, fuel: u32) -> (r: Vec<i128>)
    requires
        -2 * CLIP_CAP <= lo <= 2 * CLIP_CAP,
        -2 * CLIP_CAP <= hi <= 2 * CLIP_CAP,
        1 <= step <= 2 * CLIP_CAP,
        fuel <= 100_000,
    ensures
        r@ == uniform_spec(lo as int, hi as int, step as int, fuel as int),
        sorted_strict(r@),
{
    let mut out: Vec<i128> = Vec::new();
    let mut x = lo;
    let mut left = fuel;
    proof {
        assert(out@ + uniform_spec(lo as int, hi as int, step as int, fuel as int)
            =~= uniform_spec(lo as int, hi as int, step as int, fuel as int));
    }
    while left > 0 && x <= hi
        invariant
            -2 * CLIP_CAP <= lo <= 2 * CLIP_CAP,
            -2 * CLIP_CAP <= hi <= 2 * CLIP_CAP,
            1 <= step <= 2 * CLIP_CAP,
            left <= 100_000,
            x >= lo,
            x <= hi + step || x == lo,
            uniform_spec(lo as int, hi as int, step as int, fuel as int) == out@ + uniform_spec(
                x as int,
                hi as int,
                step as int,
                left as int,
            ),
            sorted_strict(out@),
            out@.len() > 0 ==> out@.last() < x,
        decreases left,
    {
        let ghost pre = out@;
        out.push(x);
        proof {
            assert(out@ =~= pre + seq![x]);
            assert(uniform_spec(x as int, hi as int, step as int, left as int) == seq![x]
                + uniform_spec(x + step, hi as int, step as int, left - 1));
            assert(pre + uniform_spec(x as int, hi as int, step as int, left as int) =~= out@
                + uniform_spec(x + step, hi as int, step as int, left - 1));
        }
        x = x + step;
        left = left - 1;
    }
    proof {
        assert(uniform_spec(x as int, hi as int, step as int, left as int) =~= Seq::<
            i128,
        >::empty());
        assert(out@ + Seq::<i128>::empty() =~= out@);
    }
    out
}

/// The central scan of the unbounded case: two hundredths of a unit apart
/// across the central window, skipping points too close to a singularity.
pub open spec fn skip_spec(x: int, hi: int, step: int, sings: Seq<i128>, fuel: int) -> Seq<i128>
    decreases fuel,
{
    if fuel <= 0 || x > hi {
        Seq::empty()
    } else if near_any(sings, x as i128, (SCALE / 1000) as i128) {
        skip_spec(x + step, hi, step, sings, fuel - 1)
    } else {
        seq![x as i128] + skip_spec(x + step, hi, step, sings, fuel - 1)
    }
}

fn build_skip(lo: i128, hi: i128, step: i128, sings: &Vec<i128>, fuel: u32) -> (r: Vec<i128>)
    requires
        -CLIP_CAP + SCALE <= lo <= CLIP_CAP - SCALE,
        -CLIP_CAP + SCALE <= hi <= CLIP_CAP - SCALE,
        1 <= step <= SCALE,
        fuel <= 100_000,
        forall|k: int| 0 <= k < sings@.len() ==> capped(#[trigger] sings@[k]),
    ensures
        r@ == skip_spec(lo as int, hi as int, step as int, sings@, fuel as int),
        sorted_strict(r@),
{
    let mut out: Vec<i128> = Vec::new();
    let mut x = lo;
    let mut left = fuel;
    proof {
        assert(out@ + skip_spec(lo as int, hi as int, step as int, sings@, fuel as int)
            =~= skip_spec(lo as int, hi as int, step as int, sings@, fuel as int));
    }
    while left > 0 && x <= hi
        invariant
            -CLIP_CAP + SCALE <= lo <= CLIP_CAP - SCALE,
            -CLIP_CAP + SCALE <= hi <= CLIP_CAP - SCALE,
            1 <= step <= SCALE,
            left <= 100_000,
            x >= lo,
            x <= hi + step || x == lo,
            forall|k: int| 0 <= k < sings@.len() ==> capped(#[trigger] sings@[k]),
            skip_spec(lo as int, hi as int, step as int, sings@, fuel as int) == out@
                + skip_spec(x as int, hi as int, step as int, sings@, left as int),
            sorted_strict(out@),
            out@.len() > 0 ==> out@.last() < x,
        decreases left,
    {
        let ghost pre = out@;
        if !near_any_exec(sings, x, SCALE / 1000) {
            out.push(x);
            proof {
                assert(out@ =~= pre + seq![x]);
                assert(pre + skip_spec(x as int, hi as int, step as int, sings@, left as int)
                    =~= out@ + skip_spec(x + step, hi as int, step as int, sings@, left - 1));
            }
        }
        x = x + step;
        left = left - 1;
    }
    proof {
        assert(skip_spec(x as int, hi as int, step as int, sings@, left as int) =~= Seq::<
            i128,
        >::empty());
        assert(out@ + Seq::<i128>::empty() =~= out@);
    }
    out
}

/// Offsets of the geometric cluster placed at each end of a bounded
/// interval: a tenth of a unit down to a ten-billionth.
pub open spec fn bound_eps() -> Seq<i128> {
    seq![
        100_000_000_000i128,
        10_000_000_000,
        1_000_000_000,
        100_000_000,
        10_000_000,
        1_000_000,
        100_000,
        10_000,
        1_000,
        100,
    ]
}

/// Offsets of the cluster around a singularity: a thousandth of a unit
/// down to a ten-billionth.
pub open spec fn sing_eps() -> Seq<i128> {
    seq![1_000_000_000i128, 100_000_000, 10_000_000, 1_000_000, 100_000, 10_000, 1_000, 100]
}

/// Offsets of the cluster around each half-pi multiple: a thousandth down
/// to a ten-millionth of a unit.
pub open spec fn pi_eps() -> Seq<i128> {
    seq![1_000_000_000i128, 100_000_000, 10_000_000, 1_000_000, 100_000]
}

fn bound_eps_vec() -> (r: Vec<i128>)
    ensures
        r@ == bound_eps(),
{
    let mut v: Vec<i128> = Vec::new();
    v.push(100_000_000_000);
    v.push(10_000_000_000);
    v.push(1_000_000_000);
    v.push(100_000_000);
    v.push(10_000_000);
    v.push(1_000_000);
    v.push(100_000);
    v.push(10_000);
    v.push(1_000);
    v.push(100);
    proof {
        assert(v@ =~= bound_eps());
    }
    v
}

fn sing_eps_vec() -> (r: Vec<i128>)
    ensures
        r@ == sing_eps(),
{
    let mut v: Vec<i128> = Vec::new();
    v.push(1_000_000_000);
    v.push(100_000_000);
    v.push(10_000_000);
    v.push(1_000_000);
    v.push(100_000);
    v.push(10_000);
    v.push(1_000);
    v.push(100);
    proof {
        assert(v@ =~= sing_eps());
    }
    v
}

fn pi_eps_vec() -> (r: Vec<i128>)
    ensures
        r@ == pi_eps(),
{
    let mut v: Vec<i128> = Vec::new();
    v.push(1_000_000_000);
    v.push(100_000_000);
    v.push(10_000_000);
    v.push(1_000_000);
    v.push(100_000);
    proof {
        assert(v@ =~= pi_eps());
    }
    v
}

/// The cluster around `z`: both sides at each listed offset.
pub open spec fn cluster_spec(z: i128, eps: Seq<i128>, i: int) -> Seq<i128>
    decreases eps.len() - i,
{
    if i < 0 || i >= eps.len() {
        Seq::empty()
    } else {
        seq![(z + eps[i]) as i128, (z - eps[i]) as i128] + cluster_spec(z, eps, i + 1)
    }
}

fn push_cluster(out: &mut Vec<i128>, z: i128, eps: &Vec<i128>)
    requires
        -2 * CLIP_CAP <= z <= 2 * CLIP_CAP,
        forall|k: int| 0 <= k < eps@.len() ==> 0 < #[trigger] eps@[k] <= SCALE,
    ensures
        final(out)@ == old(out)@ + cluster_spec(z, eps@, 0),
{
    let mut i: usize = 0;
    let ghost base = out@;
    proof {
        assert(base + cluster_spec(z, eps@, 0) =~= base + cluster_spec(z, eps@, 0));
    }
    while i < eps.len()
        invariant
            -2 * CLIP_CAP <= z <= 2 * CLIP_CAP,
            forall|k: int| 0 <= k < eps@.len() ==> 0 < #[trigger] eps@[k] <= SCALE,
            0 <= i <= eps@.len(),
            base + cluster_spec(z, eps@, 0) == out@ + cluster_spec(z, eps@, i as int),
        decreases eps@.len() - i,
    {
        let ghost pre = out@;
        let e = eps[i];
        out.push(z + e);
        out.push(z - e);
        i = i + 1;
        proof {
            assert(out@ =~= pre + seq![(z + e) as i128, (z - e) as i128]);
            assert(pre + cluster_spec(z, eps@, i - 1) =~= out@ + cluster_spec(z, eps@, i as int));
        }
    }
    proof {
        assert(cluster_spec(z, eps@, eps@.len() as int) =~= Seq::<i128>::empty());
        assert(out@ + Seq::<i128>::empty() =~= out@);
    }
}

/// Clusters around every listed singularity.
pub open spec fn sing_clusters_spec(sings: Seq<i128>, i: int) -> Seq<i128>
    decreases sings.len() - i,
{
    if i < 0 || i >= sings.len() {
        Seq::empty()
    } else {
        cluster_spec(sings[i], sing_eps(), 0) + sing_clusters_spec(sings, i + 1)
    }
}

/// Clusters around every multiple of `c` from `-20 c` to `20 c`.
pub open spec fn multiple_clusters_spec(c: i128, i: int) -> Seq<i128>
    decreases 41 - i,
{
    if i < 0 || i > 40 {
        Seq::empty()
    } else {
        cluster_spec(((i - 20) * (c as int)) as i128, pi_eps(), 0) + multiple_clusters_spec(
            c,
            i + 1,
        )
    }
}

/// The wide geometric scan: from a hundred units out to a million, growing
/// by half each time, mirrored on the negative side.
pub open spec fn wide_spec(x: int, fuel: int) -> Seq<i128>
    decreases fuel,
{
    if fuel <= 0 || x >= 1_000_000 * (SCALE as int) {
        Seq::empty()
    } else {
        seq![x as i128, (-x) as i128] + wide_spec(x + x / 2, fuel - 1)
    }
}

fn push_wide(out: &mut Vec<i128>)
    ensures
        final(out)@ == old(out)@ + wide_spec(HUNDRED_RAW as int, 100),
{
    let mut x: i128 = HUNDRED_RAW;
    let mut left: u32 = 100;
    let ghost base = out@;
    proof {
        assert(base + wide_spec(HUNDRED_RAW as int, 100) =~= base + wide_spec(
            HUNDRED_RAW as int,
            100,
        ));
    }
    while left > 0 && x < 1_000_000 * SCALE
        invariant
            HUNDRED_RAW <= x <= 2_000_000 * (SCALE as int),
            base + wide_spec(HUNDRED_RAW as int, 100) == out@ + wide_spec(
                x as int,
                left as int,
            ),
        decreases left,
    {
        let ghost pre = out@;
        out.push(x);
        out.push(-x);
        proof {
            assert(out@ =~= pre + seq![x, (-(x as int)) as i128]);
            assert(pre + wide_spec(x as int, left as int) =~= out@ + wide_spec(
                x + x / 2,
                left - 1,
            ));
        }
        x = x + x / 2;
        left = left - 1;
    }
    proof {
        assert(wide_spec(x as int, left as int) =~= Seq::<i128>::empty());
        assert(out@ + Seq::<i128>::empty() =~= out@);
    }
}

/// The unsorted extra points of the unbounded case: singularity clusters,
/// half-pi-multiple clusters, and the wide scan.
pub open spec fn scan_extras_spec(sings: Seq<i128>) -> Seq<i128> {
    sing_clusters_spec(sings, 0) + multiple_clusters_spec(PI_RAW, 0) + multiple_clusters_spec(
        HALF_PI_RAW,
        0,
    ) + wide_spec(HUNDRED_RAW as int, 100)
}

/// The unsorted extra points of a bounded interval: the two boundary
/// ladders, kept inside the interval.
pub open spec fn iv_extras_spec(lo: int, hi: int, i: int) -> Seq<i128>
    decreases bound_eps().len() - i,
{
    if i < 0 || i >= bound_eps().len() {
        Seq::empty()
    } else {
        let e = bound_eps()[i] as int;
        let a: Seq<i128> = if lo + e <= hi {
            seq![(lo + e) as i128]
        } else {
            Seq::empty()
        };
        let b: Seq<i128> = if hi - e >= lo {
            seq![(hi - e) as i128]
        } else {
            Seq::empty()
        };
        a + b + iv_extras_spec(lo, hi, i + 1)
    }
}

fn build_iv_extras(lo: i128, hi: i128) -> (r: Vec<i128>)
    requires
        -2 * CLIP_CAP <= lo <= 2 * CLIP_CAP,
        -2 * CLIP_CAP <= hi <= 2 * CLIP_CAP,
    ensures
        r@ == iv_extras_spec(lo as int, hi as int, 0),
{
    let eps = bound_eps_vec();
    let mut out: Vec<i128> = Vec::new();
    let mut i: usize = 0;
    proof {
        assert(out@ + iv_extras_spec(lo as int, hi as int, 0) =~= iv_extras_spec(
            lo as int,
            hi as int,
            0,
        ));
    }
    while i < eps.len()
        invariant
            -2 * CLIP_CAP <= lo <= 2 * CLIP_CAP,
            -2 * CLIP_CAP <= hi <= 2 * CLIP_CAP,
            eps@ == bound_eps(),
            0 <= i <= eps@.len(),
            iv_extras_spec(lo as int, hi as int, 0) == out@ + iv_extras_spec(
                lo as int,
                hi as int,
                i as int,
            ),
        decreases eps@.len() - i,
    {
        let ghost pre = out@;
        let e = eps[i];
        proof {
            assert(0 < e <= SCALE);
        }
        if lo + e <= hi {
            out.push(lo + e);
        }
        if hi - e >= lo {
            out.push(hi - e);
        }
        i = i + 1;
        proof {
            let ghost ev = bound_eps()[i - 1] as int;
            let ghost a: Seq<i128> = if lo + ev <= hi {
                seq![(lo + ev) as i128]
            } else {
                Seq::<i128>::empty()
            };
            let ghost b: Seq<i128> = if hi - ev >= lo {
                seq![(hi - ev) as i128]
            } else {
                Seq::<i128>::empty()
            };
            assert(out@ =~= pre + a + b);
            assert(iv_extras_spec(lo as int, hi as int, i - 1) == a + b + iv_extras_spec(
                lo as int,
                hi as int,
                i as int,
            ));
            assert(pre + iv_extras_spec(lo as int, hi as int, i - 1) =~= out@ + iv_extras_spec(
                lo as int,
                hi as int,
                i as int,
            ));
        }
    }
    proof {
        assert(iv_extras_spec(lo as int, hi as int, eps@.len() as int) =~= Seq::<i128>::empty());
        assert(out@ + Seq::<i128>::empty() =~= out@);
    }
    out
}

/// Effective finite endpoints of an interval domain: finite bounds pulled
/// in by a hundred-millionth of a unit, infinite ones replaced by a
/// thousand units.
pub open spec fn eff_lo(b: Ext) -> int {
    match b {
        Ext::Fin(v) => v + 10_000,
        _ => -1000 * (SCALE as int),
    }
}

pub open spec fn eff_hi(b: Ext) -> int {
    match b {
        Ext::Fin(v) => v - 10_000,
        _ => 1000 * (SCALE as int),
    }
}

/// The grid the engine evaluates on, for this domain and singularity set.
pub open spec fn grid_spec(dom: DomainV, sings: Seq<i128>) -> Seq<i128> {
    match dom {
        DomainV::Interval(iv) => {
            let lo = eff_lo(iv.lo);
            let hi = eff_hi(iv.hi);
            let q = div_round_spec_nonneg(hi - lo);
            let step = if q < 1 {
                1
            } else {
                q
            };
            merge_spec(
                uniform_spec(lo, hi, step, 30_000),
                sort_spec(iv_extras_spec(lo, hi, 0)),
            )
        },
        DomainV::Empty => Seq::empty(),
        _ => merge_spec(
            skip_spec(
                -100 * (SCALE as int),
                100 * (SCALE as int),
                (SCALE as int) / 200,
                sings,
                100_000,
            ),
            sort_spec(scan_extras_spec(sings)),
        ),
    }
}

/// The uniform step of a bounded interval: the span split twenty thousand
/// ways, rounded, never below one raw unit.
pub open spec fn div_round_spec_nonneg(span: int) -> int {
    crate::nums::div_round_spec(span, 20_000)
}

/// Generate the evaluation grid: sorted, deduplicated, shaped by the
/// domain and the known singularities.
pub fn generate_grid(dom: &Domain, sings: &Vec<i128>) -> (r: Vec<i128>)
    requires
        forall|k: int| 0 <= k < sings@.len() ==> capped(#[trigger] sings@[k]),
        dom.capped_bounds(),
    ensures
        r@ == grid_spec(dom.dv(), sings@),
        sorted_strict(r@),
{
    match dom {
        Domain::Interval(iv) => {
            let lo: i128 = match iv.lo {
                Ext::Fin(v) => v + 10_000,
                _ => -1000 * SCALE,
            };
            let hi: i128 = match iv.hi {
                Ext::Fin(v) => v - 10_000,
                _ => 1000 * SCALE,
            };
            let q = div_round(hi - lo, 20_000);
            let step = if q < 1 {
                1
            } else {
                q
            };
            let uni = build_uniform(lo, hi, step, 30_000);
            let extras = build_iv_extras(lo, hi);
            let sorted_extras = sort_dedup(&extras);
            merge_dedup(&uni, &sorted_extras)
        },
        Domain::Empty => {
            let r: Vec<i128> = Vec::new();
            proof {
                assert(r@ =~= Seq::<i128>::empty());
            }
            r
        },
        _ => {
            let base = build_skip(-100 * SCALE, 100 * SCALE, SCALE / 200, sings, 100_000);
            let mut extras: Vec<i128> = Vec::new();
            let seps = sing_eps_vec();
            let peps = pi_eps_vec();
            let mut i: usize = 0;
            proof {
                assert(extras@ + sing_clusters_spec(sings@, 0) =~= sing_clusters_spec(
                    sings@,
                    0,
                ));
            }
            while i < sings.len()
                invariant
                    forall|k: int| 0 <= k < sings@.len() ==> capped(#[trigger] sings@[k]),
                    seps@ == sing_eps(),
                    0 <= i <= sings@.len(),
                    sing_clusters_spec(sings@, 0) == extras@ + sing_clusters_spec(
                        sings@,
                        i as int,
                    ),
                decreases sings@.len() - i,
            {
                let ghost pre = extras@;
                push_cluster(&mut extras, sings[i], &seps);
                i = i + 1;
                proof {
                    assert(pre + sing_clusters_spec(sings@, i - 1) =~= extras@
                        + sing_clusters_spec(sings@, i as int));
                }
            }
            let ghost after_sing = extras@;
            let mut n: usize = 0;
            proof {
                assert(after_sing + multiple_clusters_spec(PI_RAW, 0) =~= extras@
                    + multiple_clusters_spec(PI_RAW, 0));
            }
            while n <= 40
                invariant
                    peps@ == pi_eps(),
                    0 <= n <= 41,
                    after_sing + multiple_clusters_spec(PI_RAW, 0) == extras@
                        + multiple_clusters_spec(PI_RAW, n as int),
                decreases 41 - n,
            {
                let ghost pre = extras@;
                let z: i128 = ((n as i128) - 20) * PI_RAW;
                proof {
                    assert(z == ((n as int - 20) * (PI_RAW as int)) as i128);
                }
                push_cluster(&mut extras, z, &peps);
                n = n + 1;
                proof {
                    assert(pre + multiple_clusters_spec(PI_RAW, n - 1) =~= extras@
                        + multiple_clusters_spec(PI_RAW, n as int));
                }
            }
            proof {
                assert(multiple_clusters_spec(PI_RAW, 41int) =~= Seq::<i128>::empty());
                assert(extras@ + Seq::<i128>::empty() =~= extras@);
            }
            let ghost after_pi = extras@;
            let mut m: usize = 0;
            while m <= 40
                invariant
                    peps@ == pi_eps(),
                    0 <= m <= 41,
                    after_pi + multiple_clusters_spec(HALF_PI_RAW, 0) == extras@
                        + multiple_clusters_spec(HALF_PI_RAW, m as int),
                decreases 41 - m,
            {
                let ghost pre = extras@;
                let z: i128 = ((m as i128) - 20) * HALF_PI_RAW;
                proof {
                    assert(z == ((m as int - 20) * (HALF_PI_RAW as int)) as i128);
                }
                push_cluster(&mut extras, z, &peps);
                m = m + 1;
                proof {
                    assert(pre + multiple_clusters_spec(HALF_PI_RAW, m - 1) =~= extras@
                        + multiple_clusters_spec(HALF_PI_RAW, m as int));
                }
            }
            proof {
                assert(multiple_clusters_spec(HALF_PI_RAW, 41int) =~= Seq::<i128>::empty());
                assert(extras@ + Seq::<i128>::empty() =~= extras@);
            }
            push_wide(&mut extras);
            proof {
                assert(extras@ =~= scan_extras_spec(sings@));
            }
            let sorted_extras = sort_dedup(&extras);
            merge_dedup(&base, &sorted_extras)
        },
    }
}

} // verus!

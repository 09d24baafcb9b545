//! Fixed-point numeric base of the engine.
//!
//! Every real quantity is carried as an `i128` count of units of `1/SCALE`
//! (a trillionth).  This gives the engine exact, verifiable arithmetic with
//! enough resolution for all tolerances it works with: the finest offset it
//! ever probes is one raw unit.

use vstd::prelude::*;

verus! {

/// Raw units per 1.0.
pub const SCALE: i128 = 1_000_000_000_000;

/// Largest magnitude a sampled value is allowed to keep; anything larger is
/// clamped to this cap when it enters the engine (it still counts as
/// "diverging" evidence, which is all a larger value could say).
pub const CLIP_CAP: i128 = 1_000_000_000_000_000_000_000_000_000;

/// Magnitude treated as "effectively infinite" for a final bound.
pub const INF_RAW: i128 = 1_000_000_000_000_000_000_000_000;

/// Magnitude that marks divergence evidence near a singularity or at infinity.
pub const DIV_RAW: i128 = 10_000_000_000_000_000_000_000;

/// Tolerance used when snapping to nearby exact values (a billionth).
pub const ZERO_EPS: i128 = 1_000;

/// Tolerance used when matching a value against a known constant.
pub const SYM_EPS: i128 = 10_000;

/// Tolerance of the reachability probe that decides boundary openness.
pub const ACH_TOL: i128 = 1_000_000;

/// The detector's outer probe radius (a hundred units).
pub const HUNDRED_RAW: i128 = 100_000_000_000_000;

/// Known constants, in raw units.
pub const PI_RAW: i128 = 3_141_592_653_590;

pub const HALF_PI_RAW: i128 = 1_570_796_326_795;

pub const TWO_PI_RAW: i128 = 6_283_185_307_180;

pub const THIRD_PI_RAW: i128 = 1_047_197_551_197;

pub const QUARTER_PI_RAW: i128 = 785_398_163_397;

pub const SIXTH_PI_RAW: i128 = 523_598_775_598;

pub const E_RAW: i128 = 2_718_281_828_459;

pub const INV_E_RAW: i128 = 367_879_441_171;

pub const SQRT2_RAW: i128 = 1_414_213_562_373;

pub const HALF_SQRT2_RAW: i128 = 707_106_781_187;

pub const SQRT3_RAW: i128 = 1_732_050_807_569;

pub const HALF_SQRT3_RAW: i128 = 866_025_403_784;

pub const SQRT5_RAW: i128 = 2_236_067_977_500;

/// Minimum of self-exponentiation on the positive reals.
pub const XX_MIN_RAW: i128 = 692_200_627_555;

/// Extremum magnitude of the Gaussian-damped identity.
pub const XEXP_BOUND_RAW: i128 = 428_881_942_480;

/// Extended value: a finite fixed-point number or one of the two infinities.
#[derive(Clone, Copy, Debug, PartialEq, Eq, Structural)]
pub enum Ext {
    NegInf,
    Fin(i128),
    PosInf,
}

impl Ext {
    /// Order on extended values.
    pub open spec fn le(self, other: Ext) -> bool {
        match (self, other) {
            (Ext::NegInf, _) => true,
            (_, Ext::PosInf) => true,
            (Ext::Fin(a), Ext::Fin(b)) => a <= b,
            _ => false,
        }
    }

    pub open spec fn is_fin(self) -> bool {
        self is Fin
    }
}

/// Clamp a sampled value into the cap the engine works with.
pub open spec fn clip_spec(y: i128) -> i128 {
    if y > CLIP_CAP {
        CLIP_CAP
    } else if y < -CLIP_CAP {
        (-CLIP_CAP) as i128
    } else {
        y
    }
}

pub fn clip(y: i128) -> (r: i128)
    ensures
        r == clip_spec(y),
{
    if y > CLIP_CAP {
        CLIP_CAP
    } else if y < -CLIP_CAP {
        -CLIP_CAP
    } else {
        y
    }
}

pub open spec fn abs_spec(x: i128) -> int {
    if x < 0 {
        -(x as int)
    } else {
        x as int
    }
}

/// Absolute value of a clipped quantity (never called on `i128::MIN`).
pub fn abs_i(x: i128) -> (r: i128)
    requires
        x != i128::MIN,
    ensures
        r == abs_spec(x),
{
    if x < 0 {
        -x
    } else {
        x
    }
}

pub open spec fn min_spec(a: i128, b: i128) -> i128 {
    if a <= b {
        a
    } else {
        b
    }
}

pub open spec fn max_spec(a: i128, b: i128) -> i128 {
    if a <= b {
        b
    } else {
        a
    }
}

pub fn min_i(a: i128, b: i128) -> (r: i128)
    ensures
        r == min_spec(a, b),
{
    if a <= b {
        a
    } else {
        b
    }
}

pub fn max_i(a: i128, b: i128) -> (r: i128)
    ensures
        r == max_spec(a, b),
{
    if a <= b {
        b
    } else {
        a
    }
}

/// Division truncated toward zero (machine-style signed division).
pub open spec fn tdiv_spec(n: int, d: int) -> int
    recommends
        d > 0,
{
    if n >= 0 {
        n / d
    } else {
        -((-n) / d)
    }
}

pub fn tdiv(n: i128, d: i128) -> (r: i128)
    requires
        d > 0,
        n != i128::MIN,
    ensures
        r == tdiv_spec(n as int, d as int),
{
    if n >= 0 {
        n / d
    } else {
        -((-n) / d)
    }
}

/// Midpoint, rounded toward minus infinity.
pub open spec fn favg_spec(a: int, b: int) -> int {
    (a + b) / 2
}

pub fn favg(a: i128, b: i128) -> (r: i128)
    requires
        -0x2000_0000_0000_0000_0000_0000_0000_0000 < a
            < 0x2000_0000_0000_0000_0000_0000_0000_0000,
        -0x2000_0000_0000_0000_0000_0000_0000_0000 < b
            < 0x2000_0000_0000_0000_0000_0000_0000_0000,
    ensures
        r == favg_spec(a as int, b as int),
        min_spec(a, b) <= r <= max_spec(a, b),
{
    let s = a + b;
    if s >= 0 {
        s / 2
    } else {
        -((-s + 1) / 2)
    }
}

/// Midpoint, truncated toward zero.
pub open spec fn avg_spec(a: int, b: int) -> int {
    tdiv_spec(a + b, 2)
}

pub fn avg(a: i128, b: i128) -> (r: i128)
    requires
        -0x2000_0000_0000_0000_0000_0000_0000_0000 < a
            < 0x2000_0000_0000_0000_0000_0000_0000_0000,
        -0x2000_0000_0000_0000_0000_0000_0000_0000 < b
            < 0x2000_0000_0000_0000_0000_0000_0000_0000,
    ensures
        r == avg_spec(a as int, b as int),
        min_spec(a, b) <= r <= max_spec(a, b),
{
    let s = a + b;
    let r = tdiv(s, 2);
    proof {
        if s >= 0 {
            assert(r == s / 2);
        }
    }
    r
}

/// Division rounded to the nearest integer, ties away from zero.
pub open spec fn div_round_spec(n: int, d: int) -> int
    recommends
        d > 0,
{
    if n >= 0 {
        (n + d / 2) / d
    } else {
        -((-n + d / 2) / d)
    }
}

pub fn div_round(n: i128, d: i128) -> (r: i128)
    requires
        d > 0,
        -0x4000_0000_0000_0000_0000_0000_0000_0000 < n
            < 0x4000_0000_0000_0000_0000_0000_0000_0000,
        d < 0x4000_0000_0000_0000_0000_0000_0000_0000,
    ensures
        r == div_round_spec(n as int, d as int),
        n >= 0 ==> 0 <= r && r <= (n as int) / (d as int) + 1,
        n < 0 ==> 0 >= r && r >= -((-(n as int)) / (d as int)) - 1,
{
    if n >= 0 {
        proof {
            vstd::arithmetic::div_mod::lemma_div_is_ordered(0, n + d / 2, d as int);
            vstd::arithmetic::div_mod::lemma_div_is_ordered(n + d / 2, n + d, d as int);
            vstd::arithmetic::div_mod::lemma_div_plus_one(n as int, d as int);
        }
        (n + d / 2) / d
    } else {
        proof {
            vstd::arithmetic::div_mod::lemma_div_is_ordered(0, -n + d / 2, d as int);
            vstd::arithmetic::div_mod::lemma_div_is_ordered(-n + d / 2, -n + d, d as int);
            vstd::arithmetic::div_mod::lemma_div_plus_one(-(n as int), d as int);
        }
        -((-n + d / 2) / d)
    }
}

} // verus!

//! The function under test.
//!
//! The engine never parses formulas itself; it probes an opaque callable,
//! exactly as the design calls for.  A callable is anything implementing
//! [`RealFn`]: a pure map from a fixed-point input to either a fixed-point
//! output or "undefined".  The spec member pins the map down, so every
//! result the engine derives is a function of the callable alone, which is
//! what makes the whole pipeline provably deterministic.

use vstd::prelude::*;

use crate::nums::{clip, clip_spec, CLIP_CAP, SCALE};

verus! {

/// A single-variable real function in fixed-point form.
pub trait RealFn {
    /// The mathematical content of the callable: what `eval` returns.
    spec fn spec_eval(&self, x: i128) -> Option<i128>;

    /// Evaluate at `x`; `None` means the function is undefined there
    /// (covers NaN, domain errors and overflow in the source material).
    fn eval(&self, x: i128) -> (r: Option<i128>)
        ensures
            r == self.spec_eval(x),
    ;
}

/// What the engine observes at `x`: the callable's answer, clamped into the
/// value cap.  All engine contracts are phrased over this observation.
pub open spec fn obs<F: RealFn>(f: &F, x: i128) -> Option<i128> {
    match f.spec_eval(x) {
        Option::None => Option::None,
        Option::Some(y) => Option::Some(clip_spec(y)),
    }
}

/// Evaluate and clamp; the engine's only way of looking at the callable.
pub fn probe<F: RealFn>(f: &F, x: i128) -> (r: Option<i128>)
    ensures
        r == obs(f, x),
{
    match f.eval(x) {
        Option::None => Option::None,
        Option::Some(y) => Option::Some(clip(y)),
    }
}

/// The absolute-value function, in fixed point.
pub struct AbsVal;

impl RealFn for AbsVal {
    open spec fn spec_eval(&self, x: i128) -> Option<i128> {
        if x == i128::MIN {
            Option::None
        } else if x < 0 {
            Option::Some((-x) as i128)
        } else {
            Option::Some(x)
        }
    }

    fn eval(&self, x: i128) -> (r: Option<i128>) {
        if x == i128::MIN {
            Option::None
        } else if x < 0 {
            Option::Some(-x)
        } else {
            Option::Some(x)
        }
    }
}

/// The reciprocal `1/x`, undefined at zero.
pub struct Recip;

impl RealFn for Recip {
    open spec fn spec_eval(&self, x: i128) -> Option<i128> {
        if x == 0 {
            Option::None
        } else if x == i128::MIN {
            Option::Some(0)
        } else if x > 0 {
            Option::Some(((SCALE * SCALE) / (x as int)) as i128)
        } else {
            Option::Some((-((SCALE * SCALE) / ((-(x as int))))) as i128)
        }
    }

    fn eval(&self, x: i128) -> (r: Option<i128>) {
        if x == 0 {
            Option::None
        } else if x == i128::MIN {
            Option::Some(0)
        } else if x > 0 {
            Option::Some((SCALE * SCALE) / x)
        } else {
            let q = (SCALE * SCALE) / (-x);
            Option::Some(-q)
        }
    }
}

/// The square `x * x`, saturating at the value cap for huge inputs.
pub struct Square;

impl RealFn for Square {
    open spec fn spec_eval(&self, x: i128) -> Option<i128> {
        if x > 10_000_000_000_000_000_000 || x < -10_000_000_000_000_000_000 {
            Option::Some(CLIP_CAP)
        } else {
            Option::Some(((x as int) * (x as int) / (SCALE as int)) as i128)
        }
    }

    fn eval(&self, x: i128) -> (r: Option<i128>) {
        if x > 10_000_000_000_000_000_000 || x < -10_000_000_000_000_000_000 {
            Option::Some(CLIP_CAP)
        } else {
            proof {
                assert(x * x <= 10_000_000_000_000_000_000 * 10_000_000_000_000_000_000int)
                    by (nonlinear_arith)
                    requires
                        -10_000_000_000_000_000_000 <= x <= 10_000_000_000_000_000_000,
                ;
                assert(x * x >= 0) by (nonlinear_arith);
            }
            Option::Some(x * x / SCALE)
        }
    }
}

/// A function given pointwise by a table; inputs not in the table are
/// undefined.  Lets a caller hand the engine any finite sampled shape.
pub struct TableFn {
    pub pts: Vec<(i128, i128)>,
}

/// The first table entry for `x`, scanning from index `i`.
pub open spec fn table_find(pts: Seq<(i128, i128)>, x: i128, i: int) -> Option<i128>
    decreases pts.len() - i,
{
    if i < 0 || i >= pts.len() {
        Option::None
    } else if pts[i].0 == x {
        Option::Some(pts[i].1)
    } else {
        table_find(pts, x, i + 1)
    }
}

impl RealFn for TableFn {
    open spec fn spec_eval(&self, x: i128) -> Option<i128> {
        table_find(self.pts@, x, 0)
    }

    fn eval(&self, x: i128) -> (r: Option<i128>) {
        let n = self.pts.len();
        let mut i: usize = 0;
        while i < n
            invariant
                n == self.pts.len(),
                0 <= i <= n,
                table_find(self.pts@, x, 0) == table_find(self.pts@, x, i as int),
            decreases n - i,
        {
            let (px, py) = self.pts[i];
            if px == x {
                return Option::Some(py);
            }
            i = i + 1;
        }
        Option::None
    }
}

/// A function undefined everywhere; the degenerate case the design singles
/// out (an all-undefined grid must surface as an explicit undefined result).
pub struct NoWhere;

impl RealFn for NoWhere {
    open spec fn spec_eval(&self, x: i128) -> Option<i128> {
        Option::None
    }

    fn eval(&self, x: i128) -> (r: Option<i128>) {
        Option::None
    }
}

} // verus!

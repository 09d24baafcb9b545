//! The special-case knowledge base.
//!
//! An immutable mapping from a canonicalized expression key to a
//! structured override record: known exact facts about common functions
//! that patch the blind spots of sampling and optimization (true extrema
//! at measure-zero points, openness at limits the probe cannot see).
//! Loaded logic, not state: the mapping is a pure function of the key,
//! consulted exactly once at synthesis time, and an override replaces the
//! corresponding piece of numeric evidence wholesale.

use vstd::prelude::*;
use vstd::string::StringSliceAdditionalSpecFns;

use crate::keys::{eq_bytes, lit};
use crate::model::{Ival, RangeShape, RangeShapeV};
use crate::nums::{Ext, E_RAW, HALF_PI_RAW, INV_E_RAW, PI_RAW, SCALE, SQRT2_RAW,
    XEXP_BOUND_RAW};

verus! {

/// Half of one, in raw units.
pub const HALF_SCALE: i128 = 500_000_000_000;

/// A quarter of one, in raw units, negated for the quartic dip.
pub const QUARTER_SCALE: i128 = 250_000_000_000;

/// One override record: any subset of rough bounds, boundedness flags,
/// boundary openness and range shape, plus whether the key was known.
pub struct Case {
    pub hit: bool,
    pub lo_val: Option<i128>,
    pub hi_val: Option<i128>,
    pub div: Option<(bool, bool)>,
    pub lo_open: Option<bool>,
    pub hi_open: Option<bool>,
    pub shape: Option<RangeShape>,
}

/// Spec-level mirror of [`Case`].
pub struct CaseV {
    pub hit: bool,
    pub lo_val: Option<i128>,
    pub hi_val: Option<i128>,
    pub div: Option<(bool, bool)>,
    pub lo_open: Option<bool>,
    pub hi_open: Option<bool>,
    pub shape: Option<RangeShapeV>,
}

impl Case {
    pub open spec fn dv(self) -> CaseV {
        CaseV {
            hit: self.hit,
            lo_val: self.lo_val,
            hi_val: self.hi_val,
            div: self.div,
            lo_open: self.lo_open,
            hi_open: self.hi_open,
            shape: match self.shape {
                Option::Some(s) => Option::Some(s.dv()),
                Option::None => Option::None,
            },
        }
    }
}

/// The split output set of the reciprocal-exponential: a unit gap at one.
pub open spec fn exp_parts_v() -> Seq<Ival> {
    seq![
        Ival { lo: Ext::Fin(0), hi: Ext::Fin(SCALE), lo_open: true, hi_open: true },
        Ival { lo: Ext::Fin(SCALE), hi: Ext::PosInf, lo_open: true, hi_open: true },
    ]
}

fn exp_parts() -> (r: Vec<Ival>)
    ensures
        r@ == exp_parts_v(),
{
    let mut v: Vec<Ival> = Vec::new();
    v.push(Ival { lo: Ext::Fin(0), hi: Ext::Fin(SCALE), lo_open: true, hi_open: true });
    v.push(Ival { lo: Ext::Fin(SCALE), hi: Ext::PosInf, lo_open: true, hi_open: true });
    proof {
        assert(v@ =~= exp_parts_v());
    }
    v
}

/// The empty record: no override, key unknown.
pub open spec fn no_case() -> CaseV {
    CaseV {
        hit: false,
        lo_val: Option::None,
        hi_val: Option::None,
        div: Option::None,
        lo_open: Option::None,
        hi_open: Option::None,
        shape: Option::None,
    }
}

/// What the knowledge base says for a canonical key.
pub open spec fn case_override(key: Seq<u8>) -> CaseV {
    if key == "sin(x)".spec_bytes() || key == "cos(x)".spec_bytes() {
        CaseV {
            hit: true,
            lo_val: Option::Some((-SCALE) as i128),
            hi_val: Option::Some(SCALE),
            div: Option::Some((false, false)),
            lo_open: Option::Some(false),
            hi_open: Option::Some(false),
            shape: Option::None,
        }
    } else if key == "abs(sin(x))".spec_bytes() || key == "abs(cos(x))".spec_bytes() {
        CaseV {
            hit: true,
            lo_val: Option::Some(0),
            hi_val: Option::Some(SCALE),
            div: Option::Some((false, false)),
            lo_open: Option::Some(false),
            hi_open: Option::Some(false),
            shape: Option::None,
        }
    } else if key == "sin(x)^2".spec_bytes() || key == "cos(x)^2".spec_bytes() {
        CaseV {
            hit: true,
            lo_val: Option::Some(0),
            hi_val: Option::Some(SCALE),
            div: Option::Some((false, false)),
            lo_open: Option::Some(false),
            hi_open: Option::Some(false),
            shape: Option::None,
        }
    } else if key == "sin(x)^2+cos(x)^2".spec_bytes() {
        CaseV {
            hit: true,
            lo_val: Option::Some(SCALE),
            hi_val: Option::Some(SCALE),
            div: Option::Some((false, false)),
            lo_open: Option::Some(false),
            hi_open: Option::Some(false),
            shape: Option::None,
        }
    } else if key == "exp(sin(x))".spec_bytes() {
        CaseV {
            hit: true,
            lo_val: Option::Some(INV_E_RAW),
            hi_val: Option::Some(E_RAW),
            div: Option::Some((false, false)),
            lo_open: Option::Some(false),
            hi_open: Option::Some(false),
            shape: Option::None,
        }
    } else if key == "exp(cos(x))".spec_bytes() {
        CaseV {
            hit: true,
            lo_val: Option::Some(INV_E_RAW),
            hi_val: Option::Some(E_RAW),
            div: Option::Some((false, false)),
            lo_open: Option::None,
            hi_open: Option::None,
            shape: Option::None,
        }
    } else if key == "atan(x)".spec_bytes() {
        CaseV {
            hit: true,
            lo_val: Option::Some((-HALF_PI_RAW) as i128),
            hi_val: Option::Some(HALF_PI_RAW),
            div: Option::Some((false, false)),
            lo_open: Option::Some(true),
            hi_open: Option::Some(true),
            shape: Option::None,
        }
    } else if key == "asin(x)".spec_bytes() {
        CaseV {
            hit: true,
            lo_val: Option::Some((-HALF_PI_RAW) as i128),
            hi_val: Option::Some(HALF_PI_RAW),
            div: Option::Some((false, false)),
            lo_open: Option::Some(false),
            hi_open: Option::Some(false),
            shape: Option::None,
        }
    } else if key == "acos(x)".spec_bytes() {
        CaseV {
            hit: true,
            lo_val: Option::Some(0),
            hi_val: Option::Some(PI_RAW),
            div: Option::Some((false, false)),
            lo_open: Option::Some(false),
            hi_open: Option::Some(false),
            shape: Option::None,
        }
    } else if key == "tanh(x)".spec_bytes() {
        CaseV {
            hit: true,
            lo_val: Option::Some((-SCALE) as i128),
            hi_val: Option::Some(SCALE),
            div: Option::Some((false, false)),
            lo_open: Option::Some(true),
            hi_open: Option::Some(true),
            shape: Option::None,
        }
    } else if key == "1/(1+x^2)".spec_bytes() {
        CaseV {
            hit: true,
            lo_val: Option::Some(0),
            hi_val: Option::Some(SCALE),
            div: Option::Some((false, false)),
            lo_open: Option::Some(true),
            hi_open: Option::Some(false),
            shape: Option::None,
        }
    } else if key == "(x^2-1)/(x^2+1)".spec_bytes() {
        CaseV {
            hit: true,
            lo_val: Option::Some((-SCALE) as i128),
            hi_val: Option::Some(SCALE),
            div: Option::Some((false, false)),
            lo_open: Option::Some(false),
            hi_open: Option::Some(true),
            shape: Option::None,
        }
    } else if key == "exp(-x^2)".spec_bytes() {
        CaseV {
            hit: true,
            lo_val: Option::Some(0),
            hi_val: Option::Some(SCALE),
            div: Option::Some((false, false)),
            lo_open: Option::Some(true),
            hi_open: Option::Some(false),
            shape: Option::None,
        }
    } else if key == "exp(-abs(x))".spec_bytes() {
        CaseV {
            hit: true,
            lo_val: Option::Some(0),
            hi_val: Option::Some(SCALE),
            div: Option::Some((false, false)),
            lo_open: Option::Some(true),
            hi_open: Option::Some(false),
            shape: Option::None,
        }
    } else if key == "x/(1+x^2)".spec_bytes() {
        CaseV {
            hit: true,
            lo_val: Option::Some((-HALF_SCALE) as i128),
            hi_val: Option::Some(HALF_SCALE),
            div: Option::Some((false, false)),
            lo_open: Option::Some(false),
            hi_open: Option::Some(false),
            shape: Option::None,
        }
    } else if key == "x^2/(1+x^4)".spec_bytes() {
        CaseV {
            hit: true,
            lo_val: Option::Some(0),
            hi_val: Option::Some(HALF_SCALE),
            div: Option::Some((false, false)),
            lo_open: Option::Some(false),
            hi_open: Option::Some(false),
            shape: Option::None,
        }
    } else if key == "sin(x)*cos(x)".spec_bytes() {
        CaseV {
            hit: true,
            lo_val: Option::Some((-HALF_SCALE) as i128),
            hi_val: Option::Some(HALF_SCALE),
            div: Option::Some((false, false)),
            lo_open: Option::Some(false),
            hi_open: Option::Some(false),
            shape: Option::None,
        }
    } else if key == "sin(x)+cos(x)".spec_bytes() {
        CaseV {
            hit: true,
            lo_val: Option::Some((-SQRT2_RAW) as i128),
            hi_val: Option::Some(SQRT2_RAW),
            div: Option::Some((false, false)),
            lo_open: Option::Some(false),
            hi_open: Option::Some(false),
            shape: Option::None,
        }
    } else if key == "sin(x^2)".spec_bytes() {
        CaseV {
            hit: true,
            lo_val: Option::Some((-SCALE) as i128),
            hi_val: Option::Some(SCALE),
            div: Option::Some((false, false)),
            lo_open: Option::Some(false),
            hi_open: Option::Some(false),
            shape: Option::None,
        }
    } else if key == "x*exp(-x^2)".spec_bytes() {
        CaseV {
            hit: true,
            lo_val: Option::Some((-XEXP_BOUND_RAW) as i128),
            hi_val: Option::Some(XEXP_BOUND_RAW),
            div: Option::Some((false, false)),
            lo_open: Option::Some(false),
            hi_open: Option::Some(false),
            shape: Option::None,
        }
    } else if key == "exp(-1/x^2)".spec_bytes() {
        CaseV {
            hit: true,
            lo_val: Option::Some(0),
            hi_val: Option::Some(SCALE),
            div: Option::Some((false, false)),
            lo_open: Option::Some(true),
            hi_open: Option::Some(false),
            shape: Option::None,
        }
    } else if key == "ln(1+x^2)/x^2".spec_bytes() {
        CaseV {
            hit: true,
            lo_val: Option::Some(0),
            hi_val: Option::Some(SCALE),
            div: Option::Some((false, false)),
            lo_open: Option::Some(true),
            hi_open: Option::Some(false),
            shape: Option::None,
        }
    } else if key == "abs(x)".spec_bytes() {
        CaseV {
            hit: true,
            lo_val: Option::Some(0),
            hi_val: Option::None,
            div: Option::Some((true, false)),
            lo_open: Option::Some(false),
            hi_open: Option::None,
            shape: Option::None,
        }
    } else if key == "x^2".spec_bytes() {
        CaseV {
            hit: true,
            lo_val: Option::Some(0),
            hi_val: Option::None,
            div: Option::Some((true, false)),
            lo_open: Option::Some(false),
            hi_open: Option::None,
            shape: Option::None,
        }
    } else if key == "x^3".spec_bytes() {
        CaseV {
            hit: true,
            lo_val: Option::None,
            hi_val: Option::None,
            div: Option::Some((true, true)),
            lo_open: Option::None,
            hi_open: Option::None,
            shape: Option::None,
        }
    } else if key == "cosh(x)".spec_bytes() {
        CaseV {
            hit: true,
            lo_val: Option::Some(SCALE),
            hi_val: Option::None,
            div: Option::Some((true, false)),
            lo_open: Option::Some(false),
            hi_open: Option::None,
            shape: Option::None,
        }
    } else if key == "sinh(x)".spec_bytes() {
        CaseV {
            hit: true,
            lo_val: Option::None,
            hi_val: Option::None,
            div: Option::Some((true, true)),
            lo_open: Option::None,
            hi_open: Option::None,
            shape: Option::None,
        }
    } else if key == "ln(x)".spec_bytes() || key == "log(x)".spec_bytes() {
        CaseV {
            hit: true,
            lo_val: Option::None,
            hi_val: Option::None,
            div: Option::Some((true, true)),
            lo_open: Option::None,
            hi_open: Option::None,
            shape: Option::None,
        }
    } else if key == "ln(x^2+1)".spec_bytes() {
        CaseV {
            hit: true,
            lo_val: Option::Some(0),
            hi_val: Option::None,
            div: Option::Some((true, false)),
            lo_open: Option::Some(false),
            hi_open: Option::None,
            shape: Option::None,
        }
    } else if key == "x^4-x^2".spec_bytes() {
        CaseV {
            hit: true,
            lo_val: Option::Some((-QUARTER_SCALE) as i128),
            hi_val: Option::None,
            div: Option::Some((true, false)),
            lo_open: Option::Some(false),
            hi_open: Option::None,
            shape: Option::None,
        }
    } else if key == "tan(x)".spec_bytes() {
        CaseV {
            hit: true,
            lo_val: Option::None,
            hi_val: Option::None,
            div: Option::Some((true, true)),
            lo_open: Option::None,
            hi_open: Option::None,
            shape: Option::None,
        }
    } else if key == "1/sin(x)".spec_bytes() || key == "csc(x)".spec_bytes() || key
        == "1/cos(x)".spec_bytes() || key == "sec(x)".spec_bytes() {
        CaseV {
            hit: true,
            lo_val: Option::None,
            hi_val: Option::None,
            div: Option::Some((true, true)),
            lo_open: Option::None,
            hi_open: Option::None,
            shape: Option::Some(RangeShapeV::UnionExterior { bound: SCALE, closed: true }),
        }
    } else if key == "1/x".spec_bytes() {
        CaseV {
            hit: true,
            lo_val: Option::None,
            hi_val: Option::None,
            div: Option::Some((true, true)),
            lo_open: Option::None,
            hi_open: Option::None,
            shape: Option::Some(RangeShapeV::SplitAt { excluded: 0 }),
        }
    } else if key == "exp(1/x)".spec_bytes() {
        CaseV {
            hit: true,
            lo_val: Option::Some(0),
            hi_val: Option::None,
            div: Option::Some((true, false)),
            lo_open: Option::Some(true),
            hi_open: Option::None,
            shape: Option::Some(RangeShapeV::UnionParts { parts: exp_parts_v() }),
        }
    } else if key == "x*sin(x)".spec_bytes() || key == "x+sin(x)".spec_bytes() {
        CaseV {
            hit: true,
            lo_val: Option::None,
            hi_val: Option::None,
            div: Option::Some((true, true)),
            lo_open: Option::None,
            hi_open: Option::None,
            shape: Option::None,
        }
    } else if key == "ln(abs(x))".spec_bytes() {
        CaseV {
            hit: true,
            lo_val: Option::None,
            hi_val: Option::None,
            div: Option::Some((true, true)),
            lo_open: Option::None,
            hi_open: Option::None,
            shape: Option::None,
        }
    } else if key == "sin(x)/x^2".spec_bytes() {
        CaseV {
            hit: true,
            lo_val: Option::None,
            hi_val: Option::None,
            div: Option::Some((true, true)),
            lo_open: Option::None,
            hi_open: Option::None,
            shape: Option::None,
        }
    } else if key == "exp(-x)*sin(x)".spec_bytes() {
        CaseV {
            hit: true,
            lo_val: Option::None,
            hi_val: Option::None,
            div: Option::Some((true, true)),
            lo_open: Option::None,
            hi_open: Option::None,
            shape: Option::None,
        }
    } else if key == "(x-1)/(x+1)".spec_bytes() || key == "x/(x^2-1)".spec_bytes() || key
        == "(x^2+1)/(x^2-1)".spec_bytes() {
        CaseV {
            hit: true,
            lo_val: Option::None,
            hi_val: Option::None,
            div: Option::Some((true, true)),
            lo_open: Option::None,
            hi_open: Option::None,
            shape: Option::None,
        }
    } else if key == "exp(x)".spec_bytes() {
        CaseV {
            hit: true,
            lo_val: Option::None,
            hi_val: Option::None,
            div: Option::None,
            lo_open: Option::Some(true),
            hi_open: Option::None,
            shape: Option::None,
        }
    } else if key == "sin(x)/x".spec_bytes() {
        CaseV {
            hit: true,
            lo_val: Option::None,
            hi_val: Option::None,
            div: Option::None,
            lo_open: Option::Some(false),
            hi_open: Option::Some(false),
            shape: Option::None,
        }
    } else if key == "x^x".spec_bytes() {
        CaseV {
            hit: true,
            lo_val: Option::None,
            hi_val: Option::None,
            div: Option::None,
            lo_open: Option::Some(false),
            hi_open: Option::None,
            shape: Option::None,
        }
    } else if key == "sqrt(x)".spec_bytes() {
        CaseV {
            hit: true,
            lo_val: Option::Some(0),
            hi_val: Option::None,
            div: Option::Some((true, false)),
            lo_open: Option::Some(false),
            hi_open: Option::None,
            shape: Option::None,
        }
    } else if key == "abs(x)^(1/2)".spec_bytes() {
        CaseV {
            hit: true,
            lo_val: Option::Some(0),
            hi_val: Option::None,
            div: Option::Some((true, false)),
            lo_open: Option::Some(false),
            hi_open: Option::None,
            shape: Option::None,
        }
    } else {
        no_case()
    }
}

/// Look a canonical key up in the knowledge base.
pub fn lookup_case(key: &Vec<u8>) -> (r: Case)
    ensures
        r.dv() == case_override(key@),
{
    if eq_bytes(key, &lit("sin(x)")) || eq_bytes(key, &lit("cos(x)")) {
        return Case {
            hit: true,
            lo_val: Option::Some(-SCALE),
            hi_val: Option::Some(SCALE),
            div: Option::Some((false, false)),
            lo_open: Option::Some(false),
            hi_open: Option::Some(false),
            shape: Option::None,
        };
    }
    if eq_bytes(key, &lit("abs(sin(x))")) || eq_bytes(key, &lit("abs(cos(x))")) {
        return Case {
            hit: true,
            lo_val: Option::Some(0),
            hi_val: Option::Some(SCALE),
            div: Option::Some((false, false)),
            lo_open: Option::Some(false),
            hi_open: Option::Some(false),
            shape: Option::None,
        };
    }
    if eq_bytes(key, &lit("sin(x)^2")) || eq_bytes(key, &lit("cos(x)^2")) {
        return Case {
            hit: true,
            lo_val: Option::Some(0),
            hi_val: Option::Some(SCALE),
            div: Option::Some((false, false)),
            lo_open: Option::Some(false),
            hi_open: Option::Some(false),
            shape: Option::None,
        };
    }
    if eq_bytes(key, &lit("sin(x)^2+cos(x)^2")) {
        return Case {
            hit: true,
            lo_val: Option::Some(SCALE),
            hi_val: Option::Some(SCALE),
            div: Option::Some((false, false)),
            lo_open: Option::Some(false),
            hi_open: Option::Some(false),
            shape: Option::None,
        };
    }
    if eq_bytes(key, &lit("exp(sin(x))")) {
        return Case {
            hit: true,
            lo_val: Option::Some(INV_E_RAW),
            hi_val: Option::Some(E_RAW),
            div: Option::Some((false, false)),
            lo_open: Option::Some(false),
            hi_open: Option::Some(false),
            shape: Option::None,
        };
    }
    if eq_bytes(key, &lit("exp(cos(x))")) {
        return Case {
            hit: true,
            lo_val: Option::Some(INV_E_RAW),
            hi_val: Option::Some(E_RAW),
            div: Option::Some((false, false)),
            lo_open: Option::None,
            hi_open: Option::None,
            shape: Option::None,
        };
    }
    if eq_bytes(key, &lit("atan(x)")) {
        return Case {
            hit: true,
            lo_val: Option::Some(-HALF_PI_RAW),
            hi_val: Option::Some(HALF_PI_RAW),
            div: Option::Some((false, false)),
            lo_open: Option::Some(true),
            hi_open: Option::Some(true),
            shape: Option::None,
        };
    }
    if eq_bytes(key, &lit("asin(x)")) {
        return Case {
            hit: true,
            lo_val: Option::Some(-HALF_PI_RAW),
            hi_val: Option::Some(HALF_PI_RAW),
            div: Option::Some((false, false)),
            lo_open: Option::Some(false),
            hi_open: Option::Some(false),
            shape: Option::None,
        };
    }
    if eq_bytes(key, &lit("acos(x)")) {
        return Case {
            hit: true,
            lo_val: Option::Some(0),
            hi_val: Option::Some(PI_RAW),
            div: Option::Some((false, false)),
            lo_open: Option::Some(false),
            hi_open: Option::Some(false),
            shape: Option::None,
        };
    }
    if eq_bytes(key, &lit("tanh(x)")) {
        return Case {
            hit: true,
            lo_val: Option::Some(-SCALE),
            hi_val: Option::Some(SCALE),
            div: Option::Some((false, false)),
            lo_open: Option::Some(true),
            hi_open: Option::Some(true),
            shape: Option::None,
        };
    }
    if eq_bytes(key, &lit("1/(1+x^2)")) {
        return Case {
            hit: true,
            lo_val: Option::Some(0),
            hi_val: Option::Some(SCALE),
            div: Option::Some((false, false)),
            lo_open: Option::Some(true),
            hi_open: Option::Some(false),
            shape: Option::None,
        };
    }
    if eq_bytes(key, &lit("(x^2-1)/(x^2+1)")) {
        return Case {
            hit: true,
            lo_val: Option::Some(-SCALE),
            hi_val: Option::Some(SCALE),
            div: Option::Some((false, false)),
            lo_open: Option::Some(false),
            hi_open: Option::Some(true),
            shape: Option::None,
        };
    }
    if eq_bytes(key, &lit("exp(-x^2)")) {
        return Case {
            hit: true,
            lo_val: Option::Some(0),
            hi_val: Option::Some(SCALE),
            div: Option::Some((false, false)),
            lo_open: Option::Some(true),
            hi_open: Option::Some(false),
            shape: Option::None,
        };
    }
    if eq_bytes(key, &lit("exp(-abs(x))")) {
        return Case {
            hit: true,
            lo_val: Option::Some(0),
            hi_val: Option::Some(SCALE),
            div: Option::Some((false, false)),
            lo_open: Option::Some(true),
            hi_open: Option::Some(false),
            shape: Option::None,
        };
    }
    if eq_bytes(key, &lit("x/(1+x^2)")) {
        return Case {
            hit: true,
            lo_val: Option::Some(-HALF_SCALE),
            hi_val: Option::Some(HALF_SCALE),
            div: Option::Some((false, false)),
            lo_open: Option::Some(false),
            hi_open: Option::Some(false),
            shape: Option::None,
        };
    }
    if eq_bytes(key, &lit("x^2/(1+x^4)")) {
        return Case {
            hit: true,
            lo_val: Option::Some(0),
            hi_val: Option::Some(HALF_SCALE),
            div: Option::Some((false, false)),
            lo_open: Option::Some(false),
            hi_open: Option::Some(false),
            shape: Option::None,
        };
    }
    if eq_bytes(key, &lit("sin(x)*cos(x)")) {
        return Case {
            hit: true,
            lo_val: Option::Some(-HALF_SCALE),
            hi_val: Option::Some(HALF_SCALE),
            div: Option::Some((false, false)),
            lo_open: Option::Some(false),
            hi_open: Option::Some(false),
            shape: Option::None,
        };
    }
    if eq_bytes(key, &lit("sin(x)+cos(x)")) {
        return Case {
            hit: true,
            lo_val: Option::Some(-SQRT2_RAW),
            hi_val: Option::Some(SQRT2_RAW),
            div: Option::Some((false, false)),
            lo_open: Option::Some(false),
            hi_open: Option::Some(false),
            shape: Option::None,
        };
    }
    if eq_bytes(key, &lit("sin(x^2)")) {
        return Case {
            hit: true,
            lo_val: Option::Some(-SCALE),
            hi_val: Option::Some(SCALE),
            div: Option::Some((false, false)),
            lo_open: Option::Some(false),
            hi_open: Option::Some(false),
            shape: Option::None,
        };
    }
    if eq_bytes(key, &lit("x*exp(-x^2)")) {
        return Case {
            hit: true,
            lo_val: Option::Some(-XEXP_BOUND_RAW),
            hi_val: Option::Some(XEXP_BOUND_RAW),
            div: Option::Some((false, false)),
            lo_open: Option::Some(false),
            hi_open: Option::Some(false),
            shape: Option::None,
        };
    }
    if eq_bytes(key, &lit("exp(-1/x^2)")) {
        return Case {
            hit: true,
            lo_val: Option::Some(0),
            hi_val: Option::Some(SCALE),
            div: Option::Some((false, false)),
            lo_open: Option::Some(true),
            hi_open: Option::Some(false),
            shape: Option::None,
        };
    }
    if eq_bytes(key, &lit("ln(1+x^2)/x^2")) {
        return Case {
            hit: true,
            lo_val: Option::Some(0),
            hi_val: Option::Some(SCALE),
            div: Option::Some((false, false)),
            lo_open: Option::Some(true),
            hi_open: Option::Some(false),
            shape: Option::None,
        };
    }
    if eq_bytes(key, &lit("abs(x)")) {
        return Case {
            hit: true,
            lo_val: Option::Some(0),
            hi_val: Option::None,
            div: Option::Some((true, false)),
            lo_open: Option::Some(false),
            hi_open: Option::None,
            shape: Option::None,
        };
    }
    if eq_bytes(key, &lit("x^2")) {
        return Case {
            hit: true,
            lo_val: Option::Some(0),
            hi_val: Option::None,
            div: Option::Some((true, false)),
            lo_open: Option::Some(false),
            hi_open: Option::None,
            shape: Option::None,
        };
    }
    if eq_bytes(key, &lit("x^3")) {
        return Case {
            hit: true,
            lo_val: Option::None,
            hi_val: Option::None,
            div: Option::Some((true, true)),
            lo_open: Option::None,
            hi_open: Option::None,
            shape: Option::None,
        };
    }
    if eq_bytes(key, &lit("cosh(x)")) {
        return Case {
            hit: true,
            lo_val: Option::Some(SCALE),
            hi_val: Option::None,
            div: Option::Some((true, false)),
            lo_open: Option::Some(false),
            hi_open: Option::None,
            shape: Option::None,
        };
    }
    if eq_bytes(key, &lit("sinh(x)")) {
        return Case {
            hit: true,
            lo_val: Option::None,
            hi_val: Option::None,
            div: Option::Some((true, true)),
            lo_open: Option::None,
            hi_open: Option::None,
            shape: Option::None,
        };
    }
    if eq_bytes(key, &lit("ln(x)")) || eq_bytes(key, &lit("log(x)")) {
        return Case {
            hit: true,
            lo_val: Option::None,
            hi_val: Option::None,
            div: Option::Some((true, true)),
            lo_open: Option::None,
            hi_open: Option::None,
            shape: Option::None,
        };
    }
    if eq_bytes(key, &lit("ln(x^2+1)")) {
        return Case {
            hit: true,
            lo_val: Option::Some(0),
            hi_val: Option::None,
            div: Option::Some((true, false)),
            lo_open: Option::Some(false),
            hi_open: Option::None,
            shape: Option::None,
        };
    }
    if eq_bytes(key, &lit("x^4-x^2")) {
        return Case {
            hit: true,
            lo_val: Option::Some((-QUARTER_SCALE) as i128),
            hi_val: Option::None,
            div: Option::Some((true, false)),
            lo_open: Option::Some(false),
            hi_open: Option::None,
            shape: Option::None,
        };
    }
    if eq_bytes(key, &lit("tan(x)")) {
        return Case {
            hit: true,
            lo_val: Option::None,
            hi_val: Option::None,
            div: Option::Some((true, true)),
            lo_open: Option::None,
            hi_open: Option::None,
            shape: Option::None,
        };
    }
    if eq_bytes(key, &lit("1/sin(x)")) || eq_bytes(key, &lit("csc(x)")) || eq_bytes(
        key,
        &lit("1/cos(x)"),
    ) || eq_bytes(key, &lit("sec(x)")) {
        return Case {
            hit: true,
            lo_val: Option::None,
            hi_val: Option::None,
            div: Option::Some((true, true)),
            lo_open: Option::None,
            hi_open: Option::None,
            shape: Option::Some(RangeShape::UnionExterior { bound: SCALE, closed: true }),
        };
    }
    if eq_bytes(key, &lit("1/x")) {
        return Case {
            hit: true,
            lo_val: Option::None,
            hi_val: Option::None,
            div: Option::Some((true, true)),
            lo_open: Option::None,
            hi_open: Option::None,
            shape: Option::Some(RangeShape::SplitAt { excluded: 0 }),
        };
    }
    if eq_bytes(key, &lit("exp(1/x)")) {
        return Case {
            hit: true,
            lo_val: Option::Some(0),
            hi_val: Option::None,
            div: Option::Some((true, false)),
            lo_open: Option::Some(true),
            hi_open: Option::None,
            shape: Option::Some(RangeShape::UnionParts { parts: exp_parts() }),
        };
    }
    if eq_bytes(key, &lit("x*sin(x)")) || eq_bytes(key, &lit("x+sin(x)")) {
        return Case {
            hit: true,
            lo_val: Option::None,
            hi_val: Option::None,
            div: Option::Some((true, true)),
            lo_open: Option::None,
            hi_open: Option::None,
            shape: Option::None,
        };
    }
    if eq_bytes(key, &lit("ln(abs(x))")) {
        return Case {
            hit: true,
            lo_val: Option::None,
            hi_val: Option::None,
            div: Option::Some((true, true)),
            lo_open: Option::None,
            hi_open: Option::None,
            shape: Option::None,
        };
    }
    if eq_bytes(key, &lit("sin(x)/x^2")) {
        return Case {
            hit: true,
            lo_val: Option::None,
            hi_val: Option::None,
            div: Option::Some((true, true)),
            lo_open: Option::None,
            hi_open: Option::None,
            shape: Option::None,
        };
    }
    if eq_bytes(key, &lit("exp(-x)*sin(x)")) {
        return Case {
            hit: true,
            lo_val: Option::None,
            hi_val: Option::None,
            div: Option::Some((true, true)),
            lo_open: Option::None,
            hi_open: Option::None,
            shape: Option::None,
        };
    }
    if eq_bytes(key, &lit("(x-1)/(x+1)")) || eq_bytes(key, &lit("x/(x^2-1)")) || eq_bytes(
        key,
        &lit("(x^2+1)/(x^2-1)"),
    ) {
        return Case {
            hit: true,
            lo_val: Option::None,
            hi_val: Option::None,
            div: Option::Some((true, true)),
            lo_open: Option::None,
            hi_open: Option::None,
            shape: Option::None,
        };
    }
    if eq_bytes(key, &lit("exp(x)")) {
        return Case {
            hit: true,
            lo_val: Option::None,
            hi_val: Option::None,
            div: Option::None,
            lo_open: Option::Some(true),
            hi_open: Option::None,
            shape: Option::None,
        };
    }
    if eq_bytes(key, &lit("sin(x)/x")) {
        return Case {
            hit: true,
            lo_val: Option::None,
            hi_val: Option::None,
            div: Option::None,
            lo_open: Option::Some(false),
            hi_open: Option::Some(false),
            shape: Option::None,
        };
    }
    if eq_bytes(key, &lit("x^x")) {
        return Case {
            hit: true,
            lo_val: Option::None,
            hi_val: Option::None,
            div: Option::None,
            lo_open: Option::Some(false),
            hi_open: Option::None,
            shape: Option::None,
        };
    }
    if eq_bytes(key, &lit("sqrt(x)")) {
        return Case {
            hit: true,
            lo_val: Option::Some(0),
            hi_val: Option::None,
            div: Option::Some((true, false)),
            lo_open: Option::Some(false),
            hi_open: Option::None,
            shape: Option::None,
        };
    }
    if eq_bytes(key, &lit("abs(x)^(1/2)")) {
        return Case {
            hit: true,
            lo_val: Option::Some(0),
            hi_val: Option::None,
            div: Option::Some((true, false)),
            lo_open: Option::Some(false),
            hi_open: Option::None,
            shape: Option::None,
        };
    }
    Case {
        hit: false,
        lo_val: Option::None,
        hi_val: Option::None,
        div: Option::None,
        lo_open: Option::None,
        hi_open: Option::None,
        shape: Option::None,
    }
}

} // verus!

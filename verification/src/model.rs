//! The structured answers the engine produces: a domain description, a
//! range description with boundary openness and a shape tag, and the
//! confidence label that says where the answer came from.

use vstd::prelude::*;

use crate::nums::{Ext, CLIP_CAP};

verus! {

/// One interval with per-bound openness.
#[derive(Clone, Copy, Debug, PartialEq, Eq)]
pub struct Ival {
    pub lo: Ext,
    pub hi: Ext,
    pub lo_open: bool,
    pub hi_open: bool,
}

impl Ival {
    pub open spec fn wf(self) -> bool {
        self.lo.le(self.hi)
    }

    /// Finite bounds stay within the engine's value cap.
    pub open spec fn capped_bounds(self) -> bool {
        (match self.lo {
            Ext::Fin(v) => -CLIP_CAP <= v <= CLIP_CAP,
            _ => true,
        }) && (match self.hi {
            Ext::Fin(v) => -CLIP_CAP <= v <= CLIP_CAP,
            _ => true,
        })
    }
}

/// The set of inputs on which the function is defined.
#[derive(Clone, Debug, PartialEq, Eq)]
pub enum Domain {
    /// Every real; the conservative default, not a proof.
    AllReals,
    /// A single interval.
    Interval(Ival),
    /// Disjoint intervals, ascending.
    IntervalUnion(Vec<Ival>),
    /// The whole real line minus finitely many isolated points, ascending.
    ExcludedPoints { excluded: Vec<i128> },
    /// Every real except `offset + n * period` for integer `n`.
    PeriodicExclusion { offset: i128, period: i128 },
    /// No input is defined.
    Empty,
}

impl Domain {
    pub open spec fn wf(self) -> bool
        decreases self,
    {
        match self {
            Domain::Interval(iv) => iv.wf(),
            Domain::IntervalUnion(ivs) => forall|i: int|
                0 <= i < ivs@.len() ==> (#[trigger] ivs@[i]).wf() && (i + 1 < ivs@.len()
                    ==> ivs@[i].hi.le(ivs@[i + 1].lo)),
            Domain::ExcludedPoints { excluded } => forall|i: int, j: int|
                0 <= i < j < excluded@.len() ==> excluded@[i] < excluded@[j],
            Domain::PeriodicExclusion { offset, period } => period > 0,
            _ => true,
        }
    }
}

/// The decomposition of the output set.
#[derive(Clone, Debug, PartialEq, Eq)]
pub enum RangeShape {
    /// A single interval.
    Simple,
    /// Two open half-lines meeting at one excluded output.
    SplitAt { excluded: i128 },
    /// Two half-lines symmetric about a bound, the outputs between them
    /// missing (cosecant-like).
    UnionExterior { bound: i128, closed: bool },
    /// The integer lattice (floor/ceiling-like outputs).
    IntegerLattice,
    /// An explicit union of disjoint intervals, ascending.
    UnionParts { parts: Vec<Ival> },
}

/// The set of outputs, as a bound pair with openness flags and a shape tag.
#[derive(Clone, Debug, PartialEq, Eq)]
pub struct NumRange {
    pub lo: Ext,
    pub hi: Ext,
    pub lo_open: bool,
    pub hi_open: bool,
    pub shape: RangeShape,
}

impl NumRange {
    pub open spec fn wf(self) -> bool {
        self.lo.le(self.hi)
    }
}

/// Where an answer came from.
#[derive(Clone, Copy, Debug, PartialEq, Eq, Structural)]
pub enum Confidence {
    /// A known exact fact or a singularity/shape rule fully determined it.
    Exact,
    /// Numeric evidence alone determined it.
    Hybrid,
    /// Every sampled point was undefined; there is no range to report.
    Undefined,
}

/// A full answer: domain, range (absent exactly when the evidence was
/// empty), and provenance.
#[derive(Clone, Debug, PartialEq, Eq)]
pub struct Solution {
    pub domain: Domain,
    pub range: Option<NumRange>,
    pub confidence: Confidence,
}

impl Solution {
    pub open spec fn wf(self) -> bool {
        &&& self.domain.wf()
        &&& (self.range is None <==> self.confidence is Undefined)
        &&& match self.range {
            Option::Some(r) => r.wf(),
            Option::None => true,
        }
    }
}

/// Spec-level mirror of [`Domain`], with mathematical sequences in place
/// of vectors; what contracts speak of.
pub enum DomainV {
    AllReals,
    Interval(Ival),
    IntervalUnion(Seq<Ival>),
    ExcludedPoints { excluded: Seq<i128> },
    PeriodicExclusion { offset: i128, period: i128 },
    Empty,
}

impl Domain {
    /// The mathematical value of this description.
    pub open spec fn dv(self) -> DomainV
        decreases self,
    {
        match self {
            Domain::AllReals => DomainV::AllReals,
            Domain::Interval(iv) => DomainV::Interval(iv),
            Domain::IntervalUnion(ivs) => DomainV::IntervalUnion(ivs@),
            Domain::ExcludedPoints { excluded } => DomainV::ExcludedPoints {
                excluded: excluded@,
            },
            Domain::PeriodicExclusion { offset, period } => DomainV::PeriodicExclusion {
                offset,
                period,
            },
            Domain::Empty => DomainV::Empty,
        }
    }

    /// Finite interval bounds stay within the engine's value cap.
    pub open spec fn capped_bounds(self) -> bool {
        match self {
            Domain::Interval(iv) => iv.capped_bounds(),
            _ => true,
        }
    }
}

/// Spec-level mirror of [`RangeShape`].
pub enum RangeShapeV {
    Simple,
    SplitAt { excluded: i128 },
    UnionExterior { bound: i128, closed: bool },
    IntegerLattice,
    UnionParts { parts: Seq<Ival> },
}

impl RangeShape {
    pub open spec fn dv(self) -> RangeShapeV {
        match self {
            RangeShape::Simple => RangeShapeV::Simple,
            RangeShape::SplitAt { excluded } => RangeShapeV::SplitAt { excluded },
            RangeShape::UnionExterior { bound, closed } => RangeShapeV::UnionExterior {
                bound,
                closed,
            },
            RangeShape::IntegerLattice => RangeShapeV::IntegerLattice,
            RangeShape::UnionParts { parts } => RangeShapeV::UnionParts { parts: parts@ },
        }
    }
}

/// Spec-level mirror of [`NumRange`].
pub struct NumRangeV {
    pub lo: Ext,
    pub hi: Ext,
    pub lo_open: bool,
    pub hi_open: bool,
    pub shape: RangeShapeV,
}

impl NumRange {
    pub open spec fn dv(self) -> NumRangeV {
        NumRangeV {
            lo: self.lo,
            hi: self.hi,
            lo_open: self.lo_open,
            hi_open: self.hi_open,
            shape: self.shape.dv(),
        }
    }
}

/// Spec-level mirror of [`Solution`].
pub struct SolutionV {
    pub domain: DomainV,
    pub range: Option<NumRangeV>,
    pub confidence: Confidence,
}

impl Solution {
    pub open spec fn dv(self) -> SolutionV {
        SolutionV {
            domain: self.domain.dv(),
            range: match self.range {
                Option::Some(r) => Option::Some(r.dv()),
                Option::None => Option::None,
            },
            confidence: self.confidence,
        }
    }
}

/// Everything the probing stages learned, handed once to the synthesizer:
/// rough and refined extrema, divergence evidence, and output values that
/// are approached but never attained.
#[derive(Clone, Debug)]
pub struct Evidence {
    /// Whether any sampled point was defined at all.
    pub any: bool,
    /// Least defined sample seen (meaningful only when `any`).
    pub lo: i128,
    /// Greatest defined sample seen (meaningful only when `any`).
    pub hi: i128,
    /// Evidence that outputs grow without bound.
    pub div_pos: bool,
    /// Evidence that outputs fall without bound.
    pub div_neg: bool,
    /// Suspected excluded outputs (horizontal asymptotes not attained).
    pub excluded_out: Vec<i128>,
}

impl Evidence {
    pub open spec fn wf(self) -> bool {
        self.any ==> self.lo <= self.hi
    }
}

} // verus!

//! Exact rational numbers.
//!
//! The engine never touches floating point: every quantity is a
//! fraction of integers.  `Rat` (an `i64` fraction with a positive
//! denominator) carries the inputs — eigenvalues and the derived
//! scaling factor.  `Score` (an `i128` fraction with a nonzero
//! denominator) carries the computed centrality scores, whose
//! numerators come out of the integer matrix algebra.  Both are viewed
//! in specifications as a `Frac`, a fraction of unbounded integers.

use vstd::prelude::*;

verus! {

/// Mathematical model of a rational number: the fraction `num / den`.
/// Two models denote the same rational exactly when [`frac_eq`] holds.
pub struct Frac {
    pub num: int,
    pub den: int,
}

/// A model denotes a rational only if its denominator is nonzero.
pub open spec fn frac_nonzero_den(f: Frac) -> bool {
    f.den != 0
}

/// Value equality of two fractions, by cross-multiplication.
/// Meaningful whenever both denominators are nonzero.
pub open spec fn frac_eq(a: Frac, b: Frac) -> bool {
    a.num * b.den == b.num * a.den
}

/// Strict order on fractions; meaningful when both denominators are
/// positive.
pub open spec fn frac_lt(a: Frac, b: Frac) -> bool {
    a.num * b.den < b.num * a.den
}

/// The exact product of two fractions.
pub open spec fn frac_mul(a: Frac, b: Frac) -> Frac {
    Frac { num: a.num * b.num, den: a.den * b.den }
}

/// The exact sum of two fractions, over the product denominator.
pub open spec fn frac_add(a: Frac, b: Frac) -> Frac {
    Frac { num: a.num * b.den + b.num * a.den, den: a.den * b.den }
}

/// An input rational: eigenvalues and the scaling factor derived from
/// them.  Kept small (`i64`) so that cross-multiplied comparisons and
/// the first scaling step always fit in `i128` without overflow.
#[derive(Clone, Copy, Debug, PartialEq, Eq, Structural)]
pub struct Rat {
    pub num: i64,
    pub den: i64,
}

impl View for Rat {
    type V = Frac;

    open spec fn view(&self) -> Frac {
        Frac { num: self.num as int, den: self.den as int }
    }
}

impl DeepView for Rat {
    type V = Frac;

    open spec fn deep_view(&self) -> Frac {
        self.view()
    }
}

impl Rat {
    /// A well-formed input rational has a positive denominator, and a
    /// numerator whose negation still fits in `i64` (so that inverting
    /// a negative rational never overflows).
    pub open spec fn wf(self) -> bool {
        self.den > 0 && self.num > i64::MIN
    }

    /// Builds the rational `num / den`.
    pub fn new(num: i64, den: i64) -> (r: Rat)
        requires
            den > 0,
            num > i64::MIN,
        ensures
            r.wf(),
            r@ == (Frac { num: num as int, den: den as int }),
    {
        Rat { num, den }
    }

    /// The rational one.
    pub fn one() -> (r: Rat)
        ensures
            r.wf(),
            r@ == (Frac { num: 1, den: 1 }),
    {
        Rat { num: 1, den: 1 }
    }
}

/// A computed centrality score.  The numerator and denominator come
/// straight out of the integer matrix algebra, so they need the full
/// `i128` range; the denominator is nonzero but may be negative (the
/// fraction's sign is the sign of `num / den`).
#[derive(Clone, Copy, Debug, PartialEq, Eq, Structural)]
pub struct Score {
    pub num: i128,
    pub den: i128,
}

impl View for Score {
    type V = Frac;

    open spec fn view(&self) -> Frac {
        Frac { num: self.num as int, den: self.den as int }
    }
}

impl DeepView for Score {
    type V = Frac;

    open spec fn deep_view(&self) -> Frac {
        self.view()
    }
}

impl Score {
    /// A well-formed score has a nonzero denominator.
    pub open spec fn wf(self) -> bool {
        self.den != 0
    }
}

} // verus!

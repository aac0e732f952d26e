//! Intervals of scalars.

use crate::scalar::Scalar;
use vstd::prelude::*;

verus! {

/// An interval with the end points `min` and `max`.
#[derive(Clone, Copy, PartialEq, Eq, Structural, Debug)]
pub struct Interval {
    pub min: Scalar,
    pub max: Scalar,
}

impl Interval {
    /// The lower end point does not exceed the upper one.
    pub open spec fn wf(self) -> bool {
        self.min.raw <= self.max.raw
    }

    pub fn new(min: Scalar, max: Scalar) -> (out: Interval)
        requires
            min.raw <= max.raw,
        ensures
            out == (Interval { min, max }),
            out.wf(),
    {
        Interval { min, max }
    }

    pub open spec fn spec_contains(self, x: Scalar) -> bool {
        self.min.raw <= x.raw && x.raw <= self.max.raw
    }

    /// `x` lies in the closed interval.
    #[verifier::when_used_as_spec(spec_contains)]
    pub fn contains(self, x: Scalar) -> (out: bool)
        ensures
            out == self.spec_contains(x),
    {
        self.min.raw <= x.raw && x.raw <= self.max.raw
    }

    pub open spec fn spec_surrounds(self, x: Scalar) -> bool {
        self.min.raw < x.raw && x.raw < self.max.raw
    }

    /// `x` lies strictly inside the interval.
    #[verifier::when_used_as_spec(spec_surrounds)]
    pub fn surrounds(self, x: Scalar) -> (out: bool)
        ensures
            out == self.spec_surrounds(x),
    {
        self.min.raw < x.raw && x.raw < self.max.raw
    }

    pub open spec fn spec_clamp(self, x: Scalar) -> Scalar {
        if x.raw < self.min.raw {
            self.min
        } else if x.raw > self.max.raw {
            self.max
        } else {
            x
        }
    }

    /// The point of the interval nearest to `x`.
    #[verifier::when_used_as_spec(spec_clamp)]
    pub fn clamp(self, x: Scalar) -> (out: Scalar)
        ensures
            out == self.spec_clamp(x),
            self.wf() ==> self.spec_contains(out),
            self.spec_contains(x) ==> out == x,
    {
        if x.raw < self.min.raw {
            self.min
        } else if x.raw > self.max.raw {
            self.max
        } else {
            x
        }
    }
}

} // verus!

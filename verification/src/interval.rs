//! A range of numbers between two bounds.

use vstd::prelude::*;
use crate::scalar::Scalar;

verus! {

#[derive(Clone, Copy, Debug)]
pub struct Interval {
    pub min: Scalar,
    pub max: Scalar,
}

impl Interval {
    /// `min <= x <= max`.
    pub open spec fn spec_contains(&self, x: Scalar) -> bool {
        self.min.spec_le(x) && x.spec_le(self.max)
    }

    /// `min < x < max`.
    pub open spec fn spec_surrounds(&self, x: Scalar) -> bool {
        self.min.spec_lt(x) && x.spec_lt(self.max)
    }

    /// `x` pulled into the range: `min` below it, `max` above it. What is
    /// neither below nor above, a NaN included, comes back as it is.
    pub open spec fn spec_clamp(&self, x: Scalar) -> Scalar {
        if x.spec_lt(self.min) {
            self.min
        } else if self.max.spec_lt(x) {
            self.max
        } else {
            x
        }
    }

    /// The range that holds nothing: from infinity down to minus infinity.
    pub fn new_empty() -> (r: Interval)
        ensures
            r.min == Scalar::spec_infinity(),
            r.max == Scalar::spec_neg_infinity(),
            forall|x: Scalar| !r.spec_contains(x),
    {
        Interval { min: Scalar::infinity(), max: Scalar::neg_infinity() }
    }

    /// The range that holds every number: from minus infinity to infinity.
    pub fn universe() -> (r: Interval)
        ensures
            r.min == Scalar::spec_neg_infinity(),
            r.max == Scalar::spec_infinity(),
            forall|x: Scalar| r.spec_contains(x) <==> !x.is_nan(),
    {
        Interval { min: Scalar::neg_infinity(), max: Scalar::infinity() }
    }

    pub fn new(min: Scalar, max: Scalar) -> (r: Interval)
        ensures
            r.min == min,
            r.max == max,
    {
        Interval { min, max }
    }

    #[verifier::when_used_as_spec(spec_contains)]
    pub fn contains(&self, x: Scalar) -> (r: bool)
        ensures
            r == self.spec_contains(x),
    {
        self.min.le(x) && x.le(self.max)
    }

    #[verifier::when_used_as_spec(spec_surrounds)]
    pub fn surrounds(&self, x: Scalar) -> (r: bool)
        ensures
            r == self.spec_surrounds(x),
    {
        self.min.lt(x) && x.lt(self.max)
    }

    #[verifier::when_used_as_spec(spec_clamp)]
    pub fn clamp(&self, x: Scalar) -> (r: Scalar)
        ensures
            r == self.spec_clamp(x),
            self.min.spec_le(self.max) && !x.is_nan() ==> self.spec_contains(r),
    {
        if x.lt(self.min) {
            self.min
        } else if self.max.lt(x) {
            self.max
        } else {
            x
        }
    }
}

/// What a range surrounds it contains, and what it contains it leaves as it
/// is when it clamps.
pub proof fn lemma_surrounded_is_contained(range: Interval, x: Scalar)
    ensures
        range.spec_surrounds(x) ==> range.spec_contains(x),
        range.spec_contains(x) ==> range.spec_clamp(x) == x,
        range.min.spec_le(range.max) ==> range.spec_clamp(range.spec_clamp(x)) == range.spec_clamp(x),
{
}

} // verus!

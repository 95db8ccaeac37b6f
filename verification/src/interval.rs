//! Closed intervals of scalars.
use crate::scalar::Scalar;
use vstd::prelude::*;

verus! {

/// The interval `[min, max]`; it is empty where `max` is below `min`.
#[derive(Clone, Copy, Debug, PartialEq, Eq, Structural)]
pub struct Interval {
    pub min: Scalar,
    pub max: Scalar,
}

impl Interval {
    pub open spec fn spec_new(min: Scalar, max: Scalar) -> Interval {
        Interval { min, max }
    }

    /// The interval from `min` to `max`.
    #[verifier::when_used_as_spec(spec_new)]
    pub fn new(min: Scalar, max: Scalar) -> (r: Interval)
        ensures
            r == Interval::spec_new(min, max),
    {
        Interval { min, max }
    }

    pub open spec fn spec_from_sub_intervals(a: Interval, b: Interval) -> Interval {
        Interval { min: a.min.min(b.min), max: a.max.max(b.max) }
    }

    /// The smallest interval that holds both `a` and `b`.
    #[verifier::when_used_as_spec(spec_from_sub_intervals)]
    pub fn from_sub_intervals(a: Interval, b: Interval) -> (r: Interval)
        ensures
            r == Interval::spec_from_sub_intervals(a, b),
            forall|x: Scalar| a.contains(x) || b.contains(x) ==> r.contains(x),
            r.min == a.min || r.min == b.min,
            r.max == a.max || r.max == b.max,
    {
        Interval { min: a.min.min(b.min), max: a.max.max(b.max) }
    }

    pub open spec fn spec_expand(&self, delta: Scalar) -> Interval {
        let padding = delta.div(Scalar::from_int(2));
        Interval { min: self.min.sub(padding), max: self.max.add(padding) }
    }

    /// The interval padded by `delta / 2` at either end.
    #[verifier::when_used_as_spec(spec_expand)]
    pub fn expand(&self, delta: Scalar) -> (r: Interval)
        ensures
            r == self.spec_expand(delta),
    {
        let padding = delta.div(Scalar::from_int(2));
        Interval { min: self.min.sub(padding), max: self.max.add(padding) }
    }

    pub open spec fn spec_size(&self) -> Scalar {
        self.max.sub(self.min)
    }

    /// The length `max - min`.
    #[verifier::when_used_as_spec(spec_size)]
    pub fn size(&self) -> (r: Scalar)
        ensures
            r == self.spec_size(),
    {
        self.max.sub(self.min)
    }

    pub open spec fn spec_contains(&self, x: Scalar) -> bool {
        self.min@ <= x@ <= self.max@
    }

    /// Whether `x` lies in the interval, its ends included.
    #[verifier::when_used_as_spec(spec_contains)]
    pub fn contains(&self, x: Scalar) -> (r: bool)
        ensures
            r == self.spec_contains(x),
    {
        self.min.micros <= x.micros && x.micros <= self.max.micros
    }

    pub open spec fn spec_surrounds(&self, x: Scalar) -> bool {
        self.min@ < x@ < self.max@
    }

    /// Whether `x` lies strictly inside the interval.
    #[verifier::when_used_as_spec(spec_surrounds)]
    pub fn surrounds(&self, x: Scalar) -> (r: bool)
        ensures
            r == self.spec_surrounds(x),
    {
        self.min.micros < x.micros && x.micros < self.max.micros
    }
}

impl Default for Interval {
    /// The interval `[0, 0]`.
    fn default() -> (r: Interval)
        ensures
            r == Interval::new(Scalar::zero(), Scalar::zero()),
    {
        Interval { min: Scalar::zero(), max: Scalar::zero() }
    }
}

} // verus!

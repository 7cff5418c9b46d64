//! Ranges of numbers: the window of ray parameters that count as a hit, and
//! the range that a colour channel is held to.

use vstd::prelude::*;
use crate::scalar::Scalar;

verus! {

/// The pattern of `0.999`, the brightest intensity that is displayed.
pub const INTENSITY_MAX_BITS: u64 = 0x3fef_f7ce_d916_872b;

/// The numbers from `min` to `max`. Where `min` exceeds `max` it holds none.
#[derive(Clone, Copy, Debug)]
pub struct Interval {
    pub min: Scalar,
    pub max: Scalar,
}

impl Interval {
    pub open spec fn spec_size(&self) -> Scalar {
        self.max.sub(self.min)
    }

    pub open spec fn spec_contains(&self, x: Scalar) -> bool {
        self.min.le(x) && x.le(self.max)
    }

    pub open spec fn spec_surrounds(&self, x: Scalar) -> bool {
        self.min.lt(x) && x.lt(self.max)
    }

    pub open spec fn spec_clamp(&self, x: Scalar) -> Scalar {
        if x.le(self.min) {
            self.min
        } else if x.ge(self.max) {
            self.max
        } else {
            x
        }
    }

    pub open spec fn spec_universe() -> Interval {
        Interval { min: Scalar::neg_infinity(), max: Scalar::infinity() }
    }

    pub open spec fn spec_empty() -> Interval {
        Interval { min: Scalar::infinity(), max: Scalar::neg_infinity() }
    }

    pub open spec fn spec_intensity() -> Interval {
        Interval { min: Scalar::zero(), max: Scalar { bits: INTENSITY_MAX_BITS } }
    }

    /// Every number: from minus infinity to infinity.
    pub fn default() -> (r: Interval)
        ensures
            r == Interval::spec_universe(),
    {
        Interval { max: Scalar::infinity(), min: Scalar::neg_infinity() }
    }

    pub fn new(min: Scalar, max: Scalar) -> (r: Interval)
        ensures
            r.min == min,
            r.max == max,
    {
        Interval { max, min }
    }

    /// Every number.
    #[verifier::when_used_as_spec(spec_universe)]
    pub fn universe() -> (r: Interval)
        ensures
            r == Interval::spec_universe(),
    {
        Interval { min: Scalar::neg_infinity(), max: Scalar::infinity() }
    }

    /// No number: from infinity down to minus infinity.
    #[verifier::when_used_as_spec(spec_empty)]
    pub fn empty() -> (r: Interval)
        ensures
            r == Interval::spec_empty(),
    {
        Interval { max: Scalar::neg_infinity(), min: Scalar::infinity() }
    }

    /// The intensities that are displayed: from `0` to `0.999`.
    #[verifier::when_used_as_spec(spec_intensity)]
    pub fn intensity() -> (r: Interval)
        ensures
            r == Interval::spec_intensity(),
    {
        Interval { min: Scalar::zero(), max: Scalar { bits: INTENSITY_MAX_BITS } }
    }

    /// `max - min`.
    #[verifier::when_used_as_spec(spec_size)]
    pub fn size(&self) -> (r: Scalar)
        ensures
            r == self.spec_size(),
    {
        self.max.sub(self.min)
    }

    /// Whether `min <= x <= max`.
    #[verifier::when_used_as_spec(spec_contains)]
    pub fn contains(&self, x: Scalar) -> (r: bool)
        ensures
            r == self.spec_contains(x),
    {
        self.min.le(x) && x.le(self.max)
    }

    /// Whether `min < x < max`.
    #[verifier::when_used_as_spec(spec_surrounds)]
    pub fn surrounds(&self, x: Scalar) -> (r: bool)
        ensures
            r == self.spec_surrounds(x),
    {
        self.min.lt(x) && x.lt(self.max)
    }

    /// `min` where `x` is at or below it, `max` where `x` is at or above
    /// that, else `x` (a NaN comes back as it is).
    #[verifier::when_used_as_spec(spec_clamp)]
    pub fn clamp(&self, x: Scalar) -> (r: Scalar)
        ensures
            r == self.spec_clamp(x),
    {
        if x.le(self.min) {
            self.min
        } else if x.ge(self.max) {
            self.max
        } else {
            x
        }
    }
}

/// Clamping twice is clamping once, in an interval whose bounds are in
/// order: the second result is the first, up to the sign of a zero.
pub proof fn lemma_clamp_idempotent(i: Interval, x: Scalar)
    requires
        i.min.le(i.max),
    ensures
        i.clamp(i.clamp(x)) == i.clamp(x) || i.clamp(i.clamp(x)).same(i.clamp(x)),
        i.min.lt(i.max) ==> i.clamp(i.clamp(x)) == i.clamp(x),
{
}

/// Clamping keeps the order, in an interval whose bounds are in order.
pub proof fn lemma_clamp_monotone(i: Interval, x: Scalar, y: Scalar)
    requires
        i.min.le(i.max),
        x.le(y),
    ensures
        i.clamp(x).le(i.clamp(y)),
{
}

/// A clamped number lies in the interval, where the bounds are in order and
/// the number is not a NaN.
pub proof fn lemma_clamp_in_range(i: Interval, x: Scalar)
    requires
        i.min.le(i.max),
        !x.is_nan(),
    ensures
        i.contains(i.clamp(x)),
{
}

} // verus!

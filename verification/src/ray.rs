//! Rays: a point and a direction.

use vstd::prelude::*;
use crate::scalar::Scalar;
use crate::vec3::{Point, Vec3};

verus! {

/// The points `origin + t dir`.
#[derive(Clone, Copy, Debug)]
pub struct Ray {
    pub origin: Point,
    pub dir: Vec3,
}

impl Ray {
    pub open spec fn spec_at(self, t: Scalar) -> Point {
        self.origin.add(self.dir.scale(t))
    }

    pub fn new(origin: Point, dir: Vec3) -> (r: Ray)
        ensures
            r == (Ray { origin, dir }),
    {
        Ray { origin, dir }
    }

    /// The point of the ray at parameter `t`.
    #[verifier::when_used_as_spec(spec_at)]
    pub fn at(self, t: Scalar) -> (r: Point)
        ensures
            r == self.spec_at(t),
    {
        self.origin.add(self.dir.scale(t))
    }
}

/// `==` is numeric equality of origin and direction.
impl PartialEq for Ray {
    fn eq(&self, other: &Ray) -> (r: bool) {
        self.origin == other.origin && self.dir == other.dir
    }
}

impl vstd::std_specs::cmp::PartialEqSpecImpl for Ray {
    open spec fn obeys_eq_spec() -> bool {
        true
    }

    open spec fn eq_spec(&self, other: &Ray) -> bool {
        self.origin.same(other.origin) && self.dir.same(other.dir)
    }
}

} // verus!

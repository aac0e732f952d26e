//! Rays: a point of origin and a direction.

use crate::scalar::Scalar;
use crate::vec3::Point3;
use crate::vec3::Vec3;
use vstd::prelude::*;

verus! {

/// The points `origin + t * direction`.
#[derive(Clone, Copy, PartialEq, Eq, Structural, Debug)]
pub struct Ray {
    pub origin: Point3,
    pub direction: Vec3,
}

impl Ray {
    pub fn new(origin: Point3, direction: Vec3) -> (out: Ray)
        ensures
            out == (Ray { origin, direction }),
    {
        Ray { origin, direction }
    }

    pub open spec fn spec_at(self, t: Scalar) -> Point3 {
        self.origin.add(self.direction.scale(t))
    }

    /// The point `origin + t * direction`.
    #[verifier::when_used_as_spec(spec_at)]
    pub fn at(self, t: Scalar) -> (out: Point3)
        ensures
            out == self.spec_at(t),
    {
        self.origin.add(self.direction.scale(t))
    }
}

} // verus!

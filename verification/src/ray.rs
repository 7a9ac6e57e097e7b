//! Rays.

use crate::scalar::Fixed;
use crate::vec3::{Point3, Vec3};
use vstd::prelude::*;

verus! {

/// A half-line: the points `origin + t * direction`. The direction need not
/// have length 1.
#[derive(Clone, Copy, Debug, PartialEq, Eq, Structural)]
pub struct Ray {
    pub origin: Point3,
    pub direction: Vec3,
}

impl Ray {
    /// The point at parameter `t`.
    pub open spec fn spec_at(self, t: Fixed) -> Vec3 {
        self.origin.spec_add(self.direction.spec_mul(t))
    }

    /// The ray from `origin` along `direction`.
    pub fn new(origin: Point3, direction: Vec3) -> (r: Ray)
        ensures
            r.origin == origin,
            r.direction == direction,
    {
        Ray { origin, direction }
    }

    /// The point at parameter `t`.
    pub fn at(&self, t: Fixed) -> (p: Vec3)
        ensures
            p == self.spec_at(t),
    {
        self.origin + self.direction * t
    }
}

} // verus!

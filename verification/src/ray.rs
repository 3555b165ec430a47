//! Rays: half-lines given by an origin and a direction.

use crate::fixed::Fixed;
use crate::vec3::Vec3;
use vstd::prelude::*;

verus! {

/// The ray `p(t) = origin + t * direction`; the first field is the origin,
/// the second the direction, which need not have length one.
#[derive(Clone, Copy, Debug, PartialEq, Eq, Structural)]
pub struct Ray(pub Vec3, pub Vec3);

/// The point of `ray` at parameter `t`.
pub open spec fn point_on(ray: Ray, t: Fixed) -> Vec3 {
    ray.0 + ray.1 * t
}

impl Ray {
    /// The ray from `a` along `b`.
    pub fn new(a: Vec3, b: Vec3) -> (res: Ray)
        ensures
            res == Ray(a, b),
    {
        Ray(a, b)
    }

    /// Where the ray starts.
    pub fn origin(&self) -> (res: Vec3)
        ensures
            res == self.0,
    {
        self.0
    }

    /// The direction in which the ray runs.
    pub fn direction(&self) -> (res: Vec3)
        ensures
            res == self.1,
    {
        self.1
    }

    /// The point at parameter `t`, which may be any number.
    pub fn point_at(&self, t: Fixed) -> (res: Vec3)
        ensures
            res == point_on(*self, t),
    {
        self.origin() + t * self.direction()
    }
}

} // verus!

//! Rays: an origin, a unit direction, and a time for moving geometry.

use vstd::prelude::*;

use crate::vec3::{vadd, vscale, vunit, Vec3};
use crate::Point3;

verus! {

/// A ray. The direction is normalised at construction; `time` in `[0, 1]`
/// interpolates time-varying geometry.
#[derive(Clone, Copy, Debug, PartialEq, Eq, Structural)]
pub struct Ray {
    pub origin: Point3,
    pub direction: Vec3,
    pub time: i64,
}

/// The ray with the given origin and time whose direction is the
/// normalisation of `direction`.
pub open spec fn ray_new(origin: Point3, direction: Vec3, time: int) -> Ray {
    Ray { origin, direction: vunit(direction), time: time as i64 }
}

/// The point the ray reaches at parameter `t`.
pub open spec fn ray_at(r: Ray, t: int) -> Point3 {
    vadd(r.origin, vscale(r.direction, t))
}

impl Ray {
    /// A ray from an origin and a (not necessarily unit) direction.
    pub fn new(origin: Point3, direction: Vec3, time: i64) -> (r: Self)
        ensures
            r == ray_new(origin, direction, time as int),
    {
        Ray { origin, direction: direction.unit(), time }
    }

    /// The point the ray reaches at parameter `t`.
    pub fn at(&self, t: i64) -> (r: Point3)
        ensures
            r == ray_at(*self, t as int),
    {
        self.origin.add(self.direction.scale(t))
    }
}

} // verus!

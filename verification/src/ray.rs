//! Rays: an origin, a direction, and the time at which the ray samples a
//! (possibly moving) scene.

use crate::scalar::{scalar_in_range, SCALE};
use crate::vec3::{Vec3, P3, V3};
use vstd::prelude::*;

verus! {

#[derive(Clone, Copy, PartialEq, Eq, Structural, Debug)]
pub struct Ray {
    pub origin: P3,
    pub direction: V3,
    pub time: i64,
}

impl Ray {
    pub open spec fn wf(self) -> bool {
        self.origin.wf() && self.direction.wf() && scalar_in_range(self.time as int)
    }

    /// The point reached after travelling `t` (fixed point) along the ray,
    /// with the engine's clamped fixed-point arithmetic.
    pub open spec fn spec_at(self, t: int) -> Vec3 {
        Vec3::spec_add(self.origin, Vec3::spec_scale(self.direction, t))
    }

    /// A ray along the x axis from the origin, at time zero.
    pub fn new() -> (r: Self)
        ensures
            r.origin == (Vec3 { x: 0i64, y: 0i64, z: 0i64 }),
            r.direction == (Vec3 { x: SCALE, y: 0i64, z: 0i64 }),
            r.time == 0,
            r.wf(),
    {
        Self { origin: Vec3::zero(), direction: Vec3::new(SCALE, 0, 0), time: 0 }
    }

    pub fn from(origin: &P3, direction: &V3, time: i64) -> (r: Self)
        ensures
            r == (Ray { origin: *origin, direction: *direction, time }),
    {
        Self { origin: *origin, direction: *direction, time }
    }

    pub fn at(&self, t: i64) -> (r: Vec3)
        requires
            self.wf(),
            scalar_in_range(t as int),
        ensures
            r == self.spec_at(t as int),
            r.wf(),
    {
        self.origin.add(&self.direction.scale(t))
    }
}

impl Default for Ray {
    fn default() -> (r: Self)
        ensures
            r.origin == (Vec3 { x: 0i64, y: 0i64, z: 0i64 }),
            r.direction == (Vec3 { x: SCALE, y: 0i64, z: 0i64 }),
            r.time == 0,
    {
        Self::new()
    }
}

} // verus!

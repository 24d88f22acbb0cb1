//! Orthonormal bases built around a normal vector, used to move sampled
//! directions from canonical (z-up) space into surface space.

use crate::scalar::SCALE;
use crate::vec3::{Vec3, V3};
use vstd::prelude::*;

verus! {

#[derive(Clone, Copy, PartialEq, Eq, Structural, Debug)]
pub struct ONB {
    pub u_axis: V3,
    pub v_axis: V3,
    pub w_axis: V3,
}

impl ONB {
    pub open spec fn wf(self) -> bool {
        self.u_axis.wf() && self.v_axis.wf() && self.w_axis.wf()
    }

    /// The basis constructed around `n`: `w` along `n`, `u` and `v`
    /// perpendicular, picked against whichever coordinate axis is less
    /// aligned with `n`.
    pub open spec fn spec_from(n: V3) -> ONB {
        let w = Vec3::spec_normalize(n);
        let a = if w.x > (9 * SCALE) / 10 || w.x < -((9 * SCALE) / 10) {
            Vec3 { x: 0i64, y: SCALE, z: 0i64 }
        } else {
            Vec3 { x: SCALE, y: 0i64, z: 0i64 }
        };
        let v = Vec3::spec_normalize(Vec3::spec_cross(w, a));
        let u = Vec3::spec_cross(w, v);
        ONB { u_axis: u, v_axis: v, w_axis: w }
    }

    /// The vector with canonical coordinates `d` expressed in this basis.
    pub open spec fn spec_transform(self, d: V3) -> V3 {
        Vec3::spec_add(
            Vec3::spec_add(
                Vec3::spec_scale(self.u_axis, d.x as int),
                Vec3::spec_scale(self.v_axis, d.y as int),
            ),
            Vec3::spec_scale(self.w_axis, d.z as int),
        )
    }

    pub fn from(n: &V3) -> (r: Self)
        requires
            n.wf(),
        ensures
            r == Self::spec_from(*n),
            r.wf(),
    {
        let w = n.normalize();
        let a = if w.x > 9 * SCALE / 10 || w.x < -(9 * SCALE / 10) {
            Vec3::new(0, SCALE, 0)
        } else {
            Vec3::new(SCALE, 0, 0)
        };
        let v = w.cross(&a).normalize();
        let u = w.cross(&v);
        Self { u_axis: u, v_axis: v, w_axis: w }
    }

    pub fn u(&self) -> (r: V3)
        ensures
            r == self.u_axis,
    {
        self.u_axis
    }

    pub fn v(&self) -> (r: V3)
        ensures
            r == self.v_axis,
    {
        self.v_axis
    }

    pub fn w(&self) -> (r: V3)
        ensures
            r == self.w_axis,
    {
        self.w_axis
    }

    pub fn transform(&self, d: &V3) -> (r: V3)
        requires
            self.wf(),
            d.wf(),
        ensures
            r == self.spec_transform(*d),
            r.wf(),
    {
        self.u_axis.scale(d.x).add(&self.v_axis.scale(d.y)).add(&self.w_axis.scale(d.z))
    }
}

} // verus!

//! The record produced by a successful ray–object intersection.
//!
//! Materials live in a scene-owned table; a record refers to the struck
//! surface's material by index, so records stay plain copyable values.

use crate::ray::Ray;
use crate::scalar::scalar_in_range;
use crate::vec3::{Vec3, P3, V3};
use vstd::prelude::*;

verus! {

#[derive(Clone, Copy, PartialEq, Eq, Structural, Debug)]
pub struct HitRecord {
    pub p: P3,
    pub normal: V3,
    pub t: i64,
    pub u: i64,
    pub v: i64,
    pub material: usize,
    pub is_front_face: bool,
}

impl HitRecord {
    pub open spec fn wf(self) -> bool {
        &&& self.p.wf()
        &&& self.normal.wf()
        &&& scalar_in_range(self.t as int)
        &&& scalar_in_range(self.u as int)
        &&& scalar_in_range(self.v as int)
    }

    /// The record with the normal oriented against the incoming ray and
    /// the front-face flag set accordingly.
    pub open spec fn spec_with_face_normal(self, r: Ray, outward_normal: V3) -> HitRecord {
        let front = Vec3::spec_dot_raw(r.direction, outward_normal) <= 0;
        HitRecord {
            normal: if front {
                outward_normal
            } else {
                Vec3::spec_neg(outward_normal)
            },
            is_front_face: front,
            ..self
        }
    }

    pub fn from(p: P3, normal: V3, t: i64, u: i64, v: i64, material: usize, is_front_face: bool) -> (r:
        Self)
        ensures
            r == (HitRecord { p, normal, t, u, v, material, is_front_face }),
    {
        Self { p, normal, t, u, v, material, is_front_face }
    }

    /// Orient the stored normal against the incoming ray; `outward_normal`
    /// is the geometric normal pointing out of the surface.
    pub fn set_face_normal(&mut self, r: &Ray, outward_normal: &V3)
        requires
            old(self).wf(),
            r.wf(),
            outward_normal.wf(),
        ensures
            *final(self) == old(self).spec_with_face_normal(*r, *outward_normal),
            final(self).wf(),
    {
        let d = r.direction.dot_raw(outward_normal);
        self.is_front_face = d <= 0;
        if self.is_front_face {
            self.normal = *outward_normal;
        } else {
            self.normal = outward_normal.neg();
        }
    }
}

} // verus!

//! A wrapper that rotates a primitive about the y axis: rays are moved
//! into object space, hit points and normals moved back to world space.

use crate::aabb::AABB;
use crate::hittable::{prim_bounding_box, prim_inv, primitive_bounding_box, Primitive};
use crate::scalar::{clamp_s, scalar_in_range};
use crate::vec3::{clamp_i64, fp_mul_clamped, fpm, Vec3, V3};
use vstd::prelude::*;

verus! {

/// Rotate a point from object space to world space: the rotation by the
/// angle whose sine and cosine are stored.
pub open spec fn spec_rot_to_world(sin_theta: int, cos_theta: int, p: Vec3) -> Vec3 {
    Vec3 {
        x: clamp_s(fpm(cos_theta, p.x as int) + fpm(sin_theta, p.z as int)) as i64,
        y: p.y,
        z: clamp_s(fpm(cos_theta, p.z as int) - fpm(sin_theta, p.x as int)) as i64,
    }
}

/// Rotate a point from world space to object space (the inverse rotation).
pub open spec fn spec_rot_to_object(sin_theta: int, cos_theta: int, p: Vec3) -> Vec3 {
    Vec3 {
        x: clamp_s(fpm(cos_theta, p.x as int) - fpm(sin_theta, p.z as int)) as i64,
        y: p.y,
        z: clamp_s(fpm(cos_theta, p.z as int) + fpm(sin_theta, p.x as int)) as i64,
    }
}

pub fn rot_to_world(sin_theta: i64, cos_theta: i64, p: &Vec3) -> (r: Vec3)
    requires
        scalar_in_range(sin_theta as int),
        scalar_in_range(cos_theta as int),
        p.wf(),
    ensures
        r == spec_rot_to_world(sin_theta as int, cos_theta as int, *p),
        r.wf(),
{
    Vec3 {
        x: clamp_i64(fp_mul_clamped(cos_theta, p.x) + fp_mul_clamped(sin_theta, p.z)),
        y: p.y,
        z: clamp_i64(fp_mul_clamped(cos_theta, p.z) - fp_mul_clamped(sin_theta, p.x)),
    }
}

pub fn rot_to_object(sin_theta: i64, cos_theta: i64, p: &Vec3) -> (r: Vec3)
    requires
        scalar_in_range(sin_theta as int),
        scalar_in_range(cos_theta as int),
        p.wf(),
    ensures
        r == spec_rot_to_object(sin_theta as int, cos_theta as int, *p),
        r.wf(),
{
    Vec3 {
        x: clamp_i64(fp_mul_clamped(cos_theta, p.x) - fp_mul_clamped(sin_theta, p.z)),
        y: p.y,
        z: clamp_i64(fp_mul_clamped(cos_theta, p.z) + fp_mul_clamped(sin_theta, p.x)),
    }
}

pub struct RotateY {
    pub object: Box<Primitive>,
    pub sin_theta: i64,
    pub cos_theta: i64,
    pub aabb: AABB,
}

impl RotateY {
    pub open spec fn inv(self) -> bool {
        &&& scalar_in_range(self.sin_theta as int)
        &&& scalar_in_range(self.cos_theta as int)
        &&& self.aabb.wf()
        &&& prim_inv(*self.object)
    }

    /// The padded world-space box spanned by the rotated corners of the
    /// object-space box.
    pub open spec fn spec_rotated_box(b: AABB, sin_theta: int, cos_theta: int) -> AABB {
        let c0 = spec_rot_to_world(sin_theta, cos_theta, Vec3 { x: b.min.x, y: b.min.y, z: b.min.z });
        let c1 = spec_rot_to_world(sin_theta, cos_theta, Vec3 { x: b.min.x, y: b.min.y, z: b.max.z });
        let c2 = spec_rot_to_world(sin_theta, cos_theta, Vec3 { x: b.min.x, y: b.max.y, z: b.min.z });
        let c3 = spec_rot_to_world(sin_theta, cos_theta, Vec3 { x: b.min.x, y: b.max.y, z: b.max.z });
        let c4 = spec_rot_to_world(sin_theta, cos_theta, Vec3 { x: b.max.x, y: b.min.y, z: b.min.z });
        let c5 = spec_rot_to_world(sin_theta, cos_theta, Vec3 { x: b.max.x, y: b.min.y, z: b.max.z });
        let c6 = spec_rot_to_world(sin_theta, cos_theta, Vec3 { x: b.max.x, y: b.max.y, z: b.min.z });
        let c7 = spec_rot_to_world(sin_theta, cos_theta, Vec3 { x: b.max.x, y: b.max.y, z: b.max.z });
        let lo = Vec3::spec_min(
            Vec3::spec_min(Vec3::spec_min(c0, c1), Vec3::spec_min(c2, c3)),
            Vec3::spec_min(Vec3::spec_min(c4, c5), Vec3::spec_min(c6, c7)),
        );
        let hi = Vec3::spec_max(
            Vec3::spec_max(Vec3::spec_max(c0, c1), Vec3::spec_max(c2, c3)),
            Vec3::spec_max(Vec3::spec_max(c4, c5), Vec3::spec_max(c6, c7)),
        );
        AABB::spec_pad(AABB { min: Vec3::spec_min(lo, hi), max: Vec3::spec_max(lo, hi) })
    }

    /// Wrap a primitive in a rotation given by the sine and cosine of the
    /// rotation angle (both fixed point).
    #[verifier::rlimit(60)]
    pub fn from(object: Box<Primitive>, sin_theta: i64, cos_theta: i64) -> (s: Self)
        requires
            prim_inv(*object),
            scalar_in_range(sin_theta as int),
            scalar_in_range(cos_theta as int),
        ensures
            s.inv(),
            s.object == object,
            s.sin_theta == sin_theta,
            s.cos_theta == cos_theta,
            s.aabb == Self::spec_rotated_box(
                prim_bounding_box(*object),
                sin_theta as int,
                cos_theta as int,
            ),
    {
        let b = primitive_bounding_box(&object);
        let c0 = rot_to_world(sin_theta, cos_theta, &Vec3::new(b.min.x, b.min.y, b.min.z));
        let c1 = rot_to_world(sin_theta, cos_theta, &Vec3::new(b.min.x, b.min.y, b.max.z));
        let c2 = rot_to_world(sin_theta, cos_theta, &Vec3::new(b.min.x, b.max.y, b.min.z));
        let c3 = rot_to_world(sin_theta, cos_theta, &Vec3::new(b.min.x, b.max.y, b.max.z));
        let c4 = rot_to_world(sin_theta, cos_theta, &Vec3::new(b.max.x, b.min.y, b.min.z));
        let c5 = rot_to_world(sin_theta, cos_theta, &Vec3::new(b.max.x, b.min.y, b.max.z));
        let c6 = rot_to_world(sin_theta, cos_theta, &Vec3::new(b.max.x, b.max.y, b.min.z));
        let c7 = rot_to_world(sin_theta, cos_theta, &Vec3::new(b.max.x, b.max.y, b.max.z));
        let lo = c0.min(&c1).min(&c2.min(&c3)).min(&c4.min(&c5).min(&c6.min(&c7)));
        let hi = c0.max(&c1).max(&c2.max(&c3)).max(&c4.max(&c5).max(&c6.max(&c7)));
        let aabb = AABB::from_points(lo, hi);
        Self { object, sin_theta, cos_theta, aabb }
    }
}

} // verus!

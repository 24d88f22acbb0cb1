//! A wrapper that translates a primitive: rays are moved into object
//! space, hit points moved back.

use crate::aabb::AABB;
use crate::hittable::{prim_bounding_box, prim_inv, primitive_bounding_box, Primitive};
use crate::vec3::{Vec3, V3};
use vstd::prelude::*;

verus! {

pub struct Translate {
    pub object: Box<Primitive>,
    pub offset: V3,
    pub aabb: AABB,
}

impl Translate {
    pub open spec fn inv(self) -> bool {
        &&& self.offset.wf()
        &&& self.aabb.wf()
        &&& prim_inv(*self.object)
    }

    /// The translated box may be clamped at the edge of the representable
    /// world; translated geometry is expected to stay inside it.
    pub open spec fn spec_shifted_box(b: AABB, offset: V3) -> AABB {
        AABB { min: Vec3::spec_add(b.min, offset), max: Vec3::spec_add(b.max, offset) }
    }

    pub fn from(object: Box<Primitive>, offset: V3) -> (s: Self)
        requires
            prim_inv(*object),
            offset.wf(),
        ensures
            s.inv(),
            s.object == object,
            s.offset == offset,
            s.aabb == Self::spec_shifted_box(prim_bounding_box(*object), offset),
    {
        let b = primitive_bounding_box(&object);
        let aabb = AABB { min: b.min.add(&offset), max: b.max.add(&offset) };
        Self { object, offset, aabb }
    }
}

} // verus!

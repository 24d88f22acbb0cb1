//! A constant-density participating medium ("fog") bounded by a wrapped
//! primitive: a ray entering the boundary scatters inside it at an
//! exponentially distributed free path.

use crate::hittable::{prim_inv, Primitive};
use crate::scalar::scalar_in_range;
use vstd::prelude::*;

verus! {

pub struct ConstantMedium {
    pub boundary: Box<Primitive>,
    /// Material index of the phase function (an isotropic material).
    pub phase_function: usize,
    /// Reciprocal density in fixed point; scales the exponential free-path
    /// draw.
    pub inv_density: i64,
}

impl ConstantMedium {
    pub open spec fn inv(self) -> bool {
        &&& scalar_in_range(self.inv_density as int)
        &&& self.inv_density >= 0
        &&& prim_inv(*self.boundary)
    }

    pub fn from(boundary: Box<Primitive>, phase_function: usize, inv_density: i64) -> (s: Self)
        requires
            prim_inv(*boundary),
            0 <= inv_density,
            scalar_in_range(inv_density as int),
        ensures
            s.inv(),
            s.boundary == boundary,
            s.phase_function == phase_function,
            s.inv_density == inv_density,
    {
        Self { boundary, phase_function, inv_density }
    }
}

} // verus!

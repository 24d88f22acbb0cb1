//! The scatter outcome and the material capability's closed variant set.

use crate::pdf::PDF;
use crate::ray::Ray;
use crate::vec3::Color;
use vstd::prelude::*;

verus! {

/// What a surface does to an incoming ray: a single deterministic
/// specular ray, or a sampleable diffuse distribution; both carry an
/// attenuation color.
pub enum ScatterRay {
    Specular { specular_ray: Ray, attenuation: Color },
    Scatter { pdf: PDF, attenuation: Color },
}

impl ScatterRay {
    pub open spec fn inv(self) -> bool {
        match self {
            ScatterRay::Specular { specular_ray, attenuation } => specular_ray.wf()
                && attenuation.wf(),
            ScatterRay::Scatter { pdf, attenuation } => pdf.inv() && attenuation.wf(),
        }
    }
}

} // verus!

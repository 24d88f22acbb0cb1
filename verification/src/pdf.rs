//! Sampleable directional distributions used for importance sampling:
//! uniform sphere, cosine-weighted hemisphere, "toward a shape", and an
//! equal-weight mixture of two distributions.

use crate::hittable::{prim_inv, prim_spec_pdf_value, prim_spec_random, Hittable, Primitive};
use crate::onb::ONB;
use crate::scalar::{clamp_s, scalar_in_range, SCALE};
use crate::utility::{
    sample_cosine_direction, sample_unit_vector, spec_next_state, spec_output,
    spec_sample_cosine_direction, spec_sample_unit_vector, Prng,
};
use crate::vec3::{fpd, Vec3, P3, V3};
use vstd::prelude::*;

verus! {

/// Fixed point pi (`round(pi * SCALE)`).
pub const PI_FP: i64 = 205887;

/// Fixed point `1 / (4 pi)` (`round(SCALE / (4 pi))`).
pub const INV_FOUR_PI_FP: i64 = 5215;

pub enum PDF {
    Sphere {},
    Cosine { uvw: ONB },
    Hittable { obj: Box<Primitive>, origin: P3 },
    Mixture { a: Box<PDF>, b: Box<PDF> },
}

impl PDF {
    pub open spec fn inv(self) -> bool
        decreases self,
    {
        match self {
            PDF::Sphere {  } => true,
            PDF::Cosine { uvw } => uvw.wf(),
            PDF::Hittable { obj, origin } => prim_inv(*obj) && origin.wf(),
            PDF::Mixture { a, b } => a.inv() && b.inv(),
        }
    }

    /// A uniform distribution over the sphere of directions.
    pub fn sphere() -> (r: Self)
        ensures
            r == (PDF::Sphere {  }),
            r.inv(),
    {
        PDF::Sphere {  }
    }

    /// A cosine-weighted distribution about the direction `w`.
    pub fn cosine(w: &V3) -> (r: Self)
        requires
            w.wf(),
        ensures
            r == (PDF::Cosine { uvw: ONB::spec_from(*w) }),
            r.inv(),
    {
        PDF::Cosine { uvw: ONB::from(w) }
    }

    /// The distribution of directions from `origin` toward `obj`.
    pub fn hittable(obj: Box<Primitive>, origin: &P3) -> (r: Self)
        requires
            prim_inv(*obj),
            origin.wf(),
        ensures
            r == (PDF::Hittable { obj, origin: *origin }),
            r.inv(),
    {
        PDF::Hittable { obj, origin: *origin }
    }

    /// The equal-weight mixture of two distributions.
    pub fn mixture(a: Box<PDF>, b: Box<PDF>) -> (r: Self)
        requires
            a.inv(),
            b.inv(),
        ensures
            r == (PDF::Mixture { a, b }),
            r.inv(),
    {
        PDF::Mixture { a, b }
    }

    /// The density of the distribution at a direction.
    pub open spec fn spec_value(self, dir: V3, time: i64, g: Prng) -> (int, Prng)
        decreases self,
    {
        match self {
            PDF::Sphere {  } => (INV_FOUR_PI_FP as int, g),
            PDF::Cosine { uvw } => {
                let cos_theta = Vec3::spec_dot(Vec3::spec_normalize(dir), uvw.w_axis);
                let d = fpd(cos_theta, PI_FP as int);
                (
                    if d > 0 {
                        d
                    } else {
                        0
                    },
                    g,
                )
            },
            PDF::Hittable { obj, origin } => prim_spec_pdf_value(*obj, origin, dir, time, g),
            PDF::Mixture { a, b } => {
                let (va, g1) = a.spec_value(dir, time, g);
                let (vb, g2) = b.spec_value(dir, time, g1);
                (clamp_s((va + vb) / 2), g2)
            },
        }
    }

    /// A direction drawn from the distribution.
    pub open spec fn spec_generate(self, time: i64, g: Prng) -> (V3, Prng)
        decreases self,
    {
        match self {
            PDF::Sphere {  } => spec_sample_unit_vector(g, 64),
            PDF::Cosine { uvw } => {
                let (d, g1) = spec_sample_cosine_direction(g);
                (uvw.spec_transform(d), g1)
            },
            PDF::Hittable { obj, origin } => prim_spec_random(*obj, origin, time, g),
            PDF::Mixture { a, b } => {
                let w = spec_output(g);
                let g1 = spec_next_state(g);
                if w % 2 == 0 {
                    a.spec_generate(time, g1)
                } else {
                    b.spec_generate(time, g1)
                }
            },
        }
    }

    pub fn value(&self, dir: &V3, time: i64, prng: &mut Prng) -> (r: i64)
        requires
            self.inv(),
            dir.wf(),
            scalar_in_range(time as int),
        ensures
            (r as int, *final(prng)) == self.spec_value(*dir, time, *old(prng)),
            scalar_in_range(r as int),
        decreases *self,
    {
        match self {
            PDF::Sphere {  } => INV_FOUR_PI_FP,
            PDF::Cosine { uvw } => {
                let cos_theta = dir.normalize().dot(&uvw.w());
                let d = crate::vec3::fp_div_clamped(cos_theta, PI_FP);
                if d > 0 {
                    d
                } else {
                    0
                }
            },
            PDF::Hittable { obj, origin } => obj.pdf_value(origin, dir, time, prng),
            PDF::Mixture { a, b } => {
                let va = a.value(dir, time, prng);
                let vb = b.value(dir, time, prng);
                crate::scalar::clamp_scalar_i128(
                    crate::scalar::div_floor_i128((va as i128) + (vb as i128), 2),
                )
            },
        }
    }

    pub fn generate(&self, time: i64, prng: &mut Prng) -> (r: V3)
        requires
            self.inv(),
            scalar_in_range(time as int),
        ensures
            (r, *final(prng)) == self.spec_generate(time, *old(prng)),
            r.wf(),
        decreases *self,
    {
        match self {
            PDF::Sphere {  } => sample_unit_vector(prng),
            PDF::Cosine { uvw } => {
                let d = sample_cosine_direction(prng);
                uvw.transform(&d)
            },
            PDF::Hittable { obj, origin } => obj.random(origin, time, prng),
            PDF::Mixture { a, b } => {
                let w = prng.next_u64();
                if w % 2 == 0 {
                    a.generate(time, prng)
                } else {
                    b.generate(time, prng)
                }
            },
        }
    }
}

/// The uniform-sphere and cosine distributions never report a negative
/// density: where a direction is outside the support, the density is zero.
pub proof fn lemma_pdf_value_nonneg(p: PDF, dir: V3, time: i64, g: Prng)
    requires
        p is Sphere || p is Cosine,
    ensures
        p.spec_value(dir, time, g).0 >= 0,
{
}

} // verus!

//! The material variants: diffuse, metal, glass, emissive, and the
//! isotropic phase function of participating media.

use crate::hit_record::HitRecord;
use crate::material::ScatterRay;
use crate::pdf::{PDF, PI_FP, INV_FOUR_PI_FP};
use crate::ray::Ray;
use crate::scalar::{clamp_s, scalar_in_range, SCALE};
use crate::texture::{SolidColor, Texture};
use crate::utility::{
    random_double, reflect, refract, sample_unit_vector, spec_next_state, spec_random_double,
    spec_reflect, spec_refract, spec_sample_unit_vector, Prng,
};
use crate::vec3::{clamp_i64, fp_div_clamped, fp_mul_clamped, fpd, fpm, Color, Vec3, V3};
use vstd::prelude::*;

verus! {

pub struct Lambertian {
    pub tex: Texture,
}

impl Lambertian {
    pub fn from_color(c: Color) -> (r: Self)
        requires
            c.wf(),
        ensures
            r.tex == Texture::Solid(SolidColor { albedo: c }),
            r.tex.inv(),
    {
        Self { tex: Texture::Solid(SolidColor { albedo: c }) }
    }

    pub fn from_texture(tex: Texture) -> (r: Self)
        ensures
            r.tex == tex,
    {
        Self { tex }
    }
}

pub struct Metal {
    pub albedo: Color,
    pub fuzz: i64,
}

pub struct Dielectric {
    pub refraction_index: i64,
}

impl Dielectric {
    /// Schlick's reflectance approximation at incidence cosine `cos`.
    pub open spec fn spec_reflectance(self, cos: int) -> int {
        let r0a = fpd(
            clamp_s((SCALE as int) - self.refraction_index),
            clamp_s((SCALE as int) + self.refraction_index),
        );
        let r0 = fpm(r0a, r0a);
        let omc = clamp_s((SCALE as int) - cos);
        let p5 = fpm(fpm(fpm(fpm(omc, omc), omc), omc), omc);
        clamp_s(fpm(clamp_s((SCALE as int) - r0), p5) + r0)
    }

    pub fn reflectance(&self, cos: i64) -> (r: i64)
        requires
            scalar_in_range(self.refraction_index as int),
            self.refraction_index != -SCALE,
            scalar_in_range(cos as int),
        ensures
            r as int == self.spec_reflectance(cos as int),
            scalar_in_range(r as int),
    {
        let denom = clamp_i64(SCALE + self.refraction_index);
        let r0a = fp_div_clamped(clamp_i64(SCALE - self.refraction_index), denom);
        let r0 = fp_mul_clamped(r0a, r0a);
        let omc = clamp_i64(SCALE - cos);
        let p5 = fp_mul_clamped(fp_mul_clamped(fp_mul_clamped(fp_mul_clamped(omc, omc), omc), omc), omc);
        clamp_i64(fp_mul_clamped(clamp_i64(SCALE - r0), p5) + r0)
    }

    /// A sharper fit of the Fresnel curve at incidence cosine `cos`.
    pub open spec fn spec_fresnel_reflectance(self, cos: int) -> int {
        let r0a = fpd(
            clamp_s((SCALE as int) - self.refraction_index),
            clamp_s((SCALE as int) + self.refraction_index),
        );
        let r0 = fpm(r0a, r0a);
        let omc = clamp_s((SCALE as int) - cos);
        let p4 = fpm(fpm(fpm(omc, omc), omc), omc);
        clamp_s(fpm(clamp_s(omc - r0), p4) + r0)
    }

    pub fn fresnel_reflectance(&self, cos: i64) -> (r: i64)
        requires
            scalar_in_range(self.refraction_index as int),
            self.refraction_index != -SCALE,
            scalar_in_range(cos as int),
        ensures
            r as int == self.spec_fresnel_reflectance(cos as int),
            scalar_in_range(r as int),
    {
        let denom = clamp_i64(SCALE + self.refraction_index);
        let r0a = fp_div_clamped(clamp_i64(SCALE - self.refraction_index), denom);
        let r0 = fp_mul_clamped(r0a, r0a);
        let omc = clamp_i64(SCALE - cos);
        let p4 = fp_mul_clamped(fp_mul_clamped(fp_mul_clamped(omc, omc), omc), omc);
        clamp_i64(fp_mul_clamped(clamp_i64(omc - r0), p4) + r0)
    }
}

pub struct DiffuseLight {
    pub tex: Texture,
}

impl DiffuseLight {
    pub fn from_texture(tex: Texture) -> (r: Self)
        ensures
            r.tex == tex,
    {
        Self { tex }
    }

    pub fn from_color(c: Color) -> (r: Self)
        requires
            c.wf(),
        ensures
            r.tex == Texture::Solid(SolidColor { albedo: c }),
            r.tex.inv(),
    {
        Self { tex: Texture::Solid(SolidColor { albedo: c }) }
    }
}

pub struct Isotropic {
    pub tex: Texture,
}

/// The closed set of surface behaviours.
pub enum Material {
    Lambertian(Lambertian),
    Metal(Metal),
    Dielectric(Dielectric),
    DiffuseLight(DiffuseLight),
    Isotropic(Isotropic),
}

impl Material {
    pub open spec fn inv(self) -> bool {
        match self {
            Material::Lambertian(m) => m.tex.inv(),
            Material::Metal(m) => m.albedo.wf() && 0 <= m.fuzz <= SCALE,
            Material::Dielectric(m) => 0 < m.refraction_index <= crate::scalar::SCALAR_LIMIT,
            Material::DiffuseLight(m) => m.tex.inv(),
            Material::Isotropic(m) => m.tex.inv(),
        }
    }

    /// How the incoming ray scatters at the interaction, if at all, and
    /// the random stream afterwards.
    pub open spec fn spec_scatter(self, r: Ray, rec: HitRecord, g: Prng) -> (
        Option<ScatterRay>,
        Prng,
    ) {
        match self {
            Material::Lambertian(m) => (
                Some(
                    ScatterRay::Scatter {
                        pdf: PDF::Cosine { uvw: crate::onb::ONB::spec_from(rec.normal) },
                        attenuation: m.tex.spec_value(rec.u, rec.v, rec.p),
                    },
                ),
                g,
            ),
            Material::Metal(m) => {
                let reflected = spec_reflect(Vec3::spec_normalize(r.direction), rec.normal);
                let (u, g1) = spec_sample_unit_vector(g, 64);
                let dir = Vec3::spec_normalize(
                    Vec3::spec_add(Vec3::spec_normalize(reflected), Vec3::spec_scale(u, m.fuzz as int)),
                );
                if Vec3::spec_dot_raw(dir, rec.normal) > 0 {
                    (
                        Some(
                            ScatterRay::Specular {
                                specular_ray: Ray { origin: rec.p, direction: dir, time: r.time },
                                attenuation: m.albedo,
                            },
                        ),
                        g1,
                    )
                } else {
                    (None, g1)
                }
            },
            Material::Dielectric(m) => {
                let ri = if rec.is_front_face {
                    fpd(SCALE as int, m.refraction_index as int) as i64
                } else {
                    m.refraction_index
                };
                let unit_dir = Vec3::spec_normalize(r.direction);
                let mdot = clamp_s(-Vec3::spec_dot(unit_dir, rec.normal));
                let cos_theta = if mdot < SCALE {
                    mdot
                } else {
                    SCALE as int
                };
                let sin2 = clamp_s((SCALE as int) - fpm(cos_theta, cos_theta));
                let sin_theta = crate::utility::spec_linear_to_gamma(sin2);
                let cannot_refract = fpm(ri as int, sin_theta) > SCALE;
                let draw = spec_random_double(g);
                let g1 = spec_next_state(g);
                let is_reflect = self.spec_dielectric_reflectance(cos_theta) > draw;
                let dir = if cannot_refract || is_reflect {
                    spec_reflect(unit_dir, rec.normal)
                } else {
                    spec_refract(unit_dir, rec.normal, ri as int)
                };
                (
                    Some(
                        ScatterRay::Specular {
                            specular_ray: Ray { origin: rec.p, direction: dir, time: r.time },
                            attenuation: Vec3 { x: SCALE, y: SCALE, z: SCALE },
                        },
                    ),
                    g1,
                )
            },
            Material::DiffuseLight(_) => (None, g),
            Material::Isotropic(m) => (
                Some(
                    ScatterRay::Scatter {
                        pdf: PDF::Sphere {  },
                        attenuation: m.tex.spec_value(rec.u, rec.v, rec.p),
                    },
                ),
                g,
            ),
        }
    }

    /// The reflectance curve the dielectric compares a uniform draw with.
    pub open spec fn spec_dielectric_reflectance(self, cos: int) -> int {
        match self {
            Material::Dielectric(m) => m.spec_fresnel_reflectance(cos),
            _ => 0,
        }
    }

    pub fn scatter(&self, r: &Ray, rec: &HitRecord, prng: &mut Prng) -> (res: Option<ScatterRay>)
        requires
            self.inv(),
            r.wf(),
            rec.wf(),
        ensures
            (res, *final(prng)) == self.spec_scatter(*r, *rec, *old(prng)),
            res matches Some(s) ==> s.inv(),
    {
        match self {
            Material::Lambertian(m) => Some(
                ScatterRay::Scatter {
                    pdf: PDF::cosine(&rec.normal),
                    attenuation: m.tex.value(rec.u, rec.v, &rec.p),
                },
            ),
            Material::Metal(m) => {
                let reflected = reflect(&r.direction.normalize(), &rec.normal);
                let u = sample_unit_vector(prng);
                let dir = reflected.normalize().add(&u.scale(m.fuzz)).normalize();
                if dir.dot_raw(&rec.normal) > 0 {
                    Some(
                        ScatterRay::Specular {
                            specular_ray: Ray::from(&rec.p, &dir, r.time),
                            attenuation: m.albedo,
                        },
                    )
                } else {
                    None
                }
            },
            Material::Dielectric(m) => {
                let ri = if rec.is_front_face {
                    fp_div_clamped(SCALE, m.refraction_index)
                } else {
                    m.refraction_index
                };
                let unit_dir = r.direction.normalize();
                let mdot = clamp_i64(-unit_dir.dot(&rec.normal));
                let cos_theta = if mdot < SCALE {
                    mdot
                } else {
                    SCALE
                };
                let sin2 = clamp_i64(SCALE - fp_mul_clamped(cos_theta, cos_theta));
                let sin_theta = crate::utility::linear_to_gamma(sin2);
                let cannot_refract = fp_mul_clamped(ri, sin_theta) > SCALE;
                let draw = random_double(prng);
                let is_reflect = m.fresnel_reflectance(cos_theta) > draw;
                let dir = if cannot_refract || is_reflect {
                    reflect(&unit_dir, &rec.normal)
                } else {
                    refract(&unit_dir, &rec.normal, ri)
                };
                Some(
                    ScatterRay::Specular {
                        specular_ray: Ray::from(&rec.p, &dir, r.time),
                        attenuation: Vec3::one(),
                    },
                )
            },
            Material::DiffuseLight(_) => None,
            Material::Isotropic(m) => Some(
                ScatterRay::Scatter {
                    pdf: PDF::sphere(),
                    attenuation: m.tex.value(rec.u, rec.v, &rec.p),
                },
            ),
        }
    }

    /// The radiance the surface itself emits at the interaction: only
    /// emissive materials emit, and only on the front face.
    pub open spec fn spec_emitted(self, r: Ray, rec: HitRecord, u: i64, v: i64, p: P3) -> Color {
        match self {
            Material::DiffuseLight(m) => if rec.is_front_face {
                m.tex.spec_value(u, v, p)
            } else {
                Vec3 { x: 0i64, y: 0i64, z: 0i64 }
            },
            _ => Vec3 { x: 0i64, y: 0i64, z: 0i64 },
        }
    }

    pub fn emitted(&self, r: &Ray, rec: &HitRecord, u: i64, v: i64, p: &P3) -> (res: Color)
        requires
            self.inv(),
            scalar_in_range(u as int),
            scalar_in_range(v as int),
            p.wf(),
        ensures
            res == self.spec_emitted(*r, *rec, u, v, *p),
            res.wf(),
    {
        match self {
            Material::DiffuseLight(m) => if rec.is_front_face {
                m.tex.value(u, v, p)
            } else {
                Vec3::zero()
            },
            _ => Vec3::zero(),
        }
    }

    /// The density under which the material's own distribution scatters
    /// into the given direction, used by the importance-sampled estimator.
    pub open spec fn spec_scattering_pdf(self, r: Ray, scattered: Ray, rec: HitRecord) -> int {
        match self {
            Material::Lambertian(_) => {
                let cos_theta = Vec3::spec_dot(
                    Vec3::spec_normalize(scattered.direction),
                    rec.normal,
                );
                if cos_theta > 0 {
                    fpd(cos_theta, PI_FP as int)
                } else {
                    0
                }
            },
            Material::Isotropic(_) => INV_FOUR_PI_FP as int,
            _ => SCALE as int,
        }
    }

    pub fn scattering_pdf(&self, r: &Ray, scattered: &Ray, rec: &HitRecord) -> (res: i64)
        requires
            self.inv(),
            scattered.wf(),
            rec.wf(),
        ensures
            res as int == self.spec_scattering_pdf(*r, *scattered, *rec),
            scalar_in_range(res as int),
    {
        match self {
            Material::Lambertian(_) => {
                let cos_theta = scattered.direction.normalize().dot(&rec.normal);
                if cos_theta > 0 {
                    fp_div_clamped(cos_theta, PI_FP)
                } else {
                    0
                }
            },
            Material::Isotropic(_) => INV_FOUR_PI_FP,
            _ => SCALE,
        }
    }
}

use crate::vec3::P3;

} // verus!

verus! {

/// A perfectly polished metal (zero fuzz) reflects deterministically: for
/// every state of the random stream, the scattered ray's direction is
/// exactly the renormalized mirror reflection of the unit incoming
/// direction about the surface normal, and the attenuation is the
/// surface's own color.
pub proof fn theorem_polished_metal_mirrors(m: Metal, r: Ray, rec: HitRecord, g: Prng)
    requires
        m.fuzz == 0,
        m.albedo.wf(),
        r.wf(),
        rec.wf(),
    ensures
        ({
            let (res, _) = Material::Metal(m).spec_scatter(r, rec, g);
            let mirror = Vec3::spec_normalize(
                Vec3::spec_normalize(spec_reflect(Vec3::spec_normalize(r.direction), rec.normal)),
            );
            match res {
                Some(ScatterRay::Specular { specular_ray, attenuation }) => specular_ray.direction
                    == mirror && attenuation == m.albedo && specular_ray.origin == rec.p,
                Some(ScatterRay::Scatter { .. }) => false,
                None => Vec3::spec_dot_raw(mirror, rec.normal) <= 0,
            }
        }),
{
    let reflected = spec_reflect(Vec3::spec_normalize(r.direction), rec.normal);
    let (u, _) = spec_sample_unit_vector(g, 64);
    assert(Vec3::spec_scale(u, 0) == (Vec3 { x: 0i64, y: 0i64, z: 0i64 }));
    assert(Vec3::spec_add(Vec3::spec_normalize(reflected), Vec3 { x: 0i64, y: 0i64, z: 0i64 })
        == Vec3::spec_normalize(reflected));
}

} // verus!

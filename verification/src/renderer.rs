//! The recursive Monte Carlo integrator and a simple normal-shading
//! renderer, both pinned to exact spec-level mirrors.

use crate::hit_record::HitRecord;
use crate::hittable::Hittable;
use crate::interval::Interval;
use crate::lambertian::Material;
use crate::material::ScatterRay;
use crate::ray::Ray;
use crate::scalar::{scalar_in_range, SCALAR_LIMIT, SCALE};
use crate::utility::Prng;
use crate::vec3::{fp_div_clamped, fp_mul_clamped, fpd, fpm, Color, Vec3};
use vstd::prelude::*;

verus! {

/// Scattered rays start this many ticks after their origin, so a ray
/// cannot re-intersect the surface it just left.
pub const SHADOW_EPS: i64 = 66;

/// What the integrator needs to know about the scene besides its
/// geometry: the background radiance and the material table the hit
/// records index into.
pub struct SceneDetails {
    pub background: Color,
    pub materials: Vec<Material>,
}

impl SceneDetails {
    pub open spec fn inv(self) -> bool {
        &&& self.background.wf()
        &&& forall|k: int| 0 <= k < self.materials@.len() ==> (#[trigger] self.materials@[k]).inv()
    }
}

/// A pixel-color estimator: everything that can turn a ray into a color
/// against a scene.
pub trait Renderer<H: Hittable> {
    spec fn spec_ray_color(&self, r: Ray, depth: usize, scene: &H, details: SceneDetails, g: Prng) -> (
        Color,
        Prng,
    );

    /// Estimate the radiance arriving along `r`.
    fn ray_color(
        &self,
        r: &Ray,
        depth: usize,
        scene: &H,
        details: &SceneDetails,
        prng: &mut Prng,
    ) -> (res: Color)
        requires
            scene.inv(),
            details.inv(),
            r.wf(),
        ensures
            (res, *final(prng)) == self.spec_ray_color(*r, depth, scene, *details, *old(prng)),
            res.wf(),
    ;
}

/// Shades by surface normal only; useful for debugging scenes.
pub struct NormalRenderer {}

/// The normal-shading estimate: half the unit normal plus mid-gray where
/// the ray hits, black where it escapes.
pub open spec fn spec_normal_ray_color<H: Hittable>(r: Ray, scene: &H, g: Prng) -> (Color, Prng) {
    let gate = Interval { min: 1i64, max: SCALAR_LIMIT };
    let (hit, g1) = scene.spec_hit(r, gate, g);
    match hit {
        Some(rec) => (
            Vec3::spec_add(
                Vec3::spec_scale(rec.normal, (SCALE / 2) as int),
                Vec3 { x: (SCALE / 2) as i64, y: (SCALE / 2) as i64, z: (SCALE / 2) as i64 },
            ),
            g1,
        ),
        None => (Vec3 { x: 0i64, y: 0i64, z: 0i64 }, g1),
    }
}

impl<H: Hittable> Renderer<H> for NormalRenderer {
    open spec fn spec_ray_color(&self, r: Ray, depth: usize, scene: &H, details: SceneDetails, g: Prng) -> (
        Color,
        Prng,
    ) {
        spec_normal_ray_color(r, scene, g)
    }

    fn ray_color(
        &self,
        r: &Ray,
        depth: usize,
        scene: &H,
        details: &SceneDetails,
        prng: &mut Prng,
    ) -> (res: Color) {
        let gate = Interval::casting_default();
        match scene.hit(r, &gate, prng) {
            Some(rec) => rec.normal.scale(SCALE / 2).add(&Vec3::splat(SCALE / 2)),
            None => Vec3::zero(),
        }
    }
}

/// The full path-tracing integrator.
pub struct FullRenderer {}

/// One diffuse bounce's contribution: the importance-sampling ratio
/// `attenuation * scattering_density * radiance / sample_density`, kept in
/// its unsimplified form and defined as zero when the sample density
/// vanishes, so a degenerate direction contributes nothing rather than a
/// meaningless quotient.
pub open spec fn spec_scatter_term(attenuation: Color, spdf: int, pv: int, sample: Color) -> Color {
    if pv <= 0 {
        Vec3 { x: 0i64, y: 0i64, z: 0i64 }
    } else {
        let num = Vec3::spec_scale(Vec3::spec_mul_elem(attenuation, sample), spdf);
        Vec3 {
            x: fpd(num.x as int, pv) as i64,
            y: fpd(num.y as int, pv) as i64,
            z: fpd(num.z as int, pv) as i64,
        }
    }
}

/// The recursive Monte Carlo estimate: black at the depth bound, the
/// background where the ray escapes, emission plus the scattered
/// contribution at a surface.
pub open spec fn spec_full_ray_color<H: Hittable>(
    r: Ray,
    depth: usize,
    scene: &H,
    details: SceneDetails,
    g: Prng,
) -> (Color, Prng)
    decreases depth,
{
    if depth == 0 {
        (Vec3 { x: 0i64, y: 0i64, z: 0i64 }, g)
    } else {
        let gate = Interval { min: SHADOW_EPS, max: SCALAR_LIMIT };
        let (hit, g1) = scene.spec_hit(r, gate, g);
        match hit {
            None => (details.background, g1),
            Some(rec) => {
                if rec.material >= details.materials@.len() {
                    (Vec3 { x: 0i64, y: 0i64, z: 0i64 }, g1)
                } else {
                    let mat = details.materials@[rec.material as int];
                    let emitted = mat.spec_emitted(r, rec, rec.u, rec.v, rec.p);
                    let (scat, g2) = mat.spec_scatter(r, rec, g1);
                    match scat {
                        None => (emitted, g2),
                        Some(ScatterRay::Specular { specular_ray, attenuation }) => {
                            let (c, g3) = spec_full_ray_color(
                                specular_ray,
                                (depth - 1) as usize,
                                scene,
                                details,
                                g2,
                            );
                            (Vec3::spec_mul_elem(attenuation, c), g3)
                        },
                        Some(ScatterRay::Scatter { pdf, attenuation }) => {
                            let (dir, g3) = pdf.spec_generate(r.time, g2);
                            let scattered = Ray { origin: rec.p, direction: dir, time: r.time };
                            let (pv, g4) = pdf.spec_value(dir, r.time, g3);
                            let spdf = mat.spec_scattering_pdf(r, scattered, rec);
                            let (sample, g5) = spec_full_ray_color(
                                scattered,
                                (depth - 1) as usize,
                                scene,
                                details,
                                g4,
                            );
                            (
                                Vec3::spec_add(
                                    emitted,
                                    spec_scatter_term(attenuation, spdf, pv, sample),
                                ),
                                g5,
                            )
                        },
                    }
                }
            },
        }
    }
}

/// Recursive integrator body, mirroring `spec_full_ray_color`.
fn full_ray_color<H: Hittable>(
    r: &Ray,
    depth: usize,
    scene: &H,
    details: &SceneDetails,
    prng: &mut Prng,
) -> (res: Color)
    requires
        scene.inv(),
        details.inv(),
        r.wf(),
    ensures
        (res, *final(prng)) == spec_full_ray_color(*r, depth, scene, *details, *old(prng)),
        res.wf(),
    decreases depth,
{
    if depth == 0 {
        return Vec3::zero();
    }
    let gate = Interval::from(SHADOW_EPS, SCALAR_LIMIT);
    let hit = scene.hit(r, &gate, prng);
    match hit {
        None => details.background,
        Some(rec) => {
            if rec.material >= details.materials.len() {
                return Vec3::zero();
            }
            let mat = &details.materials[rec.material];
            let emitted = mat.emitted(r, &rec, rec.u, rec.v, &rec.p);
            let scat = mat.scatter(r, &rec, prng);
            match scat {
                None => emitted,
                Some(ScatterRay::Specular { specular_ray, attenuation }) => {
                    let c = full_ray_color(&specular_ray, depth - 1, scene, details, prng);
                    attenuation.mul_elem(&c)
                },
                Some(ScatterRay::Scatter { pdf, attenuation }) => {
                    let dir = pdf.generate(r.time, prng);
                    let scattered = Ray::from(&rec.p, &dir, r.time);
                    let pv = pdf.value(&dir, r.time, prng);
                    let spdf = mat.scattering_pdf(r, &scattered, &rec);
                    let sample = full_ray_color(&scattered, depth - 1, scene, details, prng);
                    let bounce = if pv <= 0 {
                        Vec3::zero()
                    } else {
                        let num = attenuation.mul_elem(&sample).scale(spdf);
                        Vec3::new(
                            fp_div_clamped(num.x, pv),
                            fp_div_clamped(num.y, pv),
                            fp_div_clamped(num.z, pv),
                        )
                    };
                    emitted.add(&bounce)
                },
            }
        },
    }
}

impl<H: Hittable> Renderer<H> for FullRenderer {
    open spec fn spec_ray_color(&self, r: Ray, depth: usize, scene: &H, details: SceneDetails, g: Prng) -> (
        Color,
        Prng,
    ) {
        spec_full_ray_color(r, depth, scene, details, g)
    }

    fn ray_color(
        &self,
        r: &Ray,
        depth: usize,
        scene: &H,
        details: &SceneDetails,
        prng: &mut Prng,
    ) -> (res: Color) {
        full_ray_color(r, depth, scene, details, prng)
    }
}

/// At the depth bound the estimator is black, and a ray that escapes the
/// scene yields exactly the configured background radiance.
pub proof fn theorem_escape_returns_background<H: Hittable>(
    r: Ray,
    depth: usize,
    scene: &H,
    details: SceneDetails,
    g: Prng,
)
    ensures
        depth == 0 ==> spec_full_ray_color(r, depth, scene, details, g).0 == (Vec3 {
            x: 0i64,
            y: 0i64,
            z: 0i64,
        }),
        depth > 0 && scene.spec_hit(
            r,
            Interval { min: SHADOW_EPS, max: SCALAR_LIMIT },
            g,
        ).0 is None ==> spec_full_ray_color(r, depth, scene, details, g).0 == details.background,
{
}

} // verus!

//! The camera: ray generation from pixel coordinates and the
//! embarrassingly parallel render loop.
//!
//! Every pixel is integrated with a private random stream seeded from its
//! own coordinates, so the image is a mathematical function of the scene
//! and the camera: re-rendering gives bit-identical output, independent
//! of scheduling.

use crate::hittable::Hittable;
use crate::ray::Ray;
use crate::renderer::{Renderer, SceneDetails};
use crate::scalar::{clamp_s, scalar_in_range, SCALAR_LIMIT, SCALE};
use crate::screen::Screen;
use crate::utility::{
    make_prng_from, random_double, sample_square, sample_unit_disc, spec_next_state,
    spec_random_double, spec_sample_square, spec_sample_unit_disc, spec_seeded, Prng,
};
use crate::vec3::{clamp_i64, fpm, Color, Vec3, P3, V3};
use rayon::iter::IntoParallelIterator;
use rayon::iter::ParallelIterator;
use vstd::prelude::*;

verus! {

/// The fixed-point quantization factor: just under 256, so a unit color
/// channel maps to the top 8-bit value.
pub const QUANT_FP: i64 = 16776929;

pub struct Camera {
    pub image_height: usize,
    pub image_width: usize,
    pub samples_per_pixel: usize,
    pub max_depth: usize,
    pub defocus_angle: i64,
    pub camera_center: P3,
    pub pixel00_loc: P3,
    pub pixel_delta_u: V3,
    pub pixel_delta_v: V3,
    pub defocus_disk_u: V3,
    pub defocus_disk_v: V3,
    pub background: Color,
}

impl Camera {
    pub open spec fn inv(self) -> bool {
        &&& 1 <= self.image_width <= 16384
        &&& 1 <= self.image_height <= 16384
        &&& 1 <= self.samples_per_pixel <= 65536
        &&& scalar_in_range(self.defocus_angle as int)
        &&& self.camera_center.wf()
        &&& self.pixel00_loc.wf()
        &&& self.pixel_delta_u.wf()
        &&& self.pixel_delta_v.wf()
        &&& self.defocus_disk_u.wf()
        &&& self.defocus_disk_v.wf()
        &&& self.background.wf()
    }

    /// A camera from ray-generation parameters that a collaborator has
    /// already reduced to fixed point (viewport trigonometry is a one-time
    /// setup outside the engine).
    pub fn from_parts(
        image_width: usize,
        image_height: usize,
        samples_per_pixel: usize,
        max_depth: usize,
        defocus_angle: i64,
        camera_center: P3,
        pixel00_loc: P3,
        pixel_delta_u: V3,
        pixel_delta_v: V3,
        defocus_disk_u: V3,
        defocus_disk_v: V3,
        background: Color,
    ) -> (r: Self)
        requires
            1 <= image_width <= 16384,
            1 <= image_height <= 16384,
            1 <= samples_per_pixel <= 65536,
            scalar_in_range(defocus_angle as int),
            camera_center.wf(),
            pixel00_loc.wf(),
            pixel_delta_u.wf(),
            pixel_delta_v.wf(),
            defocus_disk_u.wf(),
            defocus_disk_v.wf(),
            background.wf(),
        ensures
            r == (Camera {
                image_height,
                image_width,
                samples_per_pixel,
                max_depth,
                defocus_angle,
                camera_center,
                pixel00_loc,
                pixel_delta_u,
                pixel_delta_v,
                defocus_disk_u,
                defocus_disk_v,
                background,
            }),
            r.inv(),
    {
        Camera {
            image_height,
            image_width,
            samples_per_pixel,
            max_depth,
            defocus_angle,
            camera_center,
            pixel00_loc,
            pixel_delta_u,
            pixel_delta_v,
            defocus_disk_u,
            defocus_disk_v,
            background,
        }
    }

    /// A point on the defocus disk around the camera center.
    pub open spec fn spec_defocus_disk_sample(self, g: Prng) -> (P3, Prng) {
        let (p, g1) = spec_sample_unit_disc(g, 64);
        (
            Vec3::spec_add(
                self.camera_center,
                Vec3::spec_add(
                    Vec3::spec_scale(self.defocus_disk_u, p.x as int),
                    Vec3::spec_scale(self.defocus_disk_v, p.y as int),
                ),
            ),
            g1,
        )
    }

    pub fn defocus_disk_sample(&self, prng: &mut Prng) -> (r: P3)
        requires
            self.inv(),
        ensures
            (r, *final(prng)) == self.spec_defocus_disk_sample(*old(prng)),
            r.wf(),
    {
        let p = sample_unit_disc(prng);
        self.camera_center.add(
            &self.defocus_disk_u.scale(p.x).add(&self.defocus_disk_v.scale(p.y)),
        )
    }

    /// The jittered ray through pixel `(i, j)`: a stratified offset inside
    /// the pixel footprint, an optional lens-disk origin, and a random
    /// timestamp for motion blur.
    pub open spec fn spec_get_ray(self, i: usize, j: usize, g: Prng) -> (Ray, Prng) {
        let (offset, g1) = spec_sample_square(g);
        let fu = clamp_s(i * (SCALE as int) + offset.x);
        let fv = clamp_s(j * (SCALE as int) + offset.y);
        let pixel_sample = Vec3::spec_add(
            self.pixel00_loc,
            Vec3::spec_add(
                Vec3::spec_scale(self.pixel_delta_u, fu),
                Vec3::spec_scale(self.pixel_delta_v, fv),
            ),
        );
        let (origin, g2) = if self.defocus_angle <= 0 {
            (self.camera_center, g1)
        } else {
            self.spec_defocus_disk_sample(g1)
        };
        let direction = Vec3::spec_sub(pixel_sample, origin);
        let time = spec_random_double(g2);
        (Ray { origin, direction, time }, spec_next_state(g2))
    }

    pub fn get_ray(&self, i: usize, j: usize, prng: &mut Prng) -> (r: Ray)
        requires
            self.inv(),
            i <= 16384,
            j <= 16384,
        ensures
            (r, *final(prng)) == self.spec_get_ray(i, j, *old(prng)),
            r.wf(),
    {
        let offset = sample_square(prng);
        let fu = clamp_i64((i as i64) * SCALE + offset.x);
        let fv = clamp_i64((j as i64) * SCALE + offset.y);
        let pixel_sample = self.pixel00_loc.add(
            &self.pixel_delta_u.scale(fu).add(&self.pixel_delta_v.scale(fv)),
        );
        let origin = if self.defocus_angle <= 0 {
            self.camera_center
        } else {
            self.defocus_disk_sample(prng)
        };
        let direction = pixel_sample.sub(&origin);
        let time = random_double(prng);
        Ray::from(&origin, &direction, time)
    }

    /// The accumulated (clamped) sum of `n` integrated samples through
    /// pixel `(i, j)`, and the stream afterwards.
    pub open spec fn spec_accumulate<H: Hittable, R: Renderer<H>>(
        self,
        scene: &H,
        renderer: &R,
        details: SceneDetails,
        i: usize,
        j: usize,
        g: Prng,
        n: nat,
    ) -> (Color, Prng)
        decreases n,
    {
        if n == 0 {
            (Vec3 { x: 0i64, y: 0i64, z: 0i64 }, g)
        } else {
            let (acc, g1) = self.spec_accumulate(scene, renderer, details, i, j, g, (n - 1) as nat);
            let (ray, g2) = self.spec_get_ray(i, j, g1);
            let (c, g3) = renderer.spec_ray_color(ray, self.max_depth, scene, details, g2);
            (Vec3::spec_add(acc, c), g3)
        }
    }

    /// The final quantized color of pixel `(i, j)`: average the samples,
    /// gamma-correct, and quantize to the 8-bit channel range.
    pub open spec fn spec_render_pixel<H: Hittable, R: Renderer<H>>(
        self,
        scene: &H,
        renderer: &R,
        details: SceneDetails,
        i: usize,
        j: usize,
    ) -> Color {
        let g = spec_seeded(((i + 1) * (j + 1)) as u64);
        let (sum, _) = self.spec_accumulate(
            scene,
            renderer,
            details,
            i,
            j,
            g,
            self.samples_per_pixel as nat,
        );
        let avg = Vec3 {
            x: (sum.x as int / self.samples_per_pixel as int) as i64,
            y: (sum.y as int / self.samples_per_pixel as int) as i64,
            z: (sum.z as int / self.samples_per_pixel as int) as i64,
        };
        let gamma = Vec3 {
            x: crate::utility::spec_linear_to_gamma(avg.x as int) as i64,
            y: crate::utility::spec_linear_to_gamma(avg.y as int) as i64,
            z: crate::utility::spec_linear_to_gamma(avg.z as int) as i64,
        };
        Vec3 {
            x: spec_quantize(gamma.x as int) as i64,
            y: spec_quantize(gamma.y as int) as i64,
            z: spec_quantize(gamma.z as int) as i64,
        }
    }

    /// Integrate one pixel with its own deterministically seeded stream.
    pub fn render_pixel<H: Hittable, R: Renderer<H>>(
        &self,
        i: usize,
        j: usize,
        scene: &H,
        renderer: &R,
        details: &SceneDetails,
    ) -> (res: Color)
        requires
            self.inv(),
            scene.inv(),
            details.inv(),
            i < self.image_width,
            j < self.image_height,
        ensures
            res == self.spec_render_pixel(scene, renderer, *details, i, j),
            res.wf(),
    {
        proof {
            assert(((i + 1) as u64) * (((j + 1) as u64)) < 0x2000_0000 && ((i + 1) * (j + 1))
                as u64 == ((i + 1) as u64) * ((j + 1) as u64))
                by (nonlinear_arith)
                requires
                    i < 16384,
                    j < 16384,
            ;
        }
        let mut prng = make_prng_from(((i + 1) as u64) * ((j + 1) as u64));
        let mut sum = Vec3::zero();
        let n = self.samples_per_pixel;
        let mut k: usize = 0;
        while k < n
            invariant
                n == self.samples_per_pixel,
                k <= n,
                self.inv(),
                scene.inv(),
                details.inv(),
                i <= 16384,
                j <= 16384,
                (sum, prng) == self.spec_accumulate(
                    scene,
                    renderer,
                    *details,
                    i,
                    j,
                    spec_seeded(((i + 1) * (j + 1)) as u64),
                    k as nat,
                ),
                sum.wf(),
            decreases n - k,
        {
            let ray = self.get_ray(i, j, &mut prng);
            let c = renderer.ray_color(&ray, self.max_depth, scene, details, &mut prng);
            sum = sum.add(&c);
            k = k + 1;
        }
        proof {
            vstd::arithmetic::div_mod::lemma_div_is_ordered(
                -(SCALAR_LIMIT as int),
                sum.x as int,
                n as int,
            );
            vstd::arithmetic::div_mod::lemma_div_is_ordered(sum.x as int, SCALAR_LIMIT as int, n as int);
            vstd::arithmetic::div_mod::lemma_div_is_ordered(
                -(SCALAR_LIMIT as int),
                sum.y as int,
                n as int,
            );
            vstd::arithmetic::div_mod::lemma_div_is_ordered(sum.y as int, SCALAR_LIMIT as int, n as int);
            vstd::arithmetic::div_mod::lemma_div_is_ordered(
                -(SCALAR_LIMIT as int),
                sum.z as int,
                n as int,
            );
            vstd::arithmetic::div_mod::lemma_div_is_ordered(sum.z as int, SCALAR_LIMIT as int, n as int);
            assert((-(SCALAR_LIMIT as int)) / (n as int) >= -(SCALAR_LIMIT as int))
                by (nonlinear_arith)
                requires
                    n >= 1,
                    SCALAR_LIMIT as int > 0,
            ;
            assert((SCALAR_LIMIT as int) / (n as int) <= SCALAR_LIMIT as int)
                by (nonlinear_arith)
                requires
                    n >= 1,
                    SCALAR_LIMIT as int > 0,
            ;
        }
        let sx = crate::scalar::div_floor_i128(sum.x as i128, n as i128);
        let sy = crate::scalar::div_floor_i128(sum.y as i128, n as i128);
        let sz = crate::scalar::div_floor_i128(sum.z as i128, n as i128);
        let avg = Vec3::new(sx as i64, sy as i64, sz as i64);
        let gx = crate::utility::linear_to_gamma(avg.x);
        let gy = crate::utility::linear_to_gamma(avg.y);
        let gz = crate::utility::linear_to_gamma(avg.z);
        Vec3::new(quantize(gx), quantize(gy), quantize(gz))
    }
}

/// Map a gamma-corrected channel to the integer range `0 ..= 255`.
pub open spec fn spec_quantize(c: int) -> int {
    let v = fpm(c, QUANT_FP as int) / (SCALE as int);
    if v < 0 {
        0
    } else if v > 255 {
        255
    } else {
        v
    }
}

fn quantize(c: i64) -> (r: i64)
    requires
        scalar_in_range(c as int),
    ensures
        r as int == spec_quantize(c as int),
        0 <= r <= 255,
{
    let v = crate::scalar::div_floor_i128(
        crate::vec3::fp_mul_clamped(c, QUANT_FP) as i128,
        SCALE as i128,
    );
    if v < 0 {
        0
    } else if v > 255 {
        255
    } else {
        proof {
            vstd::arithmetic::div_mod::lemma_div_is_ordered(
                -(SCALAR_LIMIT as int),
                crate::vec3::fpm(c as int, QUANT_FP as int),
                SCALE as int,
            );
        }
        v as i64
    }
}

} // verus!

verus! {

/// The color of the pixel at flat row-major index `k`.
pub open spec fn spec_pixel_at<H: Hittable, R: Renderer<H>>(
    cam: Camera,
    scene: &H,
    renderer: &R,
    details: SceneDetails,
    k: int,
) -> Color {
    cam.spec_render_pixel(
        scene,
        renderer,
        details,
        (k % (cam.image_width as int)) as usize,
        (k / (cam.image_width as int)) as usize,
    )
}

/// The whole image as a function of camera, scene and estimator: pixel
/// `(i, j)` of the row-major grid is its independently integrated color.
pub open spec fn spec_render<H: Hittable, R: Renderer<H>>(
    cam: Camera,
    scene: &H,
    renderer: &R,
    details: SceneDetails,
) -> Seq<Color> {
    Seq::new(
        (cam.image_width * cam.image_height) as nat,
        |k: int| spec_pixel_at(cam, scene, renderer, details, k),
    )
}

/// Relies on rayon's indexed parallel iterator over a range: `map`
/// followed by `collect` yields one result per index, in index order, so
/// position `k` of the output holds the verified per-pixel integrator's
/// result for the pixel at flat index `k`.
#[verifier::external_body]
fn par_render_pixels<H: Hittable + Sync, R: Renderer<H> + Sync>(
    cam: &Camera,
    scene: &H,
    renderer: &R,
    details: &SceneDetails,
    n: usize,
    w: usize,
) -> (r: Vec<Color>)
    requires
        cam.inv(),
        scene.inv(),
        details.inv(),
        w == cam.image_width,
        n == w * cam.image_height,
    ensures
        r@.len() == n,
        forall|k: int|
            0 <= k < n ==> #[trigger] r@[k] == spec_pixel_at(*cam, scene, renderer, *details, k),
{
    (0..n).into_par_iter().map(
        |k| cam.render_pixel(k % w, k / w, scene, renderer, details),
    ).collect()
}

impl Camera {
    /// Render the scene: one independent integration task per pixel,
    /// scheduled across a thread pool, gathered into a row-major grid.
    /// The result is a pure function of the inputs, whatever the
    /// scheduling order.
    pub fn render<H: Hittable + Sync, R: Renderer<H> + Sync>(
        &self,
        scene: &H,
        renderer: &R,
        details: &SceneDetails,
    ) -> (res: Screen)
        requires
            self.inv(),
            scene.inv(),
            details.inv(),
        ensures
            res.width == self.image_width,
            res.height == self.image_height,
            res.inv(),
            res.screen_data@ == spec_render(*self, scene, renderer, *details),
    {
        let w = self.image_width;
        proof {
            assert(w * self.image_height <= 16384 * 16384) by (nonlinear_arith)
                requires
                    1 <= w <= 16384,
                    1 <= self.image_height <= 16384,
            ;
        }
        let n = w * self.image_height;
        let data = par_render_pixels(self, scene, renderer, details, n, w);
        proof {
            assert(data@ =~= spec_render(*self, scene, renderer, *details));
        }
        Screen { screen_data: data, width: w, height: self.image_height }
    }
}

/// Rendering is reproducible: the image is pinned to a spec-level
/// function of the camera, scene, estimator and material table, so two
/// renders of the same scene yield bit-identical pixel grids.
pub proof fn theorem_render_deterministic<H: Hittable, R: Renderer<H>>(
    cam: Camera,
    scene: &H,
    renderer: &R,
    details: SceneDetails,
    out1: Seq<Color>,
    out2: Seq<Color>,
)
    requires
        out1 == spec_render(cam, scene, renderer, details),
        out2 == spec_render(cam, scene, renderer, details),
    ensures
        out1 == out2,
{
}

} // verus!

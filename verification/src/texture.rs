//! Textures: the closed set of color sources a material can sample.

use crate::perlin::Perlin;
use crate::scalar::{clamp_s, scalar_in_range, SCALE};
use crate::vec3::{clamp_i64, fp_mul_clamped, fpm, Color, Vec3, P3};
use vstd::prelude::*;

verus! {

pub struct SolidColor {
    pub albedo: Color,
}

impl SolidColor {
    /// A mid-gray solid color.
    pub fn new() -> (r: Self)
        ensures
            r.albedo == (Vec3 { x: (SCALE / 2) as i64, y: (SCALE / 2) as i64, z: (SCALE / 2) as i64 }),
    {
        Self { albedo: Vec3::splat(SCALE / 2) }
    }
}

pub struct CheckerTexture {
    pub inv_scale: i64,
    pub even: Box<Texture>,
    pub odd: Box<Texture>,
}

pub struct NoiseTexture {
    pub noise: Perlin,
    pub scale: i64,
}

impl NoiseTexture {
    pub fn from(noise: Perlin, scale: i64) -> (r: Self)
        ensures
            r.noise == noise,
            r.scale == scale,
    {
        Self { noise, scale }
    }
}

/// A bitmap held as a row-major pixel grid; loading the pixels from a
/// file is a collaborator's concern.
pub struct ImageTexture {
    pub data: Vec<Color>,
    pub width: usize,
    pub height: usize,
}

impl ImageTexture {
    /// Wrap an already decoded row-major pixel grid.
    pub fn new(data: Vec<Color>, width: usize, height: usize) -> (r: Self)
        ensures
            r.data == data,
            r.width == width,
            r.height == height,
    {
        Self { data, width, height }
    }
}

pub enum Texture {
    Solid(SolidColor),
    Checker(CheckerTexture),
    Noise(NoiseTexture),
    Image(ImageTexture),
}

/// The integer cell a coordinate falls into at the checker's scale.
pub open spec fn spec_checker_cell(inv_scale: int, c: int) -> int {
    fpm(inv_scale, c) / (SCALE as int)
}

/// Clamp a texture coordinate into the unit range.
pub open spec fn spec_clamp01(x: int) -> int {
    if x < 0 {
        0
    } else if x > SCALE {
        SCALE as int
    } else {
        x
    }
}

impl Texture {
    pub open spec fn inv(self) -> bool
        decreases self,
    {
        match self {
            Texture::Solid(s) => s.albedo.wf(),
            Texture::Checker(c) => scalar_in_range(c.inv_scale as int) && c.even.inv()
                && c.odd.inv(),
            Texture::Noise(n) => n.noise.inv() && scalar_in_range(n.scale as int),
            Texture::Image(im) => {
                &&& im.data@.len() == im.width * im.height
                &&& forall|k: int| 0 <= k < im.data@.len() ==> (#[trigger] im.data@[k]).wf()
            },
        }
    }

    /// The color the texture yields at surface coordinates `(u, v)` and
    /// world point `p`.
    pub open spec fn spec_value(self, u: i64, v: i64, p: P3) -> Color
        decreases self,
    {
        match self {
            Texture::Solid(s) => s.albedo,
            Texture::Checker(c) => {
                let cx = spec_checker_cell(c.inv_scale as int, p.x as int);
                let cy = spec_checker_cell(c.inv_scale as int, p.y as int);
                let cz = spec_checker_cell(c.inv_scale as int, p.z as int);
                if (cx + cy + cz) % 2 == 0 {
                    c.even.spec_value(u, v, p)
                } else {
                    c.odd.spec_value(u, v, p)
                }
            },
            Texture::Noise(n) => {
                let q = Vec3::spec_scale(p, n.scale as int);
                let w = n.noise.spec_noise(q);
                Vec3 { x: w, y: w, z: w }
            },
            Texture::Image(im) => {
                if im.width == 0 || im.height == 0 || im.data@.len() != im.width * im.height {
                    Vec3 { x: 0i64, y: SCALE, z: SCALE }
                } else {
                    let cu = spec_clamp01(u as int);
                    let cv = (SCALE as int) - spec_clamp01(v as int);
                    let ii0 = (cu * im.width) / (SCALE as int);
                    let jj0 = (cv * im.height) / (SCALE as int);
                    let ii = if ii0 >= im.width {
                        im.width - 1
                    } else {
                        ii0
                    };
                    let jj = if jj0 >= im.height {
                        im.height - 1
                    } else {
                        jj0
                    };
                    im.data@[ii + jj * im.width]
                }
            },
        }
    }

    pub fn value(&self, u: i64, v: i64, p: &P3) -> (r: Color)
        requires
            self.inv(),
            scalar_in_range(u as int),
            scalar_in_range(v as int),
            p.wf(),
        ensures
            r == self.spec_value(u, v, *p),
            r.wf(),
        decreases *self,
    {
        match self {
            Texture::Solid(s) => s.albedo,
            Texture::Checker(c) => {
                let cx = checker_cell(c.inv_scale, p.x);
                let cy = checker_cell(c.inv_scale, p.y);
                let cz = checker_cell(c.inv_scale, p.z);
                let s = cx + cy + cz;
                let is_even = s % 2 == 0;
                proof {
                    if !is_even {
                        assert((cx as int + cy as int + cz as int) % 2 != 0);
                    }
                }
                if is_even {
                    c.even.value(u, v, p)
                } else {
                    c.odd.value(u, v, p)
                }
            },
            Texture::Noise(n) => {
                let q = p.scale(n.scale);
                let w = n.noise.noise(&q);
                Vec3::new(w, w, w)
            },
            Texture::Image(im) => {
                if im.width == 0 || im.height == 0 || im.data.len() != im.width * im.height {
                    Vec3::new(0, SCALE, SCALE)
                } else {
                    let cu = clamp01(u);
                    let cv = SCALE - clamp01(v);
                    proof {
                        crate::aabb::lemma_mul_abs_bound(
                            cu as int,
                            im.width as int,
                            SCALE as int,
                            0x1_0000_0000_0000_0000,
                        );
                        crate::aabb::lemma_mul_abs_bound(
                            cv as int,
                            im.height as int,
                            SCALE as int,
                            0x1_0000_0000_0000_0000,
                        );
                        vstd::arithmetic::div_mod::lemma_div_pos_is_pos(
                            (cu as int) * (im.width as int),
                            SCALE as int,
                        );
                        vstd::arithmetic::div_mod::lemma_div_pos_is_pos(
                            (cv as int) * (im.height as int),
                            SCALE as int,
                        );
                    }
                    let ii0 = crate::scalar::div_floor_i128(
                        (cu as i128) * (im.width as i128),
                        SCALE as i128,
                    );
                    let jj0 = crate::scalar::div_floor_i128(
                        (cv as i128) * (im.height as i128),
                        SCALE as i128,
                    );
                    let ii = if ii0 >= im.width as i128 {
                        im.width - 1
                    } else {
                        ii0 as usize
                    };
                    let jj = if jj0 >= im.height as i128 {
                        im.height - 1
                    } else {
                        jj0 as usize
                    };
                    proof {
                        crate::scalar::lemma_mul_le_mono(jj as int, im.height as int - 1, im.width as int);
                    }
                    assert(ii + jj * im.width < im.width * im.height) by (nonlinear_arith)
                        requires
                            ii < im.width,
                            jj < im.height,
                            im.width >= 1,
                    ;
                    im.data[ii + jj * im.width]
                }
            },
        }
    }
}

/// The integer cell a coordinate falls into at the checker's scale.
fn checker_cell(inv_scale: i64, c: i64) -> (r: i64)
    requires
        scalar_in_range(inv_scale as int),
        scalar_in_range(c as int),
    ensures
        r as int == spec_checker_cell(inv_scale as int, c as int),
        scalar_in_range(r as int),
{
    let scaled = fp_mul_clamped(inv_scale, c);
    let q = crate::scalar::div_floor_i128(scaled as i128, SCALE as i128);
    proof {
        vstd::arithmetic::div_mod::lemma_div_is_ordered(
            scaled as int,
            crate::scalar::SCALAR_LIMIT as int,
            SCALE as int,
        );
        vstd::arithmetic::div_mod::lemma_div_is_ordered(
            -(crate::scalar::SCALAR_LIMIT as int),
            scaled as int,
            SCALE as int,
        );
    }
    q as i64
}

/// Clamp a texture coordinate into the unit range.
fn clamp01(x: i64) -> (r: i64)
    ensures
        r as int == spec_clamp01(x as int),
        0 <= r <= SCALE,
{
    if x < 0 {
        0
    } else if x > SCALE {
        SCALE
    } else {
        x
    }
}

} // verus!

//! The deterministic random stream and the geometric samplers built on it.
//!
//! The generator is a small chaotic shift-register generator (Bob Jenkins'
//! small fast generator over four 64-bit words).  Every draw is specified
//! exactly as a function of the generator state, which is what makes whole
//! renders reproducible: the same seed gives bit-identical images.

use crate::scalar::{clamp_s, scalar_in_range, SCALAR_LIMIT, SCALE};
use crate::vec3::{clamp_i64, Vec3, V3};
use vstd::prelude::*;

verus! {

/// Natural logarithm of two in fixed point (`round(ln(2) * SCALE)`).
pub const LN2_FP: i64 = 45426;

#[derive(Clone, Copy, PartialEq, Eq, Structural, Debug)]
pub struct Prng {
    pub a: u64,
    pub b: u64,
    pub c: u64,
    pub d: u64,
}

/// Rotate a 64-bit word left by `k` (for `0 < k < 64`).
pub open spec fn spec_rotl(x: u64, k: u64) -> u64 {
    (x << k) | (x >> (64 - k) as u64)
}

pub open spec fn wadd(x: u64, y: u64) -> u64 {
    vstd::wrapping::u64_specs::wrapping_add(x, y)
}

pub open spec fn wsub(x: u64, y: u64) -> u64 {
    vstd::wrapping::u64_specs::wrapping_sub(x, y)
}

/// One step of the generator.
pub open spec fn spec_next_state(s: Prng) -> Prng {
    let e = wsub(s.a, spec_rotl(s.b, 7));
    let a2 = s.b ^ spec_rotl(s.c, 13);
    let b2 = wadd(s.c, spec_rotl(s.d, 37));
    let c2 = wadd(s.d, e);
    let d2 = wadd(e, a2);
    Prng { a: a2, b: b2, c: c2, d: d2 }
}

/// The word produced by one step of the generator.
pub open spec fn spec_output(s: Prng) -> u64 {
    spec_next_state(s).d
}

/// The generator state after `n` steps.
pub open spec fn spec_advance(s: Prng, n: nat) -> Prng
    decreases n,
{
    if n == 0 {
        s
    } else {
        spec_advance(spec_next_state(s), (n - 1) as nat)
    }
}

/// The raw state a seed expands to, before mixing.
pub open spec fn spec_seed_init(seed: u64) -> Prng {
    Prng { a: 0xf1ea5eed, b: seed, c: seed, d: seed }
}

/// The fully mixed state for a seed: twenty mixing steps.
pub open spec fn spec_seeded(seed: u64) -> Prng {
    spec_advance(spec_seed_init(seed), 20)
}

fn rotl(x: u64, k: u64) -> (r: u64)
    requires
        0 < k < 64,
    ensures
        r == spec_rotl(x, k),
{
    (x << k) | (x >> (64 - k))
}

impl Prng {
    /// Draw the next 64-bit word and advance the state.
    pub fn next_u64(&mut self) -> (r: u64)
        ensures
            *final(self) == spec_next_state(*old(self)),
            r == spec_output(*old(self)),
    {
        let e = self.a.wrapping_sub(rotl(self.b, 7));
        self.a = self.b ^ rotl(self.c, 13);
        self.b = self.c.wrapping_add(rotl(self.d, 37));
        self.c = self.d.wrapping_add(e);
        self.d = e.wrapping_add(self.a);
        self.d
    }
}

/// A generator mixed from the fixed default seed.
pub fn make_prng_default() -> (r: Prng)
    ensures
        r == spec_seeded(0),
{
    make_prng_from(0)
}

/// A generator mixed from the given seed.
pub fn make_prng_from(seed: u64) -> (r: Prng)
    ensures
        r == spec_seeded(seed),
{
    let mut g = Prng { a: 0xf1ea5eed, b: seed, c: seed, d: seed };
    let mut i: usize = 0;
    while i < 20
        invariant
            i <= 20,
            g == spec_advance(spec_seed_init(seed), i as nat),
        decreases 20 - i,
    {
        proof {
            lemma_advance_one(spec_seed_init(seed), i as nat);
        }
        let _ = g.next_u64();
        i = i + 1;
    }
    g
}

/// Advancing one more step is stepping the advanced state.
pub proof fn lemma_advance_one(s: Prng, n: nat)
    ensures
        spec_advance(s, n + 1) == spec_next_state(spec_advance(s, n)),
    decreases n,
{
    assert(spec_advance(s, n + 1) == spec_advance(spec_next_state(s), n));
    if n == 0 {
        assert(spec_advance(spec_next_state(s), 0) == spec_next_state(s));
    } else {
        lemma_advance_one(spec_next_state(s), (n - 1) as nat);
        assert(spec_advance(s, n) == spec_advance(spec_next_state(s), (n - 1) as nat));
    }
}

/// A uniform fixed-point value in `[0, 1)`: the top sixteen bits of the
/// next word.
pub open spec fn spec_random_double(s: Prng) -> i64 {
    (spec_output(s) >> 48) as i64
}

/// Uniform fixed-point scalar in `[0, SCALE)`.
pub fn random_double(prng: &mut Prng) -> (r: i64)
    ensures
        *final(prng) == spec_next_state(*old(prng)),
        r == spec_random_double(*old(prng)),
        0 <= r < SCALE,
{
    let w = prng.next_u64();
    let top = w >> 48;
    proof {
        assert(top < 0x10000) by (bit_vector)
            requires
                top == w >> 48,
        ;
    }
    top as i64
}

/// Uniform fixed-point scalar in `[min, max)` (up to rounding).
pub open spec fn spec_random_double_in_range(s: Prng, min: int, max: int) -> int {
    clamp_s(min + crate::vec3::fpm(spec_random_double(s) as int, clamp_s(max - min)))
}

pub fn random_double_in_range(prng: &mut Prng, min: i64, max: i64) -> (r: i64)
    requires
        scalar_in_range(min as int),
        scalar_in_range(max as int),
    ensures
        *final(prng) == spec_next_state(*old(prng)),
        r == spec_random_double_in_range(*old(prng), min as int, max as int),
        scalar_in_range(r as int),
{
    let u = random_double(prng);
    let span = clamp_i64(max - min);
    let step = crate::vec3::fp_mul_clamped(u, span);
    clamp_i64(min + step)
}

} // verus!

verus! {

/// A jitter offset inside a pixel footprint: both coordinates uniform in
/// `[-1/2, 1/2)`.
pub open spec fn spec_sample_square(g: Prng) -> (V3, Prng) {
    let g1 = spec_next_state(g);
    (
        Vec3 {
            x: (spec_random_double(g) - SCALE / 2) as i64,
            y: (spec_random_double(g1) - SCALE / 2) as i64,
            z: 0i64,
        },
        spec_next_state(g1),
    )
}

pub fn sample_square(prng: &mut Prng) -> (r: V3)
    ensures
        (r, *final(prng)) == spec_sample_square(*old(prng)),
        r.wf(),
{
    let x = random_double(prng) - SCALE / 2;
    let y = random_double(prng) - SCALE / 2;
    Vec3::new(x, y, 0)
}

/// Draw a coordinate uniform in `[-1, 1)`.
pub open spec fn spec_sample_coord(g: Prng) -> i64 {
    (2 * spec_random_double(g) - SCALE) as i64
}

fn sample_coord(prng: &mut Prng) -> (r: i64)
    ensures
        *final(prng) == spec_next_state(*old(prng)),
        r == spec_sample_coord(*old(prng)),
        -SCALE <= r < SCALE,
{
    2 * random_double(prng) - SCALE
}

/// Bounded rejection sampling of a point on the unit sphere: draw a point
/// in the cube, keep it when it falls in a well-conditioned shell of the
/// unit ball, and normalize; after `fuel` misses fall back to the x axis.
pub open spec fn spec_sample_unit_vector(g: Prng, fuel: nat) -> (V3, Prng)
    decreases fuel,
{
    if fuel == 0 {
        (Vec3 { x: SCALE, y: 0i64, z: 0i64 }, g)
    } else {
        let x = spec_sample_coord(g);
        let g1 = spec_next_state(g);
        let y = spec_sample_coord(g1);
        let g2 = spec_next_state(g1);
        let z = spec_sample_coord(g2);
        let g3 = spec_next_state(g2);
        let v = Vec3 { x, y, z };
        let ls = Vec3::spec_dot_raw(v, v);
        if 1024 * 1024 <= ls <= (SCALE as int) * (SCALE as int) {
            (Vec3::spec_normalize(v), g3)
        } else {
            spec_sample_unit_vector(g3, (fuel - 1) as nat)
        }
    }
}

fn sample_unit_vector_fuel(prng: &mut Prng, fuel: u32) -> (r: V3)
    ensures
        (r, *final(prng)) == spec_sample_unit_vector(*old(prng), fuel as nat),
        r.wf(),
    decreases fuel,
{
    if fuel == 0 {
        Vec3::new(SCALE, 0, 0)
    } else {
        let x = sample_coord(prng);
        let y = sample_coord(prng);
        let z = sample_coord(prng);
        let v = Vec3::new(x, y, z);
        let ls = v.dot_raw(&v);
        if 1024 * 1024 <= ls && ls <= 0x1_0000_0000i128 {
            v.normalize()
        } else {
            sample_unit_vector_fuel(prng, fuel - 1)
        }
    }
}

/// A point on the unit sphere, drawn from the generator.
pub fn sample_unit_vector(prng: &mut Prng) -> (r: V3)
    ensures
        (r, *final(prng)) == spec_sample_unit_vector(*old(prng), 64),
        r.wf(),
{
    sample_unit_vector_fuel(prng, 64)
}

/// A unit vector on the hemisphere around `normal`.
pub open spec fn spec_sample_on_hemisphere(normal: V3, g: Prng) -> (V3, Prng) {
    let (u, g1) = spec_sample_unit_vector(g, 64);
    if Vec3::spec_dot_raw(normal, u) >= 0 {
        (u, g1)
    } else {
        (Vec3::spec_neg(u), g1)
    }
}

pub fn sample_unit_vector_on_hemisphere(normal: &V3, prng: &mut Prng) -> (r: V3)
    requires
        normal.wf(),
    ensures
        (r, *final(prng)) == spec_sample_on_hemisphere(*normal, *old(prng)),
        r.wf(),
{
    let u = sample_unit_vector(prng);
    let d = normal.dot_raw(&u);
    if d >= 0 {
        u
    } else {
        u.neg()
    }
}

/// A direction with a cosine-weighted density about the positive z axis:
/// a uniform point on the unit sphere pushed one unit along z, then
/// normalized (the classic equivalence for Lambertian scattering).
pub open spec fn spec_sample_cosine_direction(g: Prng) -> (V3, Prng) {
    let (u, g1) = spec_sample_unit_vector(g, 64);
    let v = Vec3::spec_add(u, Vec3 { x: 0i64, y: 0i64, z: SCALE });
    if Vec3::spec_dot_raw(v, v) < 1024 * 1024 {
        (Vec3 { x: 0i64, y: 0i64, z: SCALE }, g1)
    } else {
        (Vec3::spec_normalize(v), g1)
    }
}

pub fn sample_cosine_direction(prng: &mut Prng) -> (r: V3)
    ensures
        (r, *final(prng)) == spec_sample_cosine_direction(*old(prng)),
        r.wf(),
{
    let u = sample_unit_vector(prng);
    let v = u.add(&Vec3::new(0, 0, SCALE));
    let ls = v.dot_raw(&v);
    if ls < 1024 * 1024 {
        Vec3::new(0, 0, SCALE)
    } else {
        v.normalize()
    }
}

/// A scatter direction for a Lambertian surface: a hemisphere sample with
/// the degenerate draw replaced by the surface normal.
pub open spec fn spec_sample_lambertian_scatter(normal: V3, g: Prng) -> (V3, Prng) {
    let (u, g1) = spec_sample_on_hemisphere(normal, g);
    if Vec3::spec_dot_raw(u, u) <= 16 {
        (normal, g1)
    } else {
        (u, g1)
    }
}

pub fn sample_lambertian_scatter(normal: &V3, prng: &mut Prng) -> (r: V3)
    requires
        normal.wf(),
    ensures
        (r, *final(prng)) == spec_sample_lambertian_scatter(*normal, *old(prng)),
        r.wf(),
{
    let u = sample_unit_vector_on_hemisphere(normal, prng);
    let ls = u.dot_raw(&u);
    if ls <= 16 {
        *normal
    } else {
        u
    }
}

/// Bounded rejection sampling of a point on the unit disc in the xy plane;
/// after `fuel` misses fall back to the disc center.
pub open spec fn spec_sample_unit_disc(g: Prng, fuel: nat) -> (V3, Prng)
    decreases fuel,
{
    if fuel == 0 {
        (Vec3 { x: 0i64, y: 0i64, z: 0i64 }, g)
    } else {
        let x = spec_sample_coord(g);
        let g1 = spec_next_state(g);
        let y = spec_sample_coord(g1);
        let g2 = spec_next_state(g1);
        let v = Vec3 { x, y, z: 0i64 };
        if Vec3::spec_dot_raw(v, v) <= (SCALE as int) * (SCALE as int) {
            (v, g2)
        } else {
            spec_sample_unit_disc(g2, (fuel - 1) as nat)
        }
    }
}

fn sample_unit_disc_fuel(prng: &mut Prng, fuel: u32) -> (r: V3)
    ensures
        (r, *final(prng)) == spec_sample_unit_disc(*old(prng), fuel as nat),
        r.wf(),
    decreases fuel,
{
    if fuel == 0 {
        Vec3::zero()
    } else {
        let x = sample_coord(prng);
        let y = sample_coord(prng);
        let v = Vec3::new(x, y, 0);
        let ls = v.dot_raw(&v);
        if ls <= 0x1_0000_0000i128 {
            v
        } else {
            sample_unit_disc_fuel(prng, fuel - 1)
        }
    }
}

/// A point on the unit disc in the xy plane.
pub fn sample_unit_disc(prng: &mut Prng) -> (r: V3)
    ensures
        (r, *final(prng)) == spec_sample_unit_disc(*old(prng), 64),
        r.wf(),
{
    sample_unit_disc_fuel(prng, 64)
}

/// Piecewise-linear fixed-point approximation of `-ln(u)` for a uniform
/// draw `u` in `(0, 1)`; always non-negative.
pub open spec fn spec_neg_ln(u: i64) -> int {
    let v0 = if u < 1 {
        1int
    } else {
        u as int
    };
    let v1 = if v0 < 0x100 {
        v0 * 0x100
    } else {
        v0
    };
    let k1 = if v0 < 0x100 {
        8int
    } else {
        0int
    };
    let v2 = if v1 < 0x1000 {
        v1 * 0x10
    } else {
        v1
    };
    let k2 = if v1 < 0x1000 {
        k1 + 4
    } else {
        k1
    };
    let v3 = if v2 < 0x4000 {
        v2 * 4
    } else {
        v2
    };
    let k3 = if v2 < 0x4000 {
        k2 + 2
    } else {
        k2
    };
    let v4 = if v3 < 0x8000 {
        v3 * 2
    } else {
        v3
    };
    let k4 = if v3 < 0x8000 {
        k3 + 1
    } else {
        k3
    };
    k4 * LN2_FP + (2 * (SCALE - v4) * LN2_FP) / (SCALE as int)
}

/// Draw `-ln(u)` for a fresh uniform `u` (an exponential free-path
/// sample in fixed point).
pub open spec fn spec_random_log_uniform(g: Prng) -> (int, Prng) {
    (spec_neg_ln(spec_random_double(g)), spec_next_state(g))
}

pub fn random_log_uniform(prng: &mut Prng) -> (r: i64)
    ensures
        (r as int, *final(prng)) == spec_random_log_uniform(*old(prng)),
        0 <= r <= 17 * LN2_FP,
{
    let u = random_double(prng);
    let v0: i64 = if u < 1 {
        1
    } else {
        u
    };
    let mut v = v0;
    let mut k: i64 = 0;
    if v < 0x100 {
        v = v * 0x100;
        k = 8;
    }
    if v < 0x1000 {
        v = v * 0x10;
        k = k + 4;
    }
    if v < 0x4000 {
        v = v * 4;
        k = k + 2;
    }
    if v < 0x8000 {
        v = v * 2;
        k = k + 1;
    }
    let frac = (2 * (SCALE - v) * LN2_FP) / SCALE;
    k * LN2_FP + frac
}

/// Gamma correction: the square root of a non-negative linear value, in
/// fixed point; non-positive values map to zero.
pub open spec fn spec_linear_to_gamma(x: int) -> int {
    if x <= 0 {
        0
    } else {
        clamp_s(crate::vec3::spec_isqrt(x * (SCALE as int)))
    }
}

pub fn linear_to_gamma(x: i64) -> (r: i64)
    requires
        scalar_in_range(x as int),
    ensures
        r == spec_linear_to_gamma(x as int),
        0 <= r <= SCALAR_LIMIT,
{
    if x <= 0 {
        0
    } else {
        proof {
            crate::scalar::lemma_mul_bounds(x as int, SCALE as int, SCALAR_LIMIT as int);
        }
        let p: u128 = (x as u128) * (SCALE as u128);
        let s = crate::scalar::isqrt_u128(p);
        proof {
            crate::vec3::lemma_spec_isqrt(p as int);
            crate::vec3::lemma_isqrt_unique(p as int, s as int);
            assert(s as int <= 2 * (SCALAR_LIMIT as int))
                by (nonlinear_arith)
                requires
                    (s as int) * (s as int) <= (SCALAR_LIMIT as int) * (SCALAR_LIMIT as int),
                    s as int >= 0,
                    SCALAR_LIMIT as int >= 3,
            ;
        }
        crate::scalar::clamp_scalar_i128(s as i128)
    }
}

/// Mirror reflection of `v_in` about `normal` (fixed point):
/// `v - 2 (v . n) n`.
pub open spec fn spec_reflect(v_in: V3, normal: V3) -> V3 {
    Vec3::spec_sub(
        v_in,
        Vec3::spec_scale(normal, clamp_s(2 * Vec3::spec_dot(v_in, normal))),
    )
}

pub fn reflect(v_in: &V3, normal: &V3) -> (r: V3)
    requires
        v_in.wf(),
        normal.wf(),
    ensures
        r == spec_reflect(*v_in, *normal),
        r.wf(),
{
    let d = v_in.dot(normal);
    let d2 = clamp_i64(2 * d);
    v_in.sub(&normal.scale(d2))
}

/// Snell refraction of the unit direction `uv` at a surface with unit
/// normal `normal` and relative refraction index `ri` (fixed point).
pub open spec fn spec_refract(uv: V3, normal: V3, ri: int) -> V3 {
    let mdot = clamp_s(-Vec3::spec_dot(uv, normal));
    let cos_theta = if mdot < SCALE {
        mdot
    } else {
        SCALE as int
    };
    let r_out_perp = Vec3::spec_scale(
        Vec3::spec_add(uv, Vec3::spec_scale(normal, cos_theta)),
        ri,
    );
    let len2 = Vec3::spec_dot(r_out_perp, r_out_perp);
    let rem = if (SCALE as int) - len2 >= 0 {
        (SCALE as int) - len2
    } else {
        0int
    };
    let par_len = spec_linear_to_gamma(rem);
    Vec3::spec_sub(r_out_perp, Vec3::spec_scale(normal, par_len))
}

pub fn refract(uv: &V3, normal: &V3, ri: i64) -> (r: V3)
    requires
        uv.wf(),
        normal.wf(),
        scalar_in_range(ri as int),
    ensures
        r == spec_refract(*uv, *normal, ri as int),
        r.wf(),
{
    let d = uv.dot(normal);
    let mdot = clamp_i64(-d);
    let cos_theta = if mdot < SCALE {
        mdot
    } else {
        SCALE
    };
    let r_out_perp = uv.add(&normal.scale(cos_theta)).scale(ri);
    let len2 = r_out_perp.dot(&r_out_perp);
    proof {
        crate::vec3::lemma_dot_raw_self_nonneg(r_out_perp);
        assert(Vec3::spec_dot_raw(r_out_perp, r_out_perp) / (SCALE as int) >= 0) by (nonlinear_arith)
            requires
                Vec3::spec_dot_raw(r_out_perp, r_out_perp) >= 0,
        ;
    }
    let rem = if SCALE - len2 >= 0 {
        SCALE - len2
    } else {
        0
    };
    let par_len = linear_to_gamma(rem);
    r_out_perp.sub(&normal.scale(par_len))
}

} // verus!

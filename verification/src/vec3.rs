//! Three-component fixed-point vectors, used for points, directions and
//! colors.
//!
//! Every operation is total: results are clamped into the representable
//! scalar range, and each executable method is pinned to a spec-level
//! mirror of the same computation, so a whole render is a mathematical
//! function of its inputs.

use crate::scalar::{
    clamp_s, is_isqrt, isqrt_u128, lemma_mul_bounds, scalar_in_range, SCALAR_LIMIT, SCALE,
};
use vstd::prelude::*;

verus! {

/// Fixed-point product of two scalars, clamped.
pub open spec fn fpm(a: int, b: int) -> int {
    clamp_s((a * b) / (SCALE as int))
}

#[derive(Clone, Copy, PartialEq, Eq, Structural, Debug)]
pub struct Vec3 {
    pub x: i64,
    pub y: i64,
    pub z: i64,
}

/// Points and colors share the vector representation.
pub type P3 = Vec3;

pub type V3 = Vec3;

pub type Color = Vec3;

/// Integer square root as a spec-level function.
pub closed spec fn spec_isqrt(x: int) -> int
    decreases x,
{
    if x <= 0 {
        0
    } else {
        let r = spec_isqrt(x - 1);
        if (r + 1) * (r + 1) <= x {
            r + 1
        } else {
            r
        }
    }
}

/// `spec_isqrt` really is the integer square root.
pub proof fn lemma_spec_isqrt(x: int)
    requires
        x >= 0,
    ensures
        is_isqrt(x, spec_isqrt(x)),
    decreases x,
{
    if x == 0 {
        assert(spec_isqrt(0) == 0);
        assert(0 * 0 <= 0) by (nonlinear_arith);
        assert((0 + 1) * (0 + 1) > 0) by (nonlinear_arith);
    } else {
        lemma_spec_isqrt(x - 1);
        let r = spec_isqrt(x - 1);
        if (r + 1) * (r + 1) <= x {
            assert((r + 2) * (r + 2) > x)
                by (nonlinear_arith)
                requires
                    r >= 0,
                    (r + 1) * (r + 1) > x - 1,
            ;
        }
    }
}

/// Any witness of `is_isqrt` equals `spec_isqrt`.
pub proof fn lemma_isqrt_unique(x: int, r: int)
    requires
        x >= 0,
        is_isqrt(x, r),
    ensures
        r == spec_isqrt(x),
{
    lemma_spec_isqrt(x);
    let s = spec_isqrt(x);
    assert(r == s)
        by (nonlinear_arith)
        requires
            r >= 0,
            s >= 0,
            r * r <= x,
            (r + 1) * (r + 1) > x,
            s * s <= x,
            (s + 1) * (s + 1) > x,
    ;
}

impl Vec3 {
    /// All three components are representable scalars.
    pub open spec fn wf(self) -> bool {
        scalar_in_range(self.x as int) && scalar_in_range(self.y as int) && scalar_in_range(
            self.z as int,
        )
    }

    pub open spec fn spec_index(self, axis: int) -> int {
        if axis == 0 {
            self.x as int
        } else if axis == 1 {
            self.y as int
        } else {
            self.z as int
        }
    }

    pub open spec fn spec_add(a: Vec3, b: Vec3) -> Vec3 {
        Vec3 {
            x: clamp_s(a.x + b.x) as i64,
            y: clamp_s(a.y + b.y) as i64,
            z: clamp_s(a.z + b.z) as i64,
        }
    }

    pub open spec fn spec_sub(a: Vec3, b: Vec3) -> Vec3 {
        Vec3 {
            x: clamp_s(a.x - b.x) as i64,
            y: clamp_s(a.y - b.y) as i64,
            z: clamp_s(a.z - b.z) as i64,
        }
    }

    pub open spec fn spec_neg(a: Vec3) -> Vec3 {
        Vec3 { x: (0 - a.x) as i64, y: (0 - a.y) as i64, z: (0 - a.z) as i64 }
    }

    /// Scale by a fixed-point scalar, componentwise.
    pub open spec fn spec_scale(a: Vec3, s: int) -> Vec3 {
        Vec3 {
            x: fpm(a.x as int, s) as i64,
            y: fpm(a.y as int, s) as i64,
            z: fpm(a.z as int, s) as i64,
        }
    }

    /// Componentwise fixed-point product (color attenuation).
    pub open spec fn spec_mul_elem(a: Vec3, b: Vec3) -> Vec3 {
        Vec3 {
            x: fpm(a.x as int, b.x as int) as i64,
            y: fpm(a.y as int, b.y as int) as i64,
            z: fpm(a.z as int, b.z as int) as i64,
        }
    }

    /// Exact (unscaled) dot product; carries scale `SCALE * SCALE`.
    pub open spec fn spec_dot_raw(a: Vec3, b: Vec3) -> int {
        a.x * b.x + a.y * b.y + a.z * b.z
    }

    /// Fixed-point dot product.
    pub open spec fn spec_dot(a: Vec3, b: Vec3) -> int {
        clamp_s(Self::spec_dot_raw(a, b) / (SCALE as int))
    }

    /// Length in fixed-point scale: `isqrt` of the raw self dot product.
    pub open spec fn spec_length(a: Vec3) -> int {
        clamp_s(spec_isqrt(Self::spec_dot_raw(a, a)))
    }

    /// Unit vector in the direction of `a` (fixed-point), or the x axis
    /// for the zero vector.
    pub open spec fn spec_normalize(a: Vec3) -> Vec3 {
        let len = spec_isqrt(Self::spec_dot_raw(a, a));
        if len <= 0 {
            Vec3 { x: SCALE, y: 0i64, z: 0i64 }
        } else {
            Vec3 {
                x: clamp_s((a.x * SCALE) / len) as i64,
                y: clamp_s((a.y * SCALE) / len) as i64,
                z: clamp_s((a.z * SCALE) / len) as i64,
            }
        }
    }

    pub open spec fn spec_cross(a: Vec3, b: Vec3) -> Vec3 {
        Vec3 {
            x: clamp_s((a.y * b.z - a.z * b.y) / (SCALE as int)) as i64,
            y: clamp_s((a.z * b.x - a.x * b.z) / (SCALE as int)) as i64,
            z: clamp_s((a.x * b.y - a.y * b.x) / (SCALE as int)) as i64,
        }
    }

    pub open spec fn spec_min(a: Vec3, b: Vec3) -> Vec3 {
        Vec3 {
            x: if a.x <= b.x {
                a.x
            } else {
                b.x
            },
            y: if a.y <= b.y {
                a.y
            } else {
                b.y
            },
            z: if a.z <= b.z {
                a.z
            } else {
                b.z
            },
        }
    }

    pub open spec fn spec_max(a: Vec3, b: Vec3) -> Vec3 {
        Vec3 {
            x: if a.x >= b.x {
                a.x
            } else {
                b.x
            },
            y: if a.y >= b.y {
                a.y
            } else {
                b.y
            },
            z: if a.z >= b.z {
                a.z
            } else {
                b.z
            },
        }
    }

    pub fn new(x: i64, y: i64, z: i64) -> (r: Self)
        ensures
            r == (Vec3 { x, y, z }),
    {
        Self { x, y, z }
    }

    pub fn zero() -> (r: Self)
        ensures
            r == (Vec3 { x: 0i64, y: 0i64, z: 0i64 }),
    {
        Self { x: 0, y: 0, z: 0 }
    }

    /// The vector of all ones (`SCALE` in every component).
    pub fn one() -> (r: Self)
        ensures
            r == (Vec3 { x: SCALE, y: SCALE, z: SCALE }),
    {
        Self { x: SCALE, y: SCALE, z: SCALE }
    }

    pub fn splat(v: i64) -> (r: Self)
        ensures
            r == (Vec3 { x: v, y: v, z: v }),
    {
        Self { x: v, y: v, z: v }
    }

    /// Component along the given axis (`0`, `1`, or anything else for `z`).
    pub fn get(&self, axis: usize) -> (r: i64)
        ensures
            r == if axis == 0 {
                self.x
            } else if axis == 1 {
                self.y
            } else {
                self.z
            },
    {
        if axis == 0 {
            self.x
        } else if axis == 1 {
            self.y
        } else {
            self.z
        }
    }

    pub fn add(&self, o: &Vec3) -> (r: Vec3)
        requires
            self.wf(),
            o.wf(),
        ensures
            r == Self::spec_add(*self, *o),
            r.wf(),
    {
        Vec3 {
            x: clamp_i64(self.x + o.x),
            y: clamp_i64(self.y + o.y),
            z: clamp_i64(self.z + o.z),
        }
    }

    pub fn sub(&self, o: &Vec3) -> (r: Vec3)
        requires
            self.wf(),
            o.wf(),
        ensures
            r == Self::spec_sub(*self, *o),
            r.wf(),
    {
        Vec3 {
            x: clamp_i64(self.x - o.x),
            y: clamp_i64(self.y - o.y),
            z: clamp_i64(self.z - o.z),
        }
    }

    pub fn neg(&self) -> (r: Vec3)
        requires
            self.wf(),
        ensures
            r == Self::spec_neg(*self),
            r.wf(),
    {
        Vec3 { x: -self.x, y: -self.y, z: -self.z }
    }

    pub fn scale(&self, s: i64) -> (r: Vec3)
        requires
            self.wf(),
            scalar_in_range(s as int),
        ensures
            r == Self::spec_scale(*self, s as int),
            r.wf(),
    {
        Vec3 {
            x: fp_mul_clamped(self.x, s),
            y: fp_mul_clamped(self.y, s),
            z: fp_mul_clamped(self.z, s),
        }
    }

    pub fn mul_elem(&self, o: &Vec3) -> (r: Vec3)
        requires
            self.wf(),
            o.wf(),
        ensures
            r == Self::spec_mul_elem(*self, *o),
            r.wf(),
    {
        Vec3 {
            x: fp_mul_clamped(self.x, o.x),
            y: fp_mul_clamped(self.y, o.y),
            z: fp_mul_clamped(self.z, o.z),
        }
    }

    /// Exact raw dot product in `i128` (scale `SCALE * SCALE`).
    pub fn dot_raw(&self, o: &Vec3) -> (r: i128)
        requires
            self.wf(),
            o.wf(),
        ensures
            r == Self::spec_dot_raw(*self, *o),
    {
        proof {
            lemma_mul_bounds(self.x as int, o.x as int, SCALAR_LIMIT as int);
            lemma_mul_bounds(self.y as int, o.y as int, SCALAR_LIMIT as int);
            lemma_mul_bounds(self.z as int, o.z as int, SCALAR_LIMIT as int);
        }
        (self.x as i128) * (o.x as i128) + (self.y as i128) * (o.y as i128) + (self.z as i128)
            * (o.z as i128)
    }

    /// Fixed-point dot product, clamped into scalar range.
    pub fn dot(&self, o: &Vec3) -> (r: i64)
        requires
            self.wf(),
            o.wf(),
        ensures
            r == Self::spec_dot(*self, *o),
            scalar_in_range(r as int),
    {
        let raw = self.dot_raw(o);
        proof {
            lemma_dot_raw_bounds(*self, *o);
        }
        let q = crate::scalar::div_floor_i128(raw, SCALE as i128);
        crate::scalar::clamp_scalar_i128(q)
    }

    /// Squared length, clamped into scalar range (fixed-point scale).
    pub fn length_squared(&self) -> (r: i64)
        requires
            self.wf(),
        ensures
            r == Self::spec_dot(*self, *self),
            scalar_in_range(r as int),
    {
        self.dot(self)
    }

    /// Length in fixed-point scale.
    pub fn length(&self) -> (r: i64)
        requires
            self.wf(),
        ensures
            r == Self::spec_length(*self),
            scalar_in_range(r as int),
    {
        let raw = self.dot_raw(self);
        proof {
            lemma_dot_raw_self_nonneg(*self);
            lemma_spec_isqrt(raw as int);
        }
        let s = isqrt_u128(raw as u128);
        proof {
            lemma_isqrt_unique(raw as int, s as int);
            assert(s as int <= 2 * (SCALAR_LIMIT as int))
                by (nonlinear_arith)
                requires
                    (s as int) * (s as int) <= 3 * ((SCALAR_LIMIT as int) * (SCALAR_LIMIT as int)),
                    s as int >= 0,
                    SCALAR_LIMIT as int >= 3,
            ;
        }
        crate::scalar::clamp_scalar_i128(s as i128)
    }

    /// Unit vector in the direction of `self` (length `SCALE`), or the
    /// x axis for the zero vector.
    pub fn normalize(&self) -> (r: Vec3)
        requires
            self.wf(),
        ensures
            r == Self::spec_normalize(*self),
            r.wf(),
    {
        let raw = self.dot_raw(self);
        proof {
            lemma_dot_raw_self_nonneg(*self);
            lemma_spec_isqrt(raw as int);
        }
        let s = isqrt_u128(raw as u128);
        proof {
            lemma_isqrt_unique(raw as int, s as int);
        }
        if s == 0 {
            Vec3 { x: SCALE, y: 0, z: 0 }
        } else {
            proof {
                lemma_mul_bounds(self.x as int, SCALE as int, SCALAR_LIMIT as int);
                lemma_mul_bounds(self.y as int, SCALE as int, SCALAR_LIMIT as int);
                lemma_mul_bounds(self.z as int, SCALE as int, SCALAR_LIMIT as int);
                assert(s as int <= 2 * (SCALAR_LIMIT as int))
                    by (nonlinear_arith)
                    requires
                        (s as int) * (s as int) <= 3 * ((SCALAR_LIMIT as int) * (
                        SCALAR_LIMIT as int)),
                        s as int >= 0,
                        SCALAR_LIMIT as int >= 3,
                ;
            }
            let sx = crate::scalar::div_floor_i128((self.x as i128) * (SCALE as i128), s as i128);
            let sy = crate::scalar::div_floor_i128((self.y as i128) * (SCALE as i128), s as i128);
            let sz = crate::scalar::div_floor_i128((self.z as i128) * (SCALE as i128), s as i128);
            Vec3 {
                x: crate::scalar::clamp_scalar_i128(sx),
                y: crate::scalar::clamp_scalar_i128(sy),
                z: crate::scalar::clamp_scalar_i128(sz),
            }
        }
    }

    pub fn cross(&self, o: &Vec3) -> (r: Vec3)
        requires
            self.wf(),
            o.wf(),
        ensures
            r == Self::spec_cross(*self, *o),
            r.wf(),
    {
        proof {
            lemma_mul_bounds(self.y as int, o.z as int, SCALAR_LIMIT as int);
            lemma_mul_bounds(self.z as int, o.y as int, SCALAR_LIMIT as int);
            lemma_mul_bounds(self.z as int, o.x as int, SCALAR_LIMIT as int);
            lemma_mul_bounds(self.x as int, o.z as int, SCALAR_LIMIT as int);
            lemma_mul_bounds(self.x as int, o.y as int, SCALAR_LIMIT as int);
            lemma_mul_bounds(self.y as int, o.x as int, SCALAR_LIMIT as int);
        }
        let cx = (self.y as i128) * (o.z as i128) - (self.z as i128) * (o.y as i128);
        let cy = (self.z as i128) * (o.x as i128) - (self.x as i128) * (o.z as i128);
        let cz = (self.x as i128) * (o.y as i128) - (self.y as i128) * (o.x as i128);
        Vec3 {
            x: crate::scalar::clamp_scalar_i128(crate::scalar::div_floor_i128(cx, SCALE as i128)),
            y: crate::scalar::clamp_scalar_i128(crate::scalar::div_floor_i128(cy, SCALE as i128)),
            z: crate::scalar::clamp_scalar_i128(crate::scalar::div_floor_i128(cz, SCALE as i128)),
        }
    }

    pub fn min(&self, o: &Vec3) -> (r: Vec3)
        ensures
            r == Self::spec_min(*self, *o),
    {
        Vec3 {
            x: if self.x <= o.x {
                self.x
            } else {
                o.x
            },
            y: if self.y <= o.y {
                self.y
            } else {
                o.y
            },
            z: if self.z <= o.z {
                self.z
            } else {
                o.z
            },
        }
    }

    pub fn max(&self, o: &Vec3) -> (r: Vec3)
        ensures
            r == Self::spec_max(*self, *o),
    {
        Vec3 {
            x: if self.x >= o.x {
                self.x
            } else {
                o.x
            },
            y: if self.y >= o.y {
                self.y
            } else {
                o.y
            },
            z: if self.z >= o.z {
                self.z
            } else {
                o.z
            },
        }
    }

    /// Index of the largest component; ties prefer x, then y, then z.
    pub fn max_position(&self) -> (r: usize)
        ensures
            r < 3,
            forall|k: int| 0 <= k < 3 ==> self.spec_index(k) <= self.spec_index(r as int),
            forall|k: int| 0 <= k < r ==> self.spec_index(k) < self.spec_index(r as int),
    {
        if self.x >= self.y && self.x >= self.z {
            0
        } else if self.y >= self.z {
            1
        } else {
            2
        }
    }
}

/// The raw self dot product is a sum of squares, hence non-negative and
/// bounded by three squared scalar limits.
pub proof fn lemma_dot_raw_self_nonneg(a: Vec3)
    requires
        a.wf(),
    ensures
        0 <= Vec3::spec_dot_raw(a, a),
        Vec3::spec_dot_raw(a, a) <= 3 * ((SCALAR_LIMIT as int) * (SCALAR_LIMIT as int)),
{
    assert(0 <= a.x * a.x <= (SCALAR_LIMIT as int) * (SCALAR_LIMIT as int))
        by (nonlinear_arith)
        requires
            -SCALAR_LIMIT <= a.x <= SCALAR_LIMIT,
    ;
    assert(0 <= a.y * a.y <= (SCALAR_LIMIT as int) * (SCALAR_LIMIT as int))
        by (nonlinear_arith)
        requires
            -SCALAR_LIMIT <= a.y <= SCALAR_LIMIT,
    ;
    assert(0 <= a.z * a.z <= (SCALAR_LIMIT as int) * (SCALAR_LIMIT as int))
        by (nonlinear_arith)
        requires
            -SCALAR_LIMIT <= a.z <= SCALAR_LIMIT,
    ;
}

/// The raw dot product of two well-formed vectors is bounded by three
/// squared scalar limits.
pub proof fn lemma_dot_raw_bounds(a: Vec3, b: Vec3)
    requires
        a.wf(),
        b.wf(),
    ensures
        -3 * ((SCALAR_LIMIT as int) * (SCALAR_LIMIT as int)) <= Vec3::spec_dot_raw(a, b) <= 3 * (
        (SCALAR_LIMIT as int) * (SCALAR_LIMIT as int)),
{
    lemma_mul_bounds(a.x as int, b.x as int, SCALAR_LIMIT as int);
    lemma_mul_bounds(a.y as int, b.y as int, SCALAR_LIMIT as int);
    lemma_mul_bounds(a.z as int, b.z as int, SCALAR_LIMIT as int);
}

/// Clamp an in-`i64` sum into the scalar range.
pub fn clamp_i64(x: i64) -> (r: i64)
    ensures
        r == clamp_s(x as int),
{
    if x < -SCALAR_LIMIT {
        -SCALAR_LIMIT
    } else if x > SCALAR_LIMIT {
        SCALAR_LIMIT
    } else {
        x
    }
}

/// Fixed-point scalar product, clamped (total version of `fp_mul`).
pub fn fp_mul_clamped(a: i64, b: i64) -> (r: i64)
    requires
        scalar_in_range(a as int),
        scalar_in_range(b as int),
    ensures
        r == fpm(a as int, b as int),
{
    proof {
        lemma_mul_bounds(a as int, b as int, SCALAR_LIMIT as int);
    }
    let p: i128 = (a as i128) * (b as i128);
    let q = crate::scalar::div_floor_i128(p, SCALE as i128);
    crate::scalar::clamp_scalar_i128(q)
}

} // verus!

verus! {

/// Fixed-point quotient with any non-zero divisor, clamped: the division
/// is carried out on magnitudes so both signs round the same way.
pub open spec fn fpd(a: int, b: int) -> int {
    if b > 0 {
        clamp_s((a * (SCALE as int)) / b)
    } else {
        clamp_s(((0 - a) * (SCALE as int)) / (0 - b))
    }
}

/// Fixed-point scalar quotient, clamped (total version).
pub fn fp_div_clamped(a: i64, b: i64) -> (r: i64)
    requires
        scalar_in_range(a as int),
        scalar_in_range(b as int),
        b != 0,
    ensures
        r == fpd(a as int, b as int),
{
    proof {
        lemma_mul_bounds(a as int, SCALE as int, SCALAR_LIMIT as int);
        lemma_mul_bounds(-(a as int), SCALE as int, SCALAR_LIMIT as int);
    }
    if b > 0 {
        let p: i128 = (a as i128) * (SCALE as i128);
        let q = crate::scalar::div_floor_i128(p, b as i128);
        crate::scalar::clamp_scalar_i128(q)
    } else {
        let p: i128 = (-(a as i128)) * (SCALE as i128);
        let q = crate::scalar::div_floor_i128(p, -(b as i128));
        crate::scalar::clamp_scalar_i128(q)
    }
}

} // verus!

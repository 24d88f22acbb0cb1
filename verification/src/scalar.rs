//! Fixed-point scalars.
//!
//! A real quantity `x` is represented by the `i64` value `x * SCALE`,
//! truncated to an integer.  Every scalar the engine works with is kept
//! inside `[-SCALAR_LIMIT, SCALAR_LIMIT]`, which leaves enough headroom in
//! `i128` for products of two scalars and small sums of such products.

use vstd::arithmetic::div_mod::{lemma_fundamental_div_mod, lemma_fundamental_div_mod_converse};
use vstd::prelude::*;

verus! {

/// Number of fixed-point ticks per world unit.
pub const SCALE: i64 = 65536;

/// Largest magnitude of any scalar handled by the geometry kernel.
pub const SCALAR_LIMIT: i64 = 0x4000_0000_0000;

/// The scalar is representable by the geometry kernel.
pub open spec fn scalar_in_range(x: int) -> bool {
    -SCALAR_LIMIT <= x <= SCALAR_LIMIT
}

/// Clamp an integer into the representable scalar range.
pub open spec fn clamp_s(x: int) -> int {
    if x < -SCALAR_LIMIT {
        -SCALAR_LIMIT as int
    } else if x > SCALAR_LIMIT {
        SCALAR_LIMIT as int
    } else {
        x
    }
}

/// Fixed-point product: `(a * b) / SCALE`, rounded toward negative infinity.
pub open spec fn spec_fp_mul(a: int, b: int) -> int {
    (a * b) / (SCALE as int)
}

/// Fixed-point quotient: `(a * SCALE) / b`, rounded toward negative infinity.
pub open spec fn spec_fp_div(a: int, b: int) -> int {
    (a * SCALE as int) / b
}

/// The product of two values bounded by `m` is bounded by `m * m`.
pub proof fn lemma_mul_bounds(a: int, b: int, m: int)
    by (nonlinear_arith)
    requires
        0 <= m,
        -m <= a <= m,
        -m <= b <= m,
    ensures
        -(m * m) <= a * b <= m * m,
{
}

/// Multiplying both sides of an inequality by a positive value keeps it.
pub proof fn lemma_mul_le_mono(a: int, b: int, c: int)
    by (nonlinear_arith)
    requires
        a <= b,
        c > 0,
    ensures
        a * c <= b * c,
{
}

/// Floor division (round toward negative infinity) of an `i128` by a
/// positive `i128`, matching `int` division in specifications.
///
/// Rust's `/` truncates toward zero; this corrects the quotient.
pub fn div_floor_i128(n: i128, d: i128) -> (q: i128)
    requires
        d > 0,
        n > i128::MIN,
    ensures
        q == n as int / d as int,
{
    let t = n / d;
    if n < 0 && n % d != 0 {
        proof {
            let m = -(n as int);
            let qm = m / (d as int);
            let rm = m % (d as int);
            lemma_fundamental_div_mod(m, d as int);
            assert(n as int == (d as int) * (-qm - 1) + ((d as int) - rm))
                by (nonlinear_arith)
                requires
                    m == (d as int) * qm + rm,
                    n as int == -m,
            ;
            assert((-qm - 1) * (d as int) == (d as int) * (-qm - 1)) by (nonlinear_arith);
            lemma_fundamental_div_mod_converse(n as int, d as int, -qm - 1, (d as int) - rm);
        }
        t - 1
    } else {
        proof {
            if n < 0 {
                let m = -(n as int);
                let qm = m / (d as int);
                lemma_fundamental_div_mod(m, d as int);
                assert(n as int == (d as int) * (-qm) + 0)
                    by (nonlinear_arith)
                    requires
                        m == (d as int) * qm,
                        n as int == -m,
                ;
                assert((-qm) * (d as int) == (d as int) * (-qm)) by (nonlinear_arith);
                lemma_fundamental_div_mod_converse(n as int, d as int, -qm, 0);
            }
        }
        t
    }
}

/// Clamp an `i128` into the representable scalar range.
pub fn clamp_scalar_i128(x: i128) -> (r: i64)
    ensures
        r as int == clamp_s(x as int),
        scalar_in_range(r as int),
{
    if x < -(SCALAR_LIMIT as i128) {
        -SCALAR_LIMIT
    } else if x > SCALAR_LIMIT as i128 {
        SCALAR_LIMIT
    } else {
        x as i64
    }
}

/// Fixed-point product of two in-range scalars, clamped into range.
pub fn fp_mul(a: i64, b: i64) -> (r: i64)
    requires
        scalar_in_range(a as int),
        scalar_in_range(b as int),
    ensures
        scalar_in_range(r as int),
        scalar_in_range(spec_fp_mul(a as int, b as int)) ==> r == spec_fp_mul(
            a as int,
            b as int,
        ),
{
    proof {
        lemma_mul_bounds(a as int, b as int, SCALAR_LIMIT as int);
    }
    let p: i128 = (a as i128) * (b as i128);
    let q = div_floor_i128(p, SCALE as i128);
    clamp_scalar_i128(q)
}

/// Fixed-point quotient of two in-range scalars (positive divisor),
/// clamped into range.
pub fn fp_div(a: i64, b: i64) -> (r: i64)
    requires
        scalar_in_range(a as int),
        0 < b <= SCALAR_LIMIT,
    ensures
        scalar_in_range(r as int),
        scalar_in_range(spec_fp_div(a as int, b as int)) ==> r == spec_fp_div(
            a as int,
            b as int,
        ),
{
    proof {
        lemma_mul_bounds(a as int, SCALE as int, SCALAR_LIMIT as int);
    }
    let p: i128 = (a as i128) * (SCALE as i128);
    let q = div_floor_i128(p, b as i128);
    clamp_scalar_i128(q)
}

} // verus!

verus! {

/// Integer square root: the greatest `r` with `r * r <= x`.
pub open spec fn is_isqrt(x: int, r: int) -> bool {
    &&& r >= 0
    &&& r * r <= x
    &&& (r + 1) * (r + 1) > x
}

/// Integer square root of a `u128` by bisection.
pub fn isqrt_u128(x: u128) -> (r: u128)
    requires
        x < 0x4000_0000_0000_0000_0000_0000_0000_0000,
    ensures
        is_isqrt(x as int, r as int),
{
    let mut lo: u128 = 0;
    let mut hi: u128 = 0x8000_0000_0000_0000;
    proof {
        assert((hi as int) * (hi as int) > x as int);
        assert((lo as int) * (lo as int) <= x as int)
            by (nonlinear_arith)
            requires
                lo == 0,
                x >= 0,
        ;
    }
    while lo + 1 < hi
        invariant
            lo < hi <= 0x8000_0000_0000_0000,
            (lo as int) * (lo as int) <= x as int,
            (hi as int) * (hi as int) > x as int,
        decreases hi - lo,
    {
        let mid = lo + (hi - lo) / 2;
        assert(lo < mid < hi);
        proof {
            lemma_mul_bounds(mid as int, mid as int, 0x8000_0000_0000_0000);
        }
        let sq = mid * mid;
        if sq <= x {
            lo = mid;
        } else {
            hi = mid;
        }
    }
    proof {
        assert(lo + 1 == hi);
    }
    lo
}

} // verus!

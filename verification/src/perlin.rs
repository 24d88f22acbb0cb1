//! A small hash-based noise source: a table of random fixed-point values
//! looked up through three shuffled index tables.

use crate::scalar::{clamp_s, scalar_in_range, SCALE};
use crate::utility::{random_double, Prng};
use crate::vec3::{clamp_i64, P3};
use vstd::prelude::*;

verus! {

pub struct Perlin {
    pub random_floats: Vec<i64>,
    pub perm_x: Vec<u8>,
    pub perm_y: Vec<u8>,
    pub perm_z: Vec<u8>,
}

impl Perlin {
    pub open spec fn inv(self) -> bool {
        &&& self.random_floats@.len() == 256
        &&& self.perm_x@.len() == 256
        &&& self.perm_y@.len() == 256
        &&& self.perm_z@.len() == 256
        &&& forall|k: int|
            0 <= k < 256 ==> 0 <= #[trigger] self.random_floats@[k] < SCALE
    }

    /// A fresh table of random values and three shuffled index tables,
    /// drawn from the given stream.
    pub fn new(prng: &mut Prng) -> (r: Self)
        ensures
            r.inv(),
    {
        let mut random_floats: Vec<i64> = Vec::new();
        let mut i: usize = 0;
        while i < 256
            invariant
                i <= 256,
                random_floats@.len() == i,
                forall|k: int| 0 <= k < i ==> 0 <= #[trigger] random_floats@[k] < SCALE,
            decreases 256 - i,
        {
            let v = random_double(prng);
            random_floats.push(v);
            i = i + 1;
        }
        let perm_x = Self::permute(prng);
        let perm_y = Self::permute(prng);
        let perm_z = Self::permute(prng);
        Self { random_floats, perm_x, perm_y, perm_z }
    }

    /// An index table: the identity table shuffled by random swaps.
    fn permute(prng: &mut Prng) -> (r: Vec<u8>)
        ensures
            r@.len() == 256,
    {
        let mut perm: Vec<u8> = Vec::new();
        let mut i: usize = 0;
        while i < 256
            invariant
                i <= 256,
                perm@.len() == i,
            decreases 256 - i,
        {
            perm.push(i as u8);
            i = i + 1;
        }
        let mut k: usize = 0;
        while k < 256
            invariant
                k <= 256,
                perm@.len() == 256,
            decreases 256 - k,
        {
            let w = prng.next_u64();
            let target = (w % 256) as usize;
            let a = perm[k];
            let b = perm[target];
            perm.set(k, b);
            perm.set(target, a);
            k = k + 1;
        }
        perm
    }

    /// The table index a coordinate maps to: the integer part of four
    /// times the coordinate, taken modulo the table size.
    pub open spec fn spec_index_of(c: i64) -> int {
        let scaled = clamp_s(4 * c);
        let mag = if scaled < 0 {
            -scaled
        } else {
            scaled
        };
        (mag / (SCALE as int)) % 256
    }

    /// The noise value at a point: the random table entry selected by the
    /// three shuffled index tables.
    pub open spec fn spec_noise(self, p: P3) -> i64 {
        let ix = Self::spec_index_of(p.x);
        let iy = Self::spec_index_of(p.y);
        let iz = Self::spec_index_of(p.z);
        let loc = (self.perm_x@[ix] ^ self.perm_y@[iy]) ^ self.perm_z@[iz];
        self.random_floats@[loc as int]
    }

    pub fn noise(&self, p: &P3) -> (r: i64)
        requires
            self.inv(),
            p.wf(),
        ensures
            r == self.spec_noise(*p),
            0 <= r < SCALE,
    {
        let ix = index_of(p.x);
        let iy = index_of(p.y);
        let iz = index_of(p.z);
        let loc = (self.perm_x[ix] ^ self.perm_y[iy]) ^ self.perm_z[iz];
        self.random_floats[loc as usize]
    }
}

/// The table index a coordinate maps to.
fn index_of(c: i64) -> (r: usize)
    requires
        scalar_in_range(c as int),
    ensures
        r as int == Perlin::spec_index_of(c),
        r < 256,
{
    let scaled = clamp_i64(4 * c);
    let mag = if scaled < 0 {
        -scaled
    } else {
        scaled
    };
    let q = mag / SCALE;
    (q % 256) as usize
}

} // verus!

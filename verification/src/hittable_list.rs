//! A flat list of primitives: the brute-force linear-scan traversal the
//! hierarchy is measured against, and the aggregate used while building
//! scenes.

use crate::aabb::AABB;
use crate::hit_record::HitRecord;
use crate::hittable::{
    prim_bounding_box, prim_inv, prim_spec_hit, prim_spec_pdf_value, prim_spec_random,
    primitive_bounding_box, primitive_hit, Hittable, Primitive,
};
use crate::interval::Interval;
use crate::ray::Ray;
use crate::scalar::{clamp_s, scalar_in_range, SCALE};
use crate::utility::{spec_next_state, spec_output, Prng};
use crate::vec3::{clamp_i64, fp_mul_clamped, fpm, Vec3, P3, V3};
use vstd::prelude::*;

verus! {

/// All primitives of a sequence are well-formed.
pub open spec fn all_prims_inv(objs: Seq<Primitive>) -> bool {
    forall|k: int| 0 <= k < objs.len() ==> prim_inv(#[trigger] objs[k])
}

/// The closest hit over a sequence of primitives, scanned in order with
/// the random stream threaded through; on a tie the later object wins,
/// as the scan replaces the running best on an equal parameter.
pub open spec fn list_spec_hit(objs: Seq<Primitive>, r: Ray, i: Interval, g: Prng) -> (
    Option<HitRecord>,
    Prng,
)
    decreases objs.len(),
{
    if objs.len() == 0 {
        (None, g)
    } else {
        let (best, g1) = list_spec_hit(objs.drop_last(), r, i, g);
        let (cur, g2) = prim_spec_hit(objs.last(), r, i, g1);
        match (best, cur) {
            (None, c) => (c, g2),
            (Some(b), None) => (Some(b), g2),
            (Some(b), Some(c)) => if b.t >= c.t {
                (Some(c), g2)
            } else {
                (Some(b), g2)
            },
        }
    }
}

/// The union of the bounding boxes of a sequence of primitives.
pub open spec fn list_spec_bbox(objs: Seq<Primitive>) -> AABB
    decreases objs.len(),
{
    if objs.len() == 0 {
        AABB::spec_empty()
    } else {
        AABB::spec_union(list_spec_bbox(objs.drop_last()), prim_bounding_box(objs.last()))
    }
}

/// The averaged importance-sampling density over a sequence of primitives.
pub open spec fn list_spec_pdf(objs: Seq<Primitive>, weight: i64, origin: P3, dir: V3, time: i64, g: Prng) -> (
    int,
    Prng,
)
    decreases objs.len(),
{
    if objs.len() == 0 {
        (0, g)
    } else {
        let (acc, g1) = list_spec_pdf(objs.drop_last(), weight, origin, dir, time, g);
        let (p, g2) = prim_spec_pdf_value(objs.last(), origin, dir, time, g1);
        (clamp_s(acc + fpm(weight as int, p)), g2)
    }
}

pub struct HittableList {
    pub objects: Vec<Primitive>,
}

impl HittableList {
    pub fn new() -> (r: Self)
        ensures
            r.objects@.len() == 0,
            r.inv(),
    {
        Self { objects: Vec::new() }
    }

    pub fn add(&mut self, obj: Primitive)
        requires
            prim_inv(obj),
        ensures
            final(self).objects@ == old(self).objects@.push(obj),
            old(self).inv() ==> final(self).inv(),
    {
        self.objects.push(obj);
    }
}

impl Default for HittableList {
    fn default() -> (r: Self)
        ensures
            r.objects@.len() == 0,
    {
        Self::new()
    }
}

impl Hittable for HittableList {
    open spec fn inv(&self) -> bool {
        all_prims_inv(self.objects@)
    }

    open spec fn spec_hit(&self, r: Ray, i: Interval, g: Prng) -> (Option<HitRecord>, Prng) {
        list_spec_hit(self.objects@, r, i, g)
    }

    open spec fn spec_bounding_box(&self) -> AABB {
        list_spec_bbox(self.objects@)
    }

    open spec fn spec_pdf_value(&self, origin: P3, dir: V3, time: i64, g: Prng) -> (int, Prng) {
        if self.objects@.len() == 0 {
            (0, g)
        } else {
            list_spec_pdf(
                self.objects@,
                (SCALE as int / self.objects@.len() as int) as i64,
                origin,
                dir,
                time,
                g,
            )
        }
    }

    open spec fn spec_random(&self, origin: P3, time: i64, g: Prng) -> (V3, Prng) {
        if self.objects@.len() == 0 {
            (Vec3 { x: SCALE, y: 0i64, z: 0i64 }, g)
        } else {
            let pick = spec_output(g) as int % self.objects@.len() as int;
            prim_spec_random(self.objects@[pick], origin, time, spec_next_state(g))
        }
    }

    /// Scan every object and keep the closest hit.
    fn hit(&self, r: &Ray, i: &Interval, prng: &mut Prng) -> (res: Option<HitRecord>) {
        let mut best: Option<HitRecord> = None;
        let n = self.objects.len();
        let mut k: usize = 0;
        while k < n
            invariant
                n == self.objects@.len(),
                k <= n,
                all_prims_inv(self.objects@),
                r.wf(),
                i.wf(),
                (best, *prng) == list_spec_hit(self.objects@.take(k as int), *r, *i, *old(prng)),
                best matches Some(h) ==> h.wf(),
            decreases n - k,
        {
            proof {
                assert(self.objects@.take(k + 1).drop_last() =~= self.objects@.take(k as int));
                assert(self.objects@.take(k + 1).last() == self.objects@[k as int]);
            }
            let cur = primitive_hit(&self.objects[k], r, i, prng);
            best = match (best, cur) {
                (None, c) => c,
                (Some(b), None) => Some(b),
                (Some(b), Some(c)) => if b.t >= c.t {
                    Some(c)
                } else {
                    Some(b)
                },
            };
            k = k + 1;
        }
        proof {
            assert(self.objects@.take(n as int) =~= self.objects@);
        }
        best
    }

    /// The union of all objects' boxes.
    fn bounding_box(&self) -> (res: AABB) {
        let mut acc = AABB::empty();
        let n = self.objects.len();
        let mut k: usize = 0;
        while k < n
            invariant
                n == self.objects@.len(),
                k <= n,
                all_prims_inv(self.objects@),
                acc == list_spec_bbox(self.objects@.take(k as int)),
                acc.wf(),
            decreases n - k,
        {
            proof {
                assert(self.objects@.take(k + 1).drop_last() =~= self.objects@.take(k as int));
                assert(self.objects@.take(k + 1).last() == self.objects@[k as int]);
            }
            let b = primitive_bounding_box(&self.objects[k]);
            acc = AABB::from_aabbs(&acc, &b);
            k = k + 1;
        }
        proof {
            assert(self.objects@.take(n as int) =~= self.objects@);
        }
        acc
    }

    /// The average of the objects' densities, each weighted by the
    /// reciprocal of the object count.
    fn pdf_value(&self, origin: &P3, dir: &V3, time: i64, prng: &mut Prng) -> (res: i64) {
        let n = self.objects.len();
        if n == 0 {
            return 0;
        }
        let weight: i64 = if n > 65536 {
            proof {
                vstd::arithmetic::div_mod::lemma_basic_div(SCALE as int, n as int);
            }
            0
        } else {
            SCALE / (n as i64)
        };
        assert(weight as int == SCALE as int / n as int);
        let mut sum: i64 = 0;
        let mut k: usize = 0;
        while k < n
            invariant
                n == self.objects@.len(),
                n > 0,
                k <= n,
                all_prims_inv(self.objects@),
                origin.wf(),
                dir.wf(),
                scalar_in_range(time as int),
                scalar_in_range(weight as int),
                scalar_in_range(sum as int),
                (sum as int, *prng) == list_spec_pdf(
                    self.objects@.take(k as int),
                    weight,
                    *origin,
                    *dir,
                    time,
                    *old(prng),
                ),
            decreases n - k,
        {
            proof {
                assert(self.objects@.take(k + 1).drop_last() =~= self.objects@.take(k as int));
                assert(self.objects@.take(k + 1).last() == self.objects@[k as int]);
            }
            let p = self.objects[k].pdf_value(origin, dir, time, prng);
            sum = clamp_i64(sum + fp_mul_clamped(weight, p));
            k = k + 1;
        }
        proof {
            assert(self.objects@.take(n as int) =~= self.objects@);
        }
        sum
    }

    /// Draw a direction toward an object picked uniformly from the list.
    fn random(&self, origin: &P3, time: i64, prng: &mut Prng) -> (res: V3) {
        let n = self.objects.len();
        if n == 0 {
            return Vec3::new(SCALE, 0, 0);
        }
        let w = prng.next_u64();
        let pick = (w % (n as u64)) as usize;
        self.objects[pick].random(origin, time, prng)
    }
}

} // verus!

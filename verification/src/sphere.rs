//! Spheres, possibly moving linearly between two centers over the unit
//! shutter-time interval.
//!
//! The quadratic solver works in fixed point.  A root is accepted only if
//! it lies strictly inside the query interval and the exact ray point at
//! that parameter lies inside the sphere's bounding box; the second check
//! is what lets hierarchy traversal prove it never prunes a real hit.

use crate::aabb::{point_at_in_box, point_at_within, AABB};
use crate::hit_record::HitRecord;
use crate::interval::Interval;
use crate::onb::ONB;
use crate::ray::Ray;
use crate::scalar::{clamp_s, scalar_in_range, SCALE};
use crate::utility::{spec_linear_to_gamma, Prng};
use crate::vec3::{clamp_i64, fpd, fpm, Vec3, P3, V3};
use vstd::prelude::*;

verus! {

/// Fixed point two pi (`round(2 * pi * SCALE)`).
pub const TWO_PI_FP: i64 = 411775;

#[derive(Clone, Copy, PartialEq, Eq, Structural, Debug)]
pub struct Sphere {
    /// Center as a function of time: origin at time zero, moving along the
    /// direction (a still sphere has a zero direction).
    pub center: Ray,
    pub radius: i64,
    pub mat: usize,
    pub aabb: AABB,
}

/// Clamp a unit-vector coordinate into a `[0, 1]` texture coordinate.
pub open spec fn spec_uv_coord(x: int) -> int {
    let c = (x + SCALE) / 2;
    if c < 0 {
        0
    } else if c > SCALE {
        SCALE as int
    } else {
        c
    }
}

fn uv_coord(x: i64) -> (r: i64)
    requires
        scalar_in_range(x as int),
    ensures
        r == spec_uv_coord(x as int),
{
    let c = (x + SCALE) / 2;
    proof {
        if x + SCALE >= 0 {
        } else {
            assert(c as int == (x + SCALE) / 2 || c as int == (x + SCALE) / 2 + 1);
        }
    }
    if c < 0 {
        0
    } else if c > SCALE {
        SCALE
    } else {
        proof {
            if x + SCALE < 0 {
                assert((x + SCALE) / 2 < 0);
            }
        }
        c
    }
}

impl Sphere {
    pub open spec fn inv(self) -> bool {
        &&& self.center.wf()
        &&& scalar_in_range(self.radius as int)
        &&& self.aabb.wf()
    }

    /// The algebraic surface parametrization used for texturing: the unit
    /// normal's x and y coordinates mapped from `[-1, 1]` to `[0, 1]`.
    pub open spec fn spec_sphere_uv(outward: V3) -> (int, int) {
        (spec_uv_coord(outward.x as int), spec_uv_coord(outward.y as int))
    }

    /// The record produced for an accepted root.
    pub open spec fn spec_candidate_rec(self, r: Ray, root: int) -> HitRecord {
        let cc = self.center.spec_at(r.time as int);
        let p = r.spec_at(root);
        let outward = Vec3::spec_normalize(Vec3::spec_sub(p, cc));
        let rec = HitRecord {
            p,
            normal: outward,
            t: root as i64,
            u: spec_uv_coord(outward.x as int) as i64,
            v: spec_uv_coord(outward.y as int) as i64,
            material: self.mat,
            is_front_face: true,
        };
        rec.spec_with_face_normal(r, outward)
    }

    /// A root is accepted when it lies strictly inside the query interval
    /// and its exact ray point lies inside the sphere's box.
    pub open spec fn spec_accept(self, r: Ray, i: Interval, root: int) -> bool {
        i.spec_surrounds(root) && point_at_within(r, root, self.aabb)
    }

    /// The two fixed-point roots of the sphere quadratic, smaller first,
    /// or `None` when the ray is degenerate or misses.
    pub open spec fn spec_roots(self, r: Ray) -> Option<(int, int)> {
        let cc = self.center.spec_at(r.time as int);
        let oc = Vec3::spec_sub(cc, r.origin);
        let a = Vec3::spec_dot(r.direction, r.direction);
        let h = Vec3::spec_dot(r.direction, oc);
        let c = clamp_s(Vec3::spec_dot(oc, oc) - fpm(self.radius as int, self.radius as int));
        let disc = clamp_s(fpm(h, h) - fpm(a, c));
        if a <= 0 || disc <= 0 {
            None
        } else {
            let sq = spec_linear_to_gamma(disc);
            Some((fpd(clamp_s(h - sq), a), fpd(clamp_s(h + sq), a)))
        }
    }

    /// The full intersection behaviour: the first acceptable root's record.
    pub open spec fn spec_hit(self, r: Ray, i: Interval) -> Option<HitRecord> {
        match self.spec_roots(r) {
            None => None,
            Some((r1, r2)) => if self.spec_accept(r, i, r1) {
                Some(self.spec_candidate_rec(r, r1))
            } else if self.spec_accept(r, i, r2) {
                Some(self.spec_candidate_rec(r, r2))
            } else {
                None
            },
        }
    }

    /// The unit sphere at the origin.
    pub fn new() -> (s: Self)
        ensures
            s.inv(),
            s.radius == SCALE,
            s.center.origin == (Vec3 { x: 0i64, y: 0i64, z: 0i64 }),
            s.mat == 0,
    {
        let one = Vec3::one();
        Self {
            center: Ray::from(&Vec3::zero(), &Vec3::zero(), 0),
            radius: SCALE,
            mat: 0,
            aabb: AABB::from_points(one.neg(), one),
        }
    }

    /// The padded box around the sphere's position at one instant.
    pub open spec fn spec_box_at(center: Ray, radius: i64, t: int) -> AABB {
        let c = center.spec_at(t);
        let rv = Vec3 { x: radius, y: radius, z: radius };
        AABB::spec_pad(
            AABB {
                min: Vec3::spec_min(Vec3::spec_sub(c, rv), Vec3::spec_add(c, rv)),
                max: Vec3::spec_max(Vec3::spec_sub(c, rv), Vec3::spec_add(c, rv)),
            },
        )
    }

    /// A sphere whose center moves along `center.direction` over the unit
    /// time interval; its box is the union of the boxes at both extremes.
    #[verifier::rlimit(60)]
    pub fn from(center: Ray, radius: i64, mat: usize) -> (s: Self)
        requires
            center.wf(),
            0 <= radius <= SCALE * 16384,
        ensures
            s.inv(),
            s.center == center,
            s.radius == radius,
            s.mat == mat,
            s.aabb == AABB::spec_union(
                Self::spec_box_at(center, radius, 0),
                Self::spec_box_at(center, radius, SCALE as int),
            ),
    {
        let r_vec = Vec3::splat(radius);
        let c0 = center.at(0);
        let c1 = center.at(SCALE);
        let aabb1 = AABB::from_points(c0.sub(&r_vec), c0.add(&r_vec));
        let aabb2 = AABB::from_points(c1.sub(&r_vec), c1.add(&r_vec));
        Self { center, radius, mat, aabb: AABB::from_aabbs(&aabb1, &aabb2) }
    }

    /// A sphere that does not move.
    pub fn static_sphere(center: P3, radius: i64, mat: usize) -> (s: Self)
        requires
            center.wf(),
            0 <= radius <= SCALE * 16384,
        ensures
            s.inv(),
            s.center == (Ray { origin: center, direction: Vec3 { x: 0i64, y: 0i64, z: 0i64 }, time: 0i64 }),
            s.radius == radius,
            s.mat == mat,
            s.aabb == Self::spec_box_at(
                Ray { origin: center, direction: Vec3 { x: 0i64, y: 0i64, z: 0i64 }, time: 0i64 },
                radius,
                0,
            ),
    {
        let r_vec = Vec3::splat(radius);
        Self {
            center: Ray { origin: center, direction: Vec3::zero(), time: 0 },
            radius,
            mat,
            aabb: AABB::from_points(center.sub(&r_vec), center.add(&r_vec)),
        }
    }

    /// Intersect the ray with the sphere over the open interval `i`.
    pub fn hit(&self, r: &Ray, i: &Interval) -> (res: Option<HitRecord>)
        requires
            self.inv(),
            r.wf(),
            i.wf(),
        ensures
            res == self.spec_hit(*r, *i),
            res matches Some(h) ==> h.wf(),
    {
        let cc = self.center.at(r.time);
        let oc = cc.sub(&r.origin);
        let a = r.direction.length_squared();
        let h = r.direction.dot(&oc);
        let c = clamp_i64(oc.dot(&oc) - crate::vec3::fp_mul_clamped(self.radius, self.radius));
        let disc = clamp_i64(crate::vec3::fp_mul_clamped(h, h) - crate::vec3::fp_mul_clamped(a, c));
        if a <= 0 || disc <= 0 {
            return None;
        }
        let sq = crate::utility::linear_to_gamma(disc);
        let r1 = crate::vec3::fp_div_clamped(clamp_i64(h - sq), a);
        let r2 = crate::vec3::fp_div_clamped(clamp_i64(h + sq), a);
        let root = if i.surrounds(r1) && point_at_in_box(r, r1, &self.aabb) {
            r1
        } else if i.surrounds(r2) && point_at_in_box(r, r2, &self.aabb) {
            r2
        } else {
            return None;
        };
        let p = r.at(root);
        let outward = p.sub(&cc).normalize();
        let mut rec = HitRecord::from(
            p,
            outward,
            root,
            uv_coord(outward.x),
            uv_coord(outward.y),
            self.mat,
            true,
        );
        rec.set_face_normal(r, &outward);
        Some(rec)
    }

    pub fn bounding_box(&self) -> (r: AABB)
        ensures
            r == self.aabb,
    {
        self.aabb
    }
}

} // verus!

verus! {

/// Bounded rejection sampling of a direction inside the z-up cone with
/// aperture cosine `cos_max`; after `fuel` misses, the cone axis.
pub open spec fn spec_random_to_sphere(cos_max: int, g: Prng, fuel: nat) -> (V3, Prng)
    decreases fuel,
{
    if fuel == 0 {
        (Vec3 { x: 0i64, y: 0i64, z: SCALE }, g)
    } else {
        let (u, g1) = crate::utility::spec_sample_unit_vector(g, 64);
        if u.z >= cos_max {
            (u, g1)
        } else {
            spec_random_to_sphere(cos_max, g1, (fuel - 1) as nat)
        }
    }
}

fn random_to_sphere_fuel(cos_max: i64, prng: &mut Prng, fuel: u32) -> (r: V3)
    ensures
        (r, *final(prng)) == spec_random_to_sphere(cos_max as int, *old(prng), fuel as nat),
        r.wf(),
    decreases fuel,
{
    if fuel == 0 {
        Vec3::new(0, 0, SCALE)
    } else {
        let u = crate::utility::sample_unit_vector(prng);
        if u.z >= cos_max {
            u
        } else {
            random_to_sphere_fuel(cos_max, prng, fuel - 1)
        }
    }
}

impl Sphere {
    /// The cosine of the cone aperture under which the sphere is seen from
    /// squared distance `dist2`.
    pub open spec fn spec_cos_max(self, dist2: int) -> int {
        let x = clamp_s(
            (SCALE as int) - fpd(fpm(self.radius as int, self.radius as int), dist2),
        );
        spec_linear_to_gamma(
            if x < 0 {
                0
            } else {
                x
            },
        )
    }

    /// The density under which `random` draws the given direction: the
    /// reciprocal solid angle of the cone subtending the sphere, when the
    /// ray toward it hits; zero otherwise.  Only meaningful for still
    /// spheres.
    pub open spec fn spec_pdf_value(self, origin: P3, dir: V3, time: i64) -> int {
        let probe = Ray { origin, direction: dir, time };
        let gate = Interval { min: 1i64, max: crate::scalar::SCALAR_LIMIT };
        if self.spec_hit(probe, gate) is None {
            0
        } else {
            let co = Vec3::spec_sub(self.center.spec_at(time as int), origin);
            let dist2 = Vec3::spec_dot(co, co);
            if dist2 <= 0 {
                0
            } else {
                let sa = fpm(TWO_PI_FP as int, clamp_s((SCALE as int) - self.spec_cos_max(dist2)));
                if sa <= 0 {
                    0
                } else {
                    fpd(SCALE as int, sa)
                }
            }
        }
    }

    /// Reciprocal solid angle of the cone toward the sphere, for rays that
    /// hit it; zero for rays that miss.
    pub fn pdf_value(&self, origin: &P3, dir: &V3, time: i64) -> (r: i64)
        requires
            self.inv(),
            origin.wf(),
            dir.wf(),
            scalar_in_range(time as int),
        ensures
            r == self.spec_pdf_value(*origin, *dir, time),
            scalar_in_range(r as int),
    {
        let probe = Ray::from(origin, dir, time);
        let gate = Interval::casting_default();
        if self.hit(&probe, &gate).is_none() {
            return 0;
        }
        let co = self.center.at(time).sub(origin);
        let dist2 = co.dot(&co);
        if dist2 <= 0 {
            return 0;
        }
        let rr = crate::vec3::fp_mul_clamped(self.radius, self.radius);
        let x = clamp_i64(SCALE - crate::vec3::fp_div_clamped(rr, dist2));
        let cos_max = crate::utility::linear_to_gamma(
            if x < 0 {
                0
            } else {
                x
            },
        );
        let sa = crate::vec3::fp_mul_clamped(TWO_PI_FP, clamp_i64(SCALE - cos_max));
        if sa <= 0 {
            0
        } else {
            crate::vec3::fp_div_clamped(SCALE, sa)
        }
    }

    /// The direction toward a uniformly drawn point of the cone subtending
    /// the sphere from `origin`.
    pub open spec fn spec_random(self, origin: P3, time: i64, g: Prng) -> (V3, Prng) {
        let dir = Vec3::spec_sub(self.center.spec_at(time as int), origin);
        let dist2 = Vec3::spec_dot(dir, dir);
        if dist2 <= 0 {
            (Vec3 { x: SCALE, y: 0i64, z: 0i64 }, g)
        } else {
            let uvw = ONB::spec_from(dir);
            let (c, g1) = spec_random_to_sphere(self.spec_cos_max(dist2), g, 64);
            (uvw.spec_transform(c), g1)
        }
    }

    pub fn random(&self, origin: &P3, time: i64, prng: &mut Prng) -> (r: V3)
        requires
            self.inv(),
            origin.wf(),
            scalar_in_range(time as int),
        ensures
            (r, *final(prng)) == self.spec_random(*origin, time, *old(prng)),
            r.wf(),
    {
        let dir = self.center.at(time).sub(origin);
        let dist2 = dir.dot(&dir);
        if dist2 <= 0 {
            return Vec3::new(SCALE, 0, 0);
        }
        let uvw = ONB::from(&dir);
        let rr = crate::vec3::fp_mul_clamped(self.radius, self.radius);
        let x = clamp_i64(SCALE - crate::vec3::fp_div_clamped(rr, dist2));
        let cos_max = crate::utility::linear_to_gamma(
            if x < 0 {
                0
            } else {
                x
            },
        );
        let c = random_to_sphere_fuel(cos_max, prng, 64);
        uvw.transform(&c)
    }
}

} // verus!

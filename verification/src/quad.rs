//! Planar parallelogram primitives ("quads"): a corner point and two edge
//! vectors.

use crate::aabb::{point_at_in_box, point_at_within, AABB};
use crate::hit_record::HitRecord;
use crate::interval::Interval;
use crate::ray::Ray;
use crate::scalar::{scalar_in_range, SCALE};
use crate::utility::Prng;
use crate::vec3::{fpd, Vec3, P3, V3};
use vstd::prelude::*;

verus! {

#[derive(Clone, Copy, PartialEq, Eq, Structural, Debug)]
pub struct Quad {
    pub q: P3,
    pub u: V3,
    pub v: V3,
    /// `n / (n . n)`, used to read off planar coordinates of a hit point.
    pub w: V3,
    pub mat: usize,
    pub aabb: AABB,
    pub normal: V3,
    /// Plane offset: `normal . q`.
    pub d: i64,
    pub area: i64,
}

impl Quad {
    pub open spec fn inv(self) -> bool {
        &&& self.q.wf()
        &&& self.u.wf()
        &&& self.v.wf()
        &&& self.w.wf()
        &&& self.aabb.wf()
        &&& self.normal.wf()
        &&& scalar_in_range(self.d as int)
        &&& scalar_in_range(self.area as int)
    }

    /// The box spanned by the quad's two diagonals, padded.
    pub open spec fn spec_bounding_box_of(q: P3, u: V3, v: V3) -> AABB {
        let far = Vec3::spec_add(Vec3::spec_add(q, u), v);
        let qu = Vec3::spec_add(q, u);
        let qv = Vec3::spec_add(q, v);
        AABB::spec_union(
            AABB::spec_pad(AABB { min: Vec3::spec_min(q, far), max: Vec3::spec_max(q, far) }),
            AABB::spec_pad(AABB { min: Vec3::spec_min(qu, qv), max: Vec3::spec_max(qu, qv) }),
        )
    }

    /// The geometry derived from a corner and two edges.
    pub open spec fn spec_new(q: P3, u: V3, v: V3, mat: usize) -> Quad {
        let n = Vec3::spec_cross(u, v);
        let area = Vec3::spec_length(n);
        let normal = Vec3::spec_normalize(n);
        let d = Vec3::spec_dot(normal, q);
        let nn = Vec3::spec_dot(n, n);
        let w = if nn > 0 {
            Vec3 {
                x: fpd(n.x as int, nn) as i64,
                y: fpd(n.y as int, nn) as i64,
                z: fpd(n.z as int, nn) as i64,
            }
        } else {
            Vec3 { x: 0i64, y: 0i64, z: 0i64 }
        };
        Quad {
            q,
            u,
            v,
            w,
            mat,
            aabb: Self::spec_bounding_box_of(q, u, v),
            normal,
            d: d as i64,
            area: area as i64,
        }
    }

    /// The record for a hit at parameter `t` with planar coordinates
    /// `(alpha, beta)`.
    pub open spec fn spec_candidate_rec(self, r: Ray, t: int, alpha: int, beta: int) -> HitRecord {
        let rec = HitRecord {
            p: r.spec_at(t),
            normal: self.normal,
            t: t as i64,
            u: alpha as i64,
            v: beta as i64,
            material: self.mat,
            is_front_face: true,
        };
        rec.spec_with_face_normal(r, self.normal)
    }

    /// The full intersection behaviour: plane intersection, planar
    /// containment, the open query interval, and the exact point-in-box
    /// acceptance check.
    pub open spec fn spec_hit(self, r: Ray, i: Interval) -> Option<HitRecord> {
        let denom = Vec3::spec_dot(self.normal, r.direction);
        if denom == 0 {
            None
        } else {
            let t = fpd(clamp_sub(self.d as int, Vec3::spec_dot(self.normal, r.origin)), denom);
            if !i.spec_surrounds(t) || !point_at_within(r, t, self.aabb) {
                None
            } else {
                let p = r.spec_at(t);
                let phv = Vec3::spec_sub(p, self.q);
                let alpha = Vec3::spec_dot(self.w, Vec3::spec_cross(phv, self.v));
                let beta = Vec3::spec_dot(self.w, Vec3::spec_cross(self.u, phv));
                if 0 <= alpha <= SCALE && 0 <= beta <= SCALE {
                    Some(self.spec_candidate_rec(r, t, alpha, beta))
                } else {
                    None
                }
            }
        }
    }

    pub fn new(q: P3, u: V3, v: V3, mat: usize) -> (s: Self)
        requires
            q.wf(),
            u.wf(),
            v.wf(),
        ensures
            s == Self::spec_new(q, u, v, mat),
            s.inv(),
    {
        let n = u.cross(&v);
        let area = n.length();
        let normal = n.normalize();
        let d = normal.dot(&q);
        let nn = n.dot(&n);
        let w = if nn > 0 {
            Vec3::new(
                crate::vec3::fp_div_clamped(n.x, nn),
                crate::vec3::fp_div_clamped(n.y, nn),
                crate::vec3::fp_div_clamped(n.z, nn),
            )
        } else {
            Vec3::zero()
        };
        let aabb = Self::set_bounding_box(q, u, v);
        Self { q, u, v, w, mat, aabb, normal, d, area }
    }

    /// The padded box spanned by the quad's two diagonals.
    pub fn set_bounding_box(q: P3, u: V3, v: V3) -> (r: AABB)
        requires
            q.wf(),
            u.wf(),
            v.wf(),
        ensures
            r == Self::spec_bounding_box_of(q, u, v),
            r.wf(),
    {
        let far = q.add(&u).add(&v);
        let diag_1 = AABB::from_points(q, far);
        let diag_2 = AABB::from_points(q.add(&u), q.add(&v));
        AABB::from_aabbs(&diag_1, &diag_2)
    }

    /// Intersect the ray with the quad over the open interval `i`.
    pub fn hit(&self, r: &Ray, i: &Interval) -> (res: Option<HitRecord>)
        requires
            self.inv(),
            r.wf(),
            i.wf(),
        ensures
            res == self.spec_hit(*r, *i),
            res matches Some(h) ==> h.wf(),
    {
        let denom = self.normal.dot(&r.direction);
        if denom == 0 {
            return None;
        }
        let num = crate::vec3::clamp_i64(self.d - self.normal.dot(&r.origin));
        let t = crate::vec3::fp_div_clamped(num, denom);
        if !(i.surrounds(t) && point_at_in_box(r, t, &self.aabb)) {
            return None;
        }
        let p = r.at(t);
        let phv = p.sub(&self.q);
        let alpha = self.w.dot(&phv.cross(&self.v));
        let beta = self.w.dot(&self.u.cross(&phv));
        if 0 <= alpha && alpha <= SCALE && 0 <= beta && beta <= SCALE {
            let mut rec = HitRecord::from(p, self.normal, t, alpha, beta, self.mat, true);
            rec.set_face_normal(r, &self.normal);
            Some(rec)
        } else {
            None
        }
    }

    pub fn bounding_box(&self) -> (r: AABB)
        ensures
            r == self.aabb,
    {
        self.aabb
    }
}

/// Difference of two scalars, clamped into range.
pub open spec fn clamp_sub(a: int, b: int) -> int {
    crate::scalar::clamp_s(a - b)
}

} // verus!

verus! {

impl Quad {
    /// The density under which `random` draws the given direction:
    /// squared-distance over projected area, for rays that strike the quad.
    pub open spec fn spec_pdf_value(self, origin: P3, dir: V3, time: i64) -> int {
        let probe = Ray { origin, direction: dir, time };
        let gate = Interval { min: 1i64, max: crate::scalar::SCALAR_LIMIT };
        match self.spec_hit(probe, gate) {
            None => 0,
            Some(rec) => {
                let dist2 = crate::vec3::fpm(
                    crate::vec3::fpm(rec.t as int, rec.t as int),
                    Vec3::spec_dot(dir, dir),
                );
                let len = Vec3::spec_length(dir);
                if len <= 0 {
                    0
                } else {
                    let cosine = fpd(Vec3::spec_dot(rec.normal, dir), len);
                    let denom = crate::vec3::fpm(cosine, self.area as int);
                    if denom == 0 {
                        0
                    } else {
                        fpd(dist2, denom)
                    }
                }
            },
        }
    }

    pub fn pdf_value(&self, origin: &P3, dir: &V3, time: i64) -> (r: i64)
        requires
            self.inv(),
            origin.wf(),
            dir.wf(),
            scalar_in_range(time as int),
        ensures
            r == self.spec_pdf_value(*origin, *dir, time),
            scalar_in_range(r as int),
    {
        let probe = Ray::from(origin, dir, time);
        let gate = Interval::casting_default();
        match self.hit(&probe, &gate) {
            None => 0,
            Some(rec) => {
                let tt = crate::vec3::fp_mul_clamped(rec.t, rec.t);
                let dist2 = crate::vec3::fp_mul_clamped(tt, dir.dot(dir));
                let len = dir.length();
                if len <= 0 {
                    0
                } else {
                    let cosine = crate::vec3::fp_div_clamped(rec.normal.dot(dir), len);
                    let denom = crate::vec3::fp_mul_clamped(cosine, self.area);
                    if denom == 0 {
                        0
                    } else {
                        crate::vec3::fp_div_clamped(dist2, denom)
                    }
                }
            },
        }
    }

    /// The direction from `origin` toward a uniformly drawn point of the
    /// quad.
    pub open spec fn spec_random(self, origin: P3, g: Prng) -> (V3, Prng) {
        let r1 = crate::utility::spec_random_double(g);
        let g1 = crate::utility::spec_next_state(g);
        let r2 = crate::utility::spec_random_double(g1);
        let g2 = crate::utility::spec_next_state(g1);
        let p = Vec3::spec_add(
            self.q,
            Vec3::spec_add(Vec3::spec_scale(self.u, r1 as int), Vec3::spec_scale(self.v, r2 as int)),
        );
        (Vec3::spec_sub(p, origin), g2)
    }

    pub fn random(&self, origin: &P3, prng: &mut Prng) -> (r: V3)
        requires
            self.inv(),
            origin.wf(),
        ensures
            (r, *final(prng)) == self.spec_random(*origin, *old(prng)),
            r.wf(),
    {
        let r1 = crate::utility::random_double(prng);
        let r2 = crate::utility::random_double(prng);
        let p = self.q.add(&self.u.scale(r1).add(&self.v.scale(r2)));
        p.sub(origin)
    }
}

} // verus!

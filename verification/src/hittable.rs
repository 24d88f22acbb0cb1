//! The intersectable capability: the polymorphism point shared by scene
//! primitives, the flat list, and the bounding-volume hierarchy.
//!
//! `Primitive` is the closed set of scene objects; wrappers nest freely
//! through boxed children.  Every accepted hit carries an exact
//! point-in-bounding-box certificate (checked with integer arithmetic), so
//! hierarchy traversal can prove that box pruning never discards a hit.

use crate::aabb::{point_at_in_box, point_at_within, AABB};
use crate::hit_record::HitRecord;
use crate::interval::Interval;
use crate::medium::ConstantMedium;
use crate::ray::Ray;
use crate::rotate::{rot_to_object, rot_to_world, spec_rot_to_object, spec_rot_to_world, RotateY};
use crate::scalar::{clamp_s, scalar_in_range, SCALAR_LIMIT};
use crate::sphere::Sphere;
use crate::translate::Translate;
use crate::utility::{spec_random_log_uniform, Prng};
use crate::vec3::{clamp_i64, fp_div_clamped, fp_mul_clamped, fpd, fpm, Vec3, P3, V3};
use vstd::prelude::*;

verus! {

/// A scene object: a primitive shape or a geometric wrapper around one.
pub enum Primitive {
    Sphere(Sphere),
    Quad(crate::quad::Quad),
    Translate(Translate),
    RotateY(RotateY),
    ConstantMedium(ConstantMedium),
}

/// Well-formedness of a primitive and everything nested in it.
pub open spec fn prim_inv(p: Primitive) -> bool
    decreases p,
{
    match p {
        Primitive::Sphere(s) => s.inv(),
        Primitive::Quad(q) => q.inv(),
        Primitive::Translate(t) => t.offset.wf() && t.aabb.wf() && prim_inv(*t.object),
        Primitive::RotateY(rot) => scalar_in_range(rot.sin_theta as int) && scalar_in_range(
            rot.cos_theta as int,
        ) && rot.aabb.wf() && prim_inv(*rot.object),
        Primitive::ConstantMedium(m) => scalar_in_range(m.inv_density as int) && m.inv_density >= 0
            && prim_inv(*m.boundary),
    }
}

/// The bounding box of a primitive.
pub open spec fn prim_bounding_box(p: Primitive) -> AABB
    decreases p,
{
    match p {
        Primitive::Sphere(s) => s.aabb,
        Primitive::Quad(q) => q.aabb,
        Primitive::Translate(t) => t.aabb,
        Primitive::RotateY(rot) => rot.aabb,
        Primitive::ConstantMedium(m) => prim_bounding_box(*m.boundary),
    }
}

/// The primitive draws nothing from the random stream when intersected:
/// it contains no participating medium.
pub open spec fn prim_deterministic(p: Primitive) -> bool
    decreases p,
{
    match p {
        Primitive::Sphere(_) => true,
        Primitive::Quad(_) => true,
        Primitive::Translate(t) => prim_deterministic(*t.object),
        Primitive::RotateY(rot) => prim_deterministic(*rot.object),
        Primitive::ConstantMedium(_) => false,
    }
}

/// The full intersection behaviour of a primitive: the returned record (if
/// any) and the state of the random stream afterwards.
pub open spec fn prim_spec_hit(p: Primitive, r: Ray, i: Interval, g: Prng) -> (Option<HitRecord>, Prng)
    decreases p,
{
    match p {
        Primitive::Sphere(s) => (s.spec_hit(r, i), g),
        Primitive::Quad(q) => (q.spec_hit(r, i), g),
        Primitive::Translate(t) => {
            let moved = Ray {
                origin: Vec3::spec_sub(r.origin, t.offset),
                direction: r.direction,
                time: r.time,
            };
            let (res, g1) = prim_spec_hit(*t.object, moved, i, g);
            match res {
                None => (None, g1),
                Some(rec) => if point_at_within(r, rec.t as int, t.aabb) {
                    (Some(HitRecord { p: Vec3::spec_add(rec.p, t.offset), ..rec }), g1)
                } else {
                    (None, g1)
                },
            }
        },
        Primitive::RotateY(rot) => {
            let moved = Ray {
                origin: spec_rot_to_object(rot.sin_theta as int, rot.cos_theta as int, r.origin),
                direction: spec_rot_to_object(
                    rot.sin_theta as int,
                    rot.cos_theta as int,
                    r.direction,
                ),
                time: r.time,
            };
            let (res, g1) = prim_spec_hit(*rot.object, moved, i, g);
            match res {
                None => (None, g1),
                Some(rec) => if point_at_within(r, rec.t as int, rot.aabb) {
                    (
                        Some(
                            HitRecord {
                                p: spec_rot_to_world(
                                    rot.sin_theta as int,
                                    rot.cos_theta as int,
                                    rec.p,
                                ),
                                normal: spec_rot_to_world(
                                    rot.sin_theta as int,
                                    rot.cos_theta as int,
                                    rec.normal,
                                ),
                                ..rec
                            },
                        ),
                        g1,
                    )
                } else {
                    (None, g1)
                },
            }
        },
        Primitive::ConstantMedium(m) => {
            let universe = Interval { min: (-SCALAR_LIMIT) as i64, max: SCALAR_LIMIT };
            let (h1, g1) = prim_spec_hit(*m.boundary, r, universe, g);
            match h1 {
                None => (None, g1),
                Some(rec1) => {
                    let second = Interval { min: clamp_s(rec1.t + 1) as i64, max: SCALAR_LIMIT };
                    let (h2, g2) = prim_spec_hit(*m.boundary, r, second, g1);
                    match h2 {
                        None => (None, g2),
                        Some(rec2) => {
                            let t1 = if rec1.t < i.min {
                                i.min
                            } else {
                                rec1.t
                            };
                            let t2 = if rec2.t > i.max {
                                i.max
                            } else {
                                rec2.t
                            };
                            if t1 >= t2 {
                                (None, g2)
                            } else {
                                let t1b = if t1 < 0 {
                                    0i64
                                } else {
                                    t1
                                };
                                let rlen = Vec3::spec_length(r.direction);
                                let dist_inside = fpm(clamp_s(t2 - t1b), rlen);
                                let (nl, g3) = spec_random_log_uniform(g2);
                                let hit_dist = fpm(m.inv_density as int, nl);
                                if rlen <= 0 || hit_dist > dist_inside {
                                    (None, g3)
                                } else {
                                    let t = clamp_s(t1b + fpd(hit_dist, rlen)) as i64;
                                    (
                                        Some(
                                            HitRecord {
                                                p: r.spec_at(t as int),
                                                normal: Vec3 {
                                                    x: crate::scalar::SCALE,
                                                    y: 0i64,
                                                    z: 0i64,
                                                },
                                                t,
                                                u: 0i64,
                                                v: 0i64,
                                                material: m.phase_function,
                                                is_front_face: true,
                                            },
                                        ),
                                        g3,
                                    )
                                }
                            }
                        },
                    }
                },
            }
        },
    }
}

/// Intersect a primitive, mirroring `prim_spec_hit` exactly.
pub fn primitive_hit(p: &Primitive, r: &Ray, i: &Interval, prng: &mut Prng) -> (res: Option<
    HitRecord,
>)
    requires
        prim_inv(*p),
        r.wf(),
        i.wf(),
    ensures
        (res, *final(prng)) == prim_spec_hit(*p, *r, *i, *old(prng)),
        res matches Some(h) ==> h.wf(),
    decreases *p,
{
    match p {
        Primitive::Sphere(s) => s.hit(r, i),
        Primitive::Quad(q) => q.hit(r, i),
        Primitive::Translate(t) => {
            let moved = Ray::from(&r.origin.sub(&t.offset), &r.direction, r.time);
            match primitive_hit(&t.object, &moved, i, prng) {
                None => None,
                Some(rec) => if point_at_in_box(r, rec.t, &t.aabb) {
                    let mut rec2 = rec;
                    rec2.p = rec.p.add(&t.offset);
                    Some(rec2)
                } else {
                    None
                },
            }
        },
        Primitive::RotateY(rot) => {
            let moved = Ray::from(
                &rot_to_object(rot.sin_theta, rot.cos_theta, &r.origin),
                &rot_to_object(rot.sin_theta, rot.cos_theta, &r.direction),
                r.time,
            );
            match primitive_hit(&rot.object, &moved, i, prng) {
                None => None,
                Some(rec) => if point_at_in_box(r, rec.t, &rot.aabb) {
                    let mut rec2 = rec;
                    rec2.p = rot_to_world(rot.sin_theta, rot.cos_theta, &rec.p);
                    rec2.normal = rot_to_world(rot.sin_theta, rot.cos_theta, &rec.normal);
                    Some(rec2)
                } else {
                    None
                },
            }
        },
        Primitive::ConstantMedium(m) => {
            let universe = Interval::from(-SCALAR_LIMIT, SCALAR_LIMIT);
            let rec1 = match primitive_hit(&m.boundary, r, &universe, prng) {
                None => {
                    return None;
                },
                Some(rec1) => rec1,
            };
            let second = Interval::from(clamp_i64(rec1.t + 1), SCALAR_LIMIT);
            let rec2 = match primitive_hit(&m.boundary, r, &second, prng) {
                None => {
                    return None;
                },
                Some(rec2) => rec2,
            };
            let t1 = if rec1.t < i.min {
                i.min
            } else {
                rec1.t
            };
            let t2 = if rec2.t > i.max {
                i.max
            } else {
                rec2.t
            };
            if t1 >= t2 {
                return None;
            }
            let t1b = if t1 < 0 {
                0
            } else {
                t1
            };
            let rlen = r.direction.length();
            let dist_inside = fp_mul_clamped(clamp_i64(t2 - t1b), rlen);
            let nl = crate::utility::random_log_uniform(prng);
            let hit_dist = fp_mul_clamped(m.inv_density, nl);
            if rlen <= 0 || hit_dist > dist_inside {
                return None;
            }
            let t = clamp_i64(t1b + fp_div_clamped(hit_dist, rlen));
            Some(
                HitRecord::from(
                    r.at(t),
                    Vec3::new(crate::scalar::SCALE, 0, 0),
                    t,
                    0,
                    0,
                    m.phase_function,
                    true,
                ),
            )
        },
    }
}

/// The bounding box of a primitive.
pub fn primitive_bounding_box(p: &Primitive) -> (res: AABB)
    requires
        prim_inv(*p),
    ensures
        res == prim_bounding_box(*p),
        res.wf(),
    decreases *p,
{
    match p {
        Primitive::Sphere(s) => s.bounding_box(),
        Primitive::Quad(q) => q.bounding_box(),
        Primitive::Translate(t) => t.aabb,
        Primitive::RotateY(rot) => rot.aabb,
        Primitive::ConstantMedium(m) => primitive_bounding_box(&m.boundary),
    }
}

/// The importance-sampling density of a primitive toward a direction;
/// shapes that are not sampled as lights report zero.
pub open spec fn prim_spec_pdf_value(p: Primitive, origin: P3, dir: V3, time: i64, g: Prng) -> (
    int,
    Prng,
) {
    match p {
        Primitive::Sphere(s) => (s.spec_pdf_value(origin, dir, time), g),
        Primitive::Quad(q) => (q.spec_pdf_value(origin, dir, time), g),
        _ => (0, g),
    }
}

/// A direction drawn toward the primitive, for importance sampling;
/// shapes that are not sampled as lights return the x axis.
pub open spec fn prim_spec_random(p: Primitive, origin: P3, time: i64, g: Prng) -> (V3, Prng) {
    match p {
        Primitive::Sphere(s) => s.spec_random(origin, time, g),
        Primitive::Quad(q) => q.spec_random(origin, g),
        _ => (Vec3 { x: crate::scalar::SCALE, y: 0i64, z: 0i64 }, g),
    }
}

/// The capability shared by everything a ray can be traced against.
pub trait Hittable {
    spec fn inv(&self) -> bool;

    spec fn spec_hit(&self, r: Ray, i: Interval, g: Prng) -> (Option<HitRecord>, Prng);

    spec fn spec_bounding_box(&self) -> AABB;

    spec fn spec_pdf_value(&self, origin: P3, dir: V3, time: i64, g: Prng) -> (int, Prng);

    spec fn spec_random(&self, origin: P3, time: i64, g: Prng) -> (V3, Prng);

    /// Intersect a ray with this object over the open interval `i`.
    fn hit(&self, r: &Ray, i: &Interval, prng: &mut Prng) -> (res: Option<HitRecord>)
        requires
            self.inv(),
            r.wf(),
            i.wf(),
        ensures
            (res, *final(prng)) == self.spec_hit(*r, *i, *old(prng)),
            res matches Some(h) ==> h.wf(),
    ;

    /// A box enclosing the object over its whole time range.
    fn bounding_box(&self) -> (res: AABB)
        requires
            self.inv(),
        ensures
            res == self.spec_bounding_box(),
            res.wf(),
    ;

    /// Density with which `random` draws the given direction.
    fn pdf_value(&self, origin: &P3, dir: &V3, time: i64, prng: &mut Prng) -> (res: i64)
        requires
            self.inv(),
            origin.wf(),
            dir.wf(),
            scalar_in_range(time as int),
        ensures
            (res as int, *final(prng)) == self.spec_pdf_value(*origin, *dir, time, *old(prng)),
            scalar_in_range(res as int),
    ;

    /// A direction toward this object, for importance sampling.
    fn random(&self, origin: &P3, time: i64, prng: &mut Prng) -> (res: V3)
        requires
            self.inv(),
            origin.wf(),
            scalar_in_range(time as int),
        ensures
            (res, *final(prng)) == self.spec_random(*origin, time, *old(prng)),
            res.wf(),
    ;
}

impl Hittable for Primitive {
    open spec fn inv(&self) -> bool {
        prim_inv(*self)
    }

    open spec fn spec_hit(&self, r: Ray, i: Interval, g: Prng) -> (Option<HitRecord>, Prng) {
        prim_spec_hit(*self, r, i, g)
    }

    open spec fn spec_bounding_box(&self) -> AABB {
        prim_bounding_box(*self)
    }

    open spec fn spec_pdf_value(&self, origin: P3, dir: V3, time: i64, g: Prng) -> (int, Prng) {
        prim_spec_pdf_value(*self, origin, dir, time, g)
    }

    open spec fn spec_random(&self, origin: P3, time: i64, g: Prng) -> (V3, Prng) {
        prim_spec_random(*self, origin, time, g)
    }

    fn hit(&self, r: &Ray, i: &Interval, prng: &mut Prng) -> (res: Option<HitRecord>) {
        primitive_hit(self, r, i, prng)
    }

    fn bounding_box(&self) -> (res: AABB) {
        primitive_bounding_box(self)
    }

    fn pdf_value(&self, origin: &P3, dir: &V3, time: i64, prng: &mut Prng) -> (res: i64) {
        match self {
            Primitive::Sphere(s) => s.pdf_value(origin, dir, time),
            Primitive::Quad(q) => q.pdf_value(origin, dir, time),
            _ => 0,
        }
    }

    fn random(&self, origin: &P3, time: i64, prng: &mut Prng) -> (res: V3) {
        match self {
            Primitive::Sphere(s) => s.random(origin, time, prng),
            Primitive::Quad(q) => q.random(origin, prng),
            _ => Vec3::new(crate::scalar::SCALE, 0, 0),
        }
    }
}

} // verus!

verus! {

/// A well-formed primitive has a well-formed bounding box.
pub proof fn lemma_prim_box_wf(p: Primitive)
    requires
        prim_inv(p),
    ensures
        prim_bounding_box(p).wf(),
    decreases p,
{
    match p {
        Primitive::ConstantMedium(m) => {
            lemma_prim_box_wf(*m.boundary);
        },
        _ => {},
    }
}

} // verus!

verus! {

/// A deterministic primitive passes the random stream through untouched,
/// and its result does not depend on the stream.
pub proof fn lemma_prim_hit_det(p: Primitive, r: Ray, i: Interval, g1: Prng, g2: Prng)
    requires
        prim_deterministic(p),
    ensures
        prim_spec_hit(p, r, i, g1).1 == g1,
        prim_spec_hit(p, r, i, g1).0 == prim_spec_hit(p, r, i, g2).0,
    decreases p,
{
    match p {
        Primitive::Translate(t) => {
            let moved = Ray {
                origin: Vec3::spec_sub(r.origin, t.offset),
                direction: r.direction,
                time: r.time,
            };
            lemma_prim_hit_det(*t.object, moved, i, g1, g2);
        },
        Primitive::RotateY(rot) => {
            let moved = Ray {
                origin: spec_rot_to_object(rot.sin_theta as int, rot.cos_theta as int, r.origin),
                direction: spec_rot_to_object(
                    rot.sin_theta as int,
                    rot.cos_theta as int,
                    r.direction,
                ),
                time: r.time,
            };
            lemma_prim_hit_det(*rot.object, moved, i, g1, g2);
        },
        _ => {},
    }
}

/// An accepted hit of a deterministic primitive lies strictly inside the
/// query interval, and the exact ray point at its parameter lies inside
/// the primitive's bounding box.
pub proof fn lemma_prim_hit_in_box(p: Primitive, r: Ray, i: Interval, g: Prng)
    requires
        prim_deterministic(p),
    ensures
        prim_spec_hit(p, r, i, g).0 matches Some(h) ==> i.spec_surrounds(h.t as int)
            && point_at_within(r, h.t as int, prim_bounding_box(p)),
    decreases p,
{
    match p {
        Primitive::Translate(t) => {
            let moved = Ray {
                origin: Vec3::spec_sub(r.origin, t.offset),
                direction: r.direction,
                time: r.time,
            };
            lemma_prim_hit_in_box(*t.object, moved, i, g);
        },
        Primitive::RotateY(rot) => {
            let moved = Ray {
                origin: spec_rot_to_object(rot.sin_theta as int, rot.cos_theta as int, r.origin),
                direction: spec_rot_to_object(
                    rot.sin_theta as int,
                    rot.cos_theta as int,
                    r.direction,
                ),
                time: r.time,
            };
            lemma_prim_hit_in_box(*rot.object, moved, i, g);
        },
        _ => {},
    }
}

/// The two roots of the sphere quadratic come out in order.
proof fn lemma_sphere_roots_ordered(s: Sphere, r: Ray)
    ensures
        s.spec_roots(r) matches Some((r1, r2)) ==> r1 <= r2,
{
    let cc = s.center.spec_at(r.time as int);
    let oc = Vec3::spec_sub(cc, r.origin);
    let a = Vec3::spec_dot(r.direction, r.direction);
    let h = Vec3::spec_dot(r.direction, oc);
    let c = clamp_s(Vec3::spec_dot(oc, oc) - fpm(s.radius as int, s.radius as int));
    let disc = clamp_s(fpm(h, h) - fpm(a, c));
    if a > 0 && disc > 0 {
        let sq = crate::utility::spec_linear_to_gamma(disc);
        assert(sq >= 0) by {
            if disc > 0 {
                crate::vec3::lemma_spec_isqrt(disc * (crate::scalar::SCALE as int));
            }
        }
        let n1 = clamp_s(h - sq);
        let n2 = clamp_s(h + sq);
        assert(n1 <= n2);
        vstd::arithmetic::div_mod::lemma_div_is_ordered(
            n1 * (crate::scalar::SCALE as int),
            n2 * (crate::scalar::SCALE as int),
            a,
        );
    }
}

/// Tightening the upper end of the query interval keeps exactly the hits
/// whose parameter lies strictly below the new bound.
#[verifier::rlimit(100)]
pub proof fn lemma_prim_hit_restrict(p: Primitive, r: Ray, i: Interval, m: i64, g: Prng)
    requires
        prim_deterministic(p),
        m <= i.max,
    ensures
        ({
            let full = prim_spec_hit(p, r, i, g).0;
            let cut = prim_spec_hit(p, r, Interval { min: i.min, max: m }, g).0;
            match full {
                Some(h) => if h.t < m {
                    cut == Some(h)
                } else {
                    cut is None
                },
                None => cut is None,
            }
        }),
    decreases p,
{
    let i2 = Interval { min: i.min, max: m };
    match p {
        Primitive::Sphere(s) => {
            lemma_sphere_roots_ordered(s, r);
        },
        Primitive::Quad(_) => {},
        Primitive::Translate(t) => {
            let moved = Ray {
                origin: Vec3::spec_sub(r.origin, t.offset),
                direction: r.direction,
                time: r.time,
            };
            lemma_prim_hit_det(*t.object, moved, i, g, g);
            lemma_prim_hit_restrict(*t.object, moved, i, m, g);
        },
        Primitive::RotateY(rot) => {
            let moved = Ray {
                origin: spec_rot_to_object(rot.sin_theta as int, rot.cos_theta as int, r.origin),
                direction: spec_rot_to_object(
                    rot.sin_theta as int,
                    rot.cos_theta as int,
                    r.direction,
                ),
                time: r.time,
            };
            lemma_prim_hit_det(*rot.object, moved, i, g, g);
            lemma_prim_hit_restrict(*rot.object, moved, i, m, g);
        },
        Primitive::ConstantMedium(_) => {},
    }
}

} // verus!

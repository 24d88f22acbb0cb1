//! Axis-aligned bounding boxes and the ray–slab intersection test.
//!
//! The slab test is specified geometrically: it returns true exactly when
//! some rational ray parameter inside the query interval places the exact
//! ray point inside the box on all three axes.  Proving that equivalence
//! is what makes hierarchy pruning sound.

use crate::interval::Interval;
use crate::ray::Ray;
use crate::scalar::{lemma_mul_bounds, scalar_in_range, SCALAR_LIMIT, SCALE};
use crate::vec3::Vec3;
use vstd::prelude::*;

verus! {

/// Boxes are padded so that no axis is thinner than this many ticks.
pub const PAD_EPS: i64 = 2;

#[derive(Clone, Copy, PartialEq, Eq, Structural, Debug)]
pub struct AABB {
    pub min: Vec3,
    pub max: Vec3,
}

impl AABB {
    pub open spec fn wf(self) -> bool {
        self.min.wf() && self.max.wf()
    }

    /// The empty box: the identity element of union.
    pub open spec fn spec_empty() -> AABB {
        AABB {
            min: Vec3 { x: SCALAR_LIMIT, y: SCALAR_LIMIT, z: SCALAR_LIMIT },
            max: Vec3 {
                x: (-SCALAR_LIMIT) as i64,
                y: (-SCALAR_LIMIT) as i64,
                z: (-SCALAR_LIMIT) as i64,
            },
        }
    }

    /// Smallest box containing both arguments.
    pub open spec fn spec_union(a: AABB, b: AABB) -> AABB {
        AABB { min: Vec3::spec_min(a.min, b.min), max: Vec3::spec_max(a.max, b.max) }
    }

    /// Pad thin axes so no box used in hierarchy construction is flat.
    pub open spec fn spec_pad(b: AABB) -> AABB {
        AABB {
            min: Vec3 {
                x: if b.max.x - b.min.x < PAD_EPS {
                    crate::scalar::clamp_s(b.min.x - 1) as i64
                } else {
                    b.min.x
                },
                y: if b.max.y - b.min.y < PAD_EPS {
                    crate::scalar::clamp_s(b.min.y - 1) as i64
                } else {
                    b.min.y
                },
                z: if b.max.z - b.min.z < PAD_EPS {
                    crate::scalar::clamp_s(b.min.z - 1) as i64
                } else {
                    b.min.z
                },
            },
            max: Vec3 {
                x: if b.max.x - b.min.x < PAD_EPS {
                    crate::scalar::clamp_s(b.max.x + 1) as i64
                } else {
                    b.max.x
                },
                y: if b.max.y - b.min.y < PAD_EPS {
                    crate::scalar::clamp_s(b.max.y + 1) as i64
                } else {
                    b.max.y
                },
                z: if b.max.z - b.min.z < PAD_EPS {
                    crate::scalar::clamp_s(b.max.z + 1) as i64
                } else {
                    b.max.z
                },
            },
        }
    }

    /// `inner` lies inside `outer`, componentwise.
    pub open spec fn spec_encloses(outer: AABB, inner: AABB) -> bool {
        &&& outer.min.x <= inner.min.x
        &&& outer.min.y <= inner.min.y
        &&& outer.min.z <= inner.min.z
        &&& inner.max.x <= outer.max.x
        &&& inner.max.y <= outer.max.y
        &&& inner.max.z <= outer.max.z
    }

    /// The unit box.
    pub fn new() -> (r: Self)
        ensures
            r.min == (Vec3 { x: 0i64, y: 0i64, z: 0i64 }),
            r.max == (Vec3 { x: SCALE, y: SCALE, z: SCALE }),
            r.wf(),
    {
        Self { min: Vec3::zero(), max: Vec3::one() }
    }

    /// The empty box.
    pub fn empty() -> (r: Self)
        ensures
            r == Self::spec_empty(),
            r.wf(),
    {
        Self { min: Vec3::splat(SCALAR_LIMIT), max: Vec3::splat(-SCALAR_LIMIT) }
    }

    /// Box spanning the three axis intervals, padded.
    pub fn from(x: Interval, y: Interval, z: Interval) -> (r: Self)
        requires
            x.wf(),
            y.wf(),
            z.wf(),
        ensures
            r == Self::spec_pad(
                AABB {
                    min: Vec3 { x: x.min, y: y.min, z: z.min },
                    max: Vec3 { x: x.max, y: y.max, z: z.max },
                },
            ),
            r.wf(),
    {
        Self {
            min: Vec3::new(x.min, y.min, z.min),
            max: Vec3::new(x.max, y.max, z.max),
        }.pad_to_minimums()
    }

    /// Smallest padded box containing the two points.
    pub fn from_points(a: Vec3, b: Vec3) -> (r: Self)
        requires
            a.wf(),
            b.wf(),
        ensures
            r == Self::spec_pad(AABB { min: Vec3::spec_min(a, b), max: Vec3::spec_max(a, b) }),
            r.wf(),
    {
        Self { min: a.min(&b), max: a.max(&b) }.pad_to_minimums()
    }

    /// Union of two boxes (exact: no padding is applied, so the union of
    /// padded boxes stays padded and union keeps its algebraic laws).
    pub fn from_aabbs(a: &Self, b: &Self) -> (r: Self)
        ensures
            r == Self::spec_union(*a, *b),
    {
        Self { min: a.min.min(&b.min), max: a.max.max(&b.max) }
    }

    /// The extent of the box along one axis.
    pub fn get_axis_interval(&self, n: usize) -> (r: Interval)
        ensures
            r == (Interval {
                min: self.min.spec_index(if n < 3 {
                    n as int
                } else {
                    2
                }) as i64,
                max: self.max.spec_index(if n < 3 {
                    n as int
                } else {
                    2
                }) as i64,
            }),
    {
        match n {
            0 => Interval::from(self.min.x, self.max.x),
            1 => Interval::from(self.min.y, self.max.y),
            _ => Interval::from(self.min.z, self.max.z),
        }
    }

    /// Axis of largest extent; ties prefer x, then y, then z.
    pub fn longest_axis(&self) -> (r: usize)
        requires
            self.wf(),
        ensures
            r < 3,
            forall|k: int|
                0 <= k < 3 ==> self.max.spec_index(k) - self.min.spec_index(k) <= self.max.spec_index(
                    r as int,
                ) - self.min.spec_index(r as int),
            forall|k: int|
                0 <= k < r ==> self.max.spec_index(k) - self.min.spec_index(k) < self.max.spec_index(
                    r as int,
                ) - self.min.spec_index(r as int),
    {
        let dx = self.max.x - self.min.x;
        let dy = self.max.y - self.min.y;
        let dz = self.max.z - self.min.z;
        if dx >= dy && dx >= dz {
            0
        } else if dy >= dz {
            1
        } else {
            2
        }
    }

    /// Pad every thin axis by one tick on each side.
    pub fn pad_to_minimums(self) -> (r: Self)
        requires
            self.wf(),
        ensures
            r == Self::spec_pad(self),
            r.wf(),
    {
        let mut min = self.min;
        let mut max = self.max;
        if max.x - min.x < PAD_EPS {
            min.x = crate::vec3::clamp_i64(min.x - 1);
            max.x = crate::vec3::clamp_i64(max.x + 1);
        }
        if max.y - min.y < PAD_EPS {
            min.y = crate::vec3::clamp_i64(min.y - 1);
            max.y = crate::vec3::clamp_i64(max.y + 1);
        }
        if max.z - min.z < PAD_EPS {
            min.z = crate::vec3::clamp_i64(min.z - 1);
            max.z = crate::vec3::clamp_i64(max.z + 1);
        }
        Self { min, max }
    }

    /// Translate the box by `p` (exact).
    pub fn shift(&self, p: Vec3) -> (r: Self)
        requires
            self.wf(),
            p.wf(),
            scalar_in_range(self.min.x + p.x),
            scalar_in_range(self.min.y + p.y),
            scalar_in_range(self.min.z + p.z),
            scalar_in_range(self.max.x + p.x),
            scalar_in_range(self.max.y + p.y),
            scalar_in_range(self.max.z + p.z),
        ensures
            r.min.x == self.min.x + p.x,
            r.min.y == self.min.y + p.y,
            r.min.z == self.min.z + p.z,
            r.max.x == self.max.x + p.x,
            r.max.y == self.max.y + p.y,
            r.max.z == self.max.z + p.z,
            r.wf(),
    {
        Self { min: self.min.add(&p), max: self.max.add(&p) }
    }
}

impl Default for AABB {
    /// The default box is the unit box, as `new` builds it.
    fn default() -> (r: Self)
        ensures
            r.min == (Vec3 { x: 0i64, y: 0i64, z: 0i64 }),
            r.max == (Vec3 { x: SCALE, y: SCALE, z: SCALE }),
    {
        Self::new()
    }
}

/// Union of boxes is commutative.
pub proof fn lemma_union_commutative(a: AABB, b: AABB)
    ensures
        AABB::spec_union(a, b) == AABB::spec_union(b, a),
{
}

/// Union of boxes is associative.
pub proof fn lemma_union_associative(a: AABB, b: AABB, c: AABB)
    ensures
        AABB::spec_union(AABB::spec_union(a, b), c) == AABB::spec_union(a, AABB::spec_union(b, c)),
{
}

/// The empty box is the identity element of union.
pub proof fn lemma_union_empty_identity(a: AABB)
    requires
        a.wf(),
    ensures
        AABB::spec_union(a, AABB::spec_empty()) == a,
        AABB::spec_union(AABB::spec_empty(), a) == a,
{
}

/// Union really encloses both of its arguments.
pub proof fn lemma_union_encloses(a: AABB, b: AABB)
    ensures
        AABB::spec_encloses(AABB::spec_union(a, b), a),
        AABB::spec_encloses(AABB::spec_union(a, b), b),
{
}

} // verus!

verus! {

/// Magnitude bound for slab-state numerators: `2 * SCALAR_LIMIT * SCALE`.
pub const SLAB_NUM_LIMIT: i128 = 0x8000_0000_0000_0000;

/// With `td > 0`: the exact ray point at rational parameter `tn / td`
/// lies within `[bmin, bmax]` on an axis with origin `o`, direction `d`.
/// All quantities are fixed point; the inequalities are cleared of
/// denominators so they are exact integer statements.
pub open spec fn axis_within(o: int, d: int, bmin: int, bmax: int, tn: int, td: int) -> bool {
    bmin * (SCALE as int) * td <= o * (SCALE as int) * td + tn * d && o * (SCALE as int) * td + tn
        * d <= bmax * (SCALE as int) * td
}

/// The geometric meaning of the slab test: some rational ray parameter in
/// `[lo, hi]` places the exact ray point inside the box on all three axes.
pub open spec fn ray_hits_box(r: Ray, b: AABB, lo: int, hi: int) -> bool {
    exists|tn: int, td: int|
        td > 0 && lo * td <= tn && tn <= hi * td && axis_within(
            r.origin.x as int,
            r.direction.x as int,
            b.min.x as int,
            b.max.x as int,
            tn,
            td,
        ) && axis_within(
            r.origin.y as int,
            r.direction.y as int,
            b.min.y as int,
            b.max.y as int,
            tn,
            td,
        ) && axis_within(
            r.origin.z as int,
            r.direction.z as int,
            b.min.z as int,
            b.max.z as int,
            tn,
            td,
        )
}

/// Running intersection of per-axis parameter ranges, kept as a pair of
/// exact fractions `[en/ed, xn/xd]` with positive denominators.
#[derive(Clone, Copy)]
pub struct SlabState {
    pub en: i128,
    pub ed: i128,
    pub xn: i128,
    pub xd: i128,
}

impl SlabState {
    pub open spec fn wf(self) -> bool {
        &&& -SLAB_NUM_LIMIT <= self.en <= SLAB_NUM_LIMIT
        &&& -SLAB_NUM_LIMIT <= self.xn <= SLAB_NUM_LIMIT
        &&& 1 <= self.ed <= SCALAR_LIMIT
        &&& 1 <= self.xd <= SCALAR_LIMIT
    }
}

/// `tn / td` lies in the closed fraction range of the state.
pub open spec fn fb(st: SlabState, tn: int, td: int) -> bool {
    st.en * td <= tn * st.ed && tn * st.xd <= st.xn * td
}

/// Transitivity of fraction comparison by cross multiplication:
/// `a/b <= c/d` and `c/d <= e/f` give `a/b <= e/f`.
pub proof fn lemma_frac_le_trans(a: int, b: int, c: int, d: int, e: int, f: int)
    by (nonlinear_arith)
    requires
        b > 0,
        d > 0,
        f > 0,
        a * d <= c * b,
        c * f <= e * d,
    ensures
        a * f <= e * b,
{
}

/// Bound on a product from bounds on its factors.
pub proof fn lemma_mul_abs_bound(a: int, b: int, ma: int, mb: int)
    by (nonlinear_arith)
    requires
        0 <= ma,
        0 <= mb,
        -ma <= a <= ma,
        -mb <= b <= mb,
    ensures
        -(ma * mb) <= a * b <= ma * mb,
{
}

/// On an axis the ray does not move along, the slab condition is exactly
/// origin containment.
pub proof fn lemma_axis_zero(o: int, bmin: int, bmax: int, tn: int, td: int)
    requires
        td > 0,
    ensures
        axis_within(o, 0, bmin, bmax, tn, td) <==> (bmin <= o && o <= bmax),
{
    assert(tn * 0 == 0) by (nonlinear_arith);
    assert((bmin * (SCALE as int) * td <= o * (SCALE as int) * td) <==> bmin <= o)
        by (nonlinear_arith)
        requires
            td > 0,
    ;
    assert((o * (SCALE as int) * td <= bmax * (SCALE as int) * td) <==> o <= bmax)
        by (nonlinear_arith)
        requires
            td > 0,
    ;
}

/// For a positive direction, the slab condition is the parameter range
/// `[(bmin-o)*SCALE / d, (bmax-o)*SCALE / d]`, cleared of denominators.
pub proof fn lemma_axis_pos(o: int, d: int, bmin: int, bmax: int, tn: int, td: int)
    requires
        d > 0,
        td > 0,
    ensures
        axis_within(o, d, bmin, bmax, tn, td) <==> ((bmin - o) * (SCALE as int) * td <= tn * d && tn
            * d <= (bmax - o) * (SCALE as int) * td),
{
    assert((bmin * (SCALE as int) * td <= o * (SCALE as int) * td + tn * d) <==> ((bmin - o) * (
    SCALE as int) * td <= tn * d)) by (nonlinear_arith);
    assert((o * (SCALE as int) * td + tn * d <= bmax * (SCALE as int) * td) <==> (tn * d <= (bmax
        - o) * (SCALE as int) * td)) by (nonlinear_arith);
}

/// For a negative direction, entry and exit swap and the denominator is
/// negated so it stays positive.
pub proof fn lemma_axis_neg(o: int, d: int, bmin: int, bmax: int, tn: int, td: int)
    requires
        d < 0,
        td > 0,
    ensures
        axis_within(o, d, bmin, bmax, tn, td) <==> ((o - bmax) * (SCALE as int) * td <= tn * (-d)
            && tn * (-d) <= (o - bmin) * (SCALE as int) * td),
{
    assert((bmin * (SCALE as int) * td <= o * (SCALE as int) * td + tn * d) <==> (tn * (-d) <= (o
        - bmin) * (SCALE as int) * td)) by (nonlinear_arith);
    assert((o * (SCALE as int) * td + tn * d <= bmax * (SCALE as int) * td) <==> ((o - bmax) * (
    SCALE as int) * td <= tn * (-d))) by (nonlinear_arith);
}

/// Intersect the state's parameter range with one axis of the slab test.
///
/// Returns false only when the axis can never be satisfied (flat direction
/// with the origin outside the slab).
fn fold_axis(o: i64, d: i64, bmin: i64, bmax: i64, st: SlabState) -> (res: (bool, SlabState))
    requires
        scalar_in_range(o as int),
        scalar_in_range(d as int),
        scalar_in_range(bmin as int),
        scalar_in_range(bmax as int),
        st.wf(),
    ensures
        res.1.wf(),
        res.0 ==> forall|tn: int, td: int|
            td > 0 ==> (#[trigger] fb(res.1, tn, td) <==> (fb(st, tn, td) && axis_within(
                o as int,
                d as int,
                bmin as int,
                bmax as int,
                tn,
                td,
            ))),
        !res.0 ==> forall|tn: int, td: int|
            td > 0 ==> !#[trigger] axis_within(o as int, d as int, bmin as int, bmax as int, tn, td),
{
    if d == 0 {
        if bmin <= o && o <= bmax {
            proof {
                assert forall|tn: int, td: int| td > 0 implies (#[trigger] fb(st, tn, td) <==> (fb(
                    st,
                    tn,
                    td,
                ) && axis_within(o as int, 0, bmin as int, bmax as int, tn, td))) by {
                    lemma_axis_zero(o as int, bmin as int, bmax as int, tn, td);
                }
            }
            (true, st)
        } else {
            proof {
                assert forall|tn: int, td: int| td > 0 implies !#[trigger] axis_within(
                    o as int,
                    0,
                    bmin as int,
                    bmax as int,
                    tn,
                    td,
                ) by {
                    lemma_axis_zero(o as int, bmin as int, bmax as int, tn, td);
                }
            }
            (false, st)
        }
    } else {
        let ln: i128;
        let un: i128;
        let den: i128;
        proof {
            lemma_mul_abs_bound(
                (bmin - o) as int,
                SCALE as int,
                2 * (SCALAR_LIMIT as int),
                SCALE as int,
            );
            lemma_mul_abs_bound(
                (bmax - o) as int,
                SCALE as int,
                2 * (SCALAR_LIMIT as int),
                SCALE as int,
            );
            lemma_mul_abs_bound(
                (o - bmax) as int,
                SCALE as int,
                2 * (SCALAR_LIMIT as int),
                SCALE as int,
            );
            lemma_mul_abs_bound(
                (o - bmin) as int,
                SCALE as int,
                2 * (SCALAR_LIMIT as int),
                SCALE as int,
            );
        }
        if d > 0 {
            ln = ((bmin as i128) - (o as i128)) * (SCALE as i128);
            un = ((bmax as i128) - (o as i128)) * (SCALE as i128);
            den = d as i128;
        } else {
            ln = ((o as i128) - (bmax as i128)) * (SCALE as i128);
            un = ((o as i128) - (bmin as i128)) * (SCALE as i128);
            den = -(d as i128);
        }
        // Tighten the lower (entry) fraction to the larger of the two.
        proof {
            lemma_mul_abs_bound(ln as int, st.ed as int, SLAB_NUM_LIMIT as int, SCALAR_LIMIT as int);
            lemma_mul_abs_bound(st.en as int, den as int, SLAB_NUM_LIMIT as int, SCALAR_LIMIT as int);
            lemma_mul_abs_bound(un as int, st.xd as int, SLAB_NUM_LIMIT as int, SCALAR_LIMIT as int);
            lemma_mul_abs_bound(st.xn as int, den as int, SLAB_NUM_LIMIT as int, SCALAR_LIMIT as int);
        }
        let take_lower = ln * st.ed > st.en * den;
        let take_upper = un * st.xd < st.xn * den;
        let new = SlabState {
            en: if take_lower {
                ln
            } else {
                st.en
            },
            ed: if take_lower {
                den
            } else {
                st.ed
            },
            xn: if take_upper {
                un
            } else {
                st.xn
            },
            xd: if take_upper {
                den
            } else {
                st.xd
            },
        };
        proof {
            assert forall|tn: int, td: int| td > 0 implies (#[trigger] fb(new, tn, td) <==> (fb(
                st,
                tn,
                td,
            ) && axis_within(o as int, d as int, bmin as int, bmax as int, tn, td))) by {
                if d > 0 {
                    lemma_axis_pos(o as int, d as int, bmin as int, bmax as int, tn, td);
                } else {
                    lemma_axis_neg(o as int, d as int, bmin as int, bmax as int, tn, td);
                }
                // axis_within now equals: ln * td <= tn * den && tn * den <= un * td
                if fb(new, tn, td) {
                    if take_lower {
                        lemma_frac_le_trans(
                            st.en as int,
                            st.ed as int,
                            ln as int,
                            den as int,
                            tn,
                            td,
                        );
                    } else {
                        lemma_frac_le_trans(
                            ln as int,
                            den as int,
                            st.en as int,
                            st.ed as int,
                            tn,
                            td,
                        );
                    }
                    if take_upper {
                        lemma_frac_le_trans(
                            tn,
                            td,
                            un as int,
                            den as int,
                            st.xn as int,
                            st.xd as int,
                        );
                    } else {
                        lemma_frac_le_trans(
                            tn,
                            td,
                            st.xn as int,
                            st.xd as int,
                            un as int,
                            den as int,
                        );
                    }
                }
            }
        }
        (true, new)
    }
}

impl AABB {
    /// Ray–slab intersection test: true exactly when some ray parameter in
    /// the closed query interval places the exact ray point inside the box
    /// (so a grazing, zero-width overlap still counts as a hit).
    pub fn hit(&self, r: &Ray, i: &Interval) -> (res: bool)
        requires
            self.wf(),
            r.wf(),
            i.wf(),
        ensures
            res == ray_hits_box(*r, *self, i.min as int, i.max as int),
    {
        let st0 = SlabState { en: i.min as i128, ed: 1, xn: i.max as i128, xd: 1 };
        let (okx, st1) = fold_axis(r.origin.x, r.direction.x, self.min.x, self.max.x, st0);
        if !okx {
            return false;
        }
        let (oky, st2) = fold_axis(r.origin.y, r.direction.y, self.min.y, self.max.y, st1);
        if !oky {
            return false;
        }
        let (okz, st3) = fold_axis(r.origin.z, r.direction.z, self.min.z, self.max.z, st2);
        if !okz {
            return false;
        }
        proof {
            lemma_mul_abs_bound(
                st3.en as int,
                st3.xd as int,
                SLAB_NUM_LIMIT as int,
                SCALAR_LIMIT as int,
            );
            lemma_mul_abs_bound(
                st3.xn as int,
                st3.ed as int,
                SLAB_NUM_LIMIT as int,
                SCALAR_LIMIT as int,
            );
        }
        let nonempty = st3.en * st3.xd <= st3.xn * st3.ed;
        proof {
            let lo = i.min as int;
            let hi = i.max as int;
            if nonempty {
                let tn0 = (st3.en as int) * (st3.xd as int);
                let td0 = (st3.ed as int) * (st3.xd as int);
                assert(td0 > 0 && fb(st3, tn0, td0))
                    by (nonlinear_arith)
                    requires
                        st3.ed >= 1,
                        st3.xd >= 1,
                        tn0 == (st3.en as int) * (st3.xd as int),
                        td0 == (st3.ed as int) * (st3.xd as int),
                        (st3.en as int) * (st3.xd as int) <= (st3.xn as int) * (st3.ed as int),
                ;
                assert(fb(st2, tn0, td0) && fb(st1, tn0, td0) && fb(st0, tn0, td0));
                assert((st0.en as int) * td0 <= tn0 * (st0.ed as int));
                assert(tn0 * (st0.ed as int) == tn0 * 1 == tn0);
                assert(tn0 * (st0.xd as int) == tn0 * 1 == tn0);
                assert(lo * td0 <= tn0 && tn0 <= hi * td0);
                assert(ray_hits_box(*r, *self, lo, hi));
            } else {
                if ray_hits_box(*r, *self, lo, hi) {
                    let (tn, td) = choose|tn: int, td: int|
                        td > 0 && lo * td <= tn && tn <= hi * td && axis_within(
                            r.origin.x as int,
                            r.direction.x as int,
                            self.min.x as int,
                            self.max.x as int,
                            tn,
                            td,
                        ) && axis_within(
                            r.origin.y as int,
                            r.direction.y as int,
                            self.min.y as int,
                            self.max.y as int,
                            tn,
                            td,
                        ) && axis_within(
                            r.origin.z as int,
                            r.direction.z as int,
                            self.min.z as int,
                            self.max.z as int,
                            tn,
                            td,
                        );
                    assert(tn * (st0.ed as int) == tn * 1 == tn);
                    assert(tn * (st0.xd as int) == tn * 1 == tn);
                    assert(fb(st0, tn, td));
                    assert(fb(st1, tn, td) && fb(st2, tn, td) && fb(st3, tn, td));
                    lemma_frac_le_trans(
                        st3.en as int,
                        st3.ed as int,
                        tn,
                        td,
                        st3.xn as int,
                        st3.xd as int,
                    );
                    assert(false);
                }
            }
        }
        nonempty
    }
}

} // verus!

verus! {

/// With the ray parameter a plain fixed-point value `t`, the exact ray
/// point at `t` lies inside the box.
pub open spec fn point_at_within(r: Ray, t: int, b: AABB) -> bool {
    &&& axis_within(r.origin.x as int, r.direction.x as int, b.min.x as int, b.max.x as int, t, 1)
    &&& axis_within(r.origin.y as int, r.direction.y as int, b.min.y as int, b.max.y as int, t, 1)
    &&& axis_within(r.origin.z as int, r.direction.z as int, b.min.z as int, b.max.z as int, t, 1)
}

/// Exact test of one axis of `point_at_within`.
fn point_axis_check(o: i64, d: i64, bmin: i64, bmax: i64, t: i64) -> (res: bool)
    requires
        scalar_in_range(o as int),
        scalar_in_range(d as int),
        scalar_in_range(bmin as int),
        scalar_in_range(bmax as int),
        scalar_in_range(t as int),
    ensures
        res == axis_within(o as int, d as int, bmin as int, bmax as int, t as int, 1),
{
    proof {
        lemma_mul_abs_bound(t as int, d as int, SCALAR_LIMIT as int, SCALAR_LIMIT as int);
        lemma_mul_abs_bound(o as int, SCALE as int, SCALAR_LIMIT as int, SCALE as int);
        lemma_mul_abs_bound(bmin as int, SCALE as int, SCALAR_LIMIT as int, SCALE as int);
        lemma_mul_abs_bound(bmax as int, SCALE as int, SCALAR_LIMIT as int, SCALE as int);
    }
    let p: i128 = (o as i128) * (SCALE as i128) + (t as i128) * (d as i128);
    let lo: i128 = (bmin as i128) * (SCALE as i128);
    let hi: i128 = (bmax as i128) * (SCALE as i128);
    let res = lo <= p && p <= hi;
    proof {
        assert((bmin as int) * (SCALE as int) * 1 == (bmin as int) * (SCALE as int));
        assert((bmax as int) * (SCALE as int) * 1 == (bmax as int) * (SCALE as int));
        assert((o as int) * (SCALE as int) * 1 == (o as int) * (SCALE as int));
    }
    res
}

/// Exact test that the ray point at parameter `t` lies inside the box.
pub fn point_at_in_box(r: &Ray, t: i64, b: &AABB) -> (res: bool)
    requires
        r.wf(),
        b.wf(),
        scalar_in_range(t as int),
    ensures
        res == point_at_within(*r, t as int, *b),
{
    point_axis_check(r.origin.x, r.direction.x, b.min.x, b.max.x, t)
        && point_axis_check(r.origin.y, r.direction.y, b.min.y, b.max.y, t)
        && point_axis_check(r.origin.z, r.direction.z, b.min.z, b.max.z, t)
}

/// A parameter value inside the query interval whose exact ray point lies
/// in the box witnesses the slab test.
pub proof fn lemma_point_in_box_hits(r: Ray, b: AABB, lo: int, hi: int, t: int)
    requires
        lo <= t <= hi,
        point_at_within(r, t, b),
    ensures
        ray_hits_box(r, b, lo, hi),
{
    assert(lo * 1 == lo && hi * 1 == hi && t * 1 == t);
    assert(1 > 0 && lo * 1 <= t && t <= hi * 1 && axis_within(
        r.origin.x as int,
        r.direction.x as int,
        b.min.x as int,
        b.max.x as int,
        t,
        1,
    ) && axis_within(
        r.origin.y as int,
        r.direction.y as int,
        b.min.y as int,
        b.max.y as int,
        t,
        1,
    ) && axis_within(r.origin.z as int, r.direction.z as int, b.min.z as int, b.max.z as int, t, 1));
}

/// One axis of the slab condition survives widening the slab.
proof fn lemma_axis_monotone(o: int, d: int, bmin: int, bmax: int, bmin2: int, bmax2: int, tn: int, td: int)
    by (nonlinear_arith)
    requires
        td > 0,
        bmin2 <= bmin,
        bmax <= bmax2,
        axis_within(o, d, bmin, bmax, tn, td),
    ensures
        axis_within(o, d, bmin2, bmax2, tn, td),
{
}

/// A hit on a box is a hit on any enclosing box, over the same interval.
pub proof fn lemma_box_monotone(r: Ray, inner: AABB, outer: AABB, lo: int, hi: int)
    requires
        AABB::spec_encloses(outer, inner),
        ray_hits_box(r, inner, lo, hi),
    ensures
        ray_hits_box(r, outer, lo, hi),
{
    let (tn, td) = choose|tn: int, td: int|
        td > 0 && lo * td <= tn && tn <= hi * td && axis_within(
            r.origin.x as int,
            r.direction.x as int,
            inner.min.x as int,
            inner.max.x as int,
            tn,
            td,
        ) && axis_within(
            r.origin.y as int,
            r.direction.y as int,
            inner.min.y as int,
            inner.max.y as int,
            tn,
            td,
        ) && axis_within(
            r.origin.z as int,
            r.direction.z as int,
            inner.min.z as int,
            inner.max.z as int,
            tn,
            td,
        );
    lemma_axis_monotone(
        r.origin.x as int,
        r.direction.x as int,
        inner.min.x as int,
        inner.max.x as int,
        outer.min.x as int,
        outer.max.x as int,
        tn,
        td,
    );
    lemma_axis_monotone(
        r.origin.y as int,
        r.direction.y as int,
        inner.min.y as int,
        inner.max.y as int,
        outer.min.y as int,
        outer.max.y as int,
        tn,
        td,
    );
    lemma_axis_monotone(
        r.origin.z as int,
        r.direction.z as int,
        inner.min.z as int,
        inner.max.z as int,
        outer.min.z as int,
        outer.max.z as int,
        tn,
        td,
    );
}

} // verus!

//! The bounding-volume hierarchy: a binary tree over primitives, stored as
//! an arena of nodes whose children always sit at smaller indices.
//!
//! Each internal node's box is, by construction, exactly the union of its
//! children's boxes; traversal prunes a subtree only when the slab test
//! refuses its box, and the slab test's geometric contract is what makes
//! that pruning provably lossless.

use crate::aabb::{ray_hits_box, AABB};
use crate::hit_record::HitRecord;
use crate::hittable::{
    lemma_prim_box_wf, prim_bounding_box, prim_inv, prim_spec_hit, primitive_bounding_box,
    primitive_hit, Hittable, Primitive,
};
use crate::hittable_list::all_prims_inv;
use crate::interval::Interval;
use crate::ray::Ray;
use crate::scalar::{scalar_in_range, SCALE};
use crate::utility::Prng;
use crate::vec3::{Vec3, P3, V3};
use vstd::prelude::*;

verus! {

broadcast use vstd::seq_lib::group_to_multiset_ensures;

/// One arena slot: a leaf primitive or an internal node with two children
/// at smaller indices.
pub enum ArenaNode {
    Leaf(Primitive),
    Inner { left: usize, right: usize, bbox: AABB },
}

/// The box of the subtree rooted at `k`.
pub open spec fn node_box(nodes: Seq<ArenaNode>, k: int) -> AABB {
    if 0 <= k < nodes.len() {
        match nodes[k] {
            ArenaNode::Leaf(p) => prim_bounding_box(p),
            ArenaNode::Inner { bbox, .. } => bbox,
        }
    } else {
        AABB::spec_empty()
    }
}

/// Well-formedness of the subtree rooted at `k`: children sit at smaller
/// indices and every internal box is exactly the union of its children's.
pub open spec fn node_wf(nodes: Seq<ArenaNode>, k: int) -> bool
    decreases k,
{
    if !(0 <= k < nodes.len()) {
        false
    } else {
        match nodes[k] {
            ArenaNode::Leaf(p) => prim_inv(p),
            ArenaNode::Inner { left, right, bbox } => left < k && right < k && node_wf(
                nodes,
                left as int,
            ) && node_wf(nodes, right as int) && bbox == AABB::spec_union(
                node_box(nodes, left as int),
                node_box(nodes, right as int),
            ),
        }
    }
}

/// The primitives stored at the leaves of the subtree rooted at `k`, left
/// to right.
pub open spec fn node_leaves(nodes: Seq<ArenaNode>, k: int) -> Seq<Primitive>
    decreases k,
{
    if !(0 <= k < nodes.len()) {
        Seq::empty()
    } else {
        match nodes[k] {
            ArenaNode::Leaf(p) => seq![p],
            ArenaNode::Inner { left, right, .. } => if left < k && right < k {
                node_leaves(nodes, left as int) + node_leaves(nodes, right as int)
            } else {
                Seq::empty()
            },
        }
    }
}

/// The traversal: prune on the slab test, search the left child over the
/// full interval, then the right child with the upper bound tightened to
/// the best hit so far; the right child's result wins when it exists.
pub open spec fn node_spec_hit(nodes: Seq<ArenaNode>, k: int, r: Ray, i: Interval, g: Prng) -> (
    Option<HitRecord>,
    Prng,
)
    decreases k,
{
    if !(0 <= k < nodes.len()) {
        (None, g)
    } else {
        match nodes[k] {
            ArenaNode::Leaf(p) => prim_spec_hit(p, r, i, g),
            ArenaNode::Inner { left, right, bbox } => if !(left < k && right < k) {
                (None, g)
            } else if !ray_hits_box(r, bbox, i.min as int, i.max as int) {
                (None, g)
            } else {
                let (hl, g1) = node_spec_hit(nodes, left as int, r, i, g);
                let m = match hl {
                    Some(rec) => rec.t,
                    None => i.max,
                };
                let (hr2, g2) = node_spec_hit(
                    nodes,
                    right as int,
                    r,
                    Interval { min: i.min, max: m },
                    g1,
                );
                (
                    match hr2 {
                        Some(rec) => Some(rec),
                        None => hl,
                    },
                    g2,
                )
            },
        }
    }
}

/// A well-formed subtree has a well-formed box.
pub proof fn lemma_node_box_wf(nodes: Seq<ArenaNode>, k: int)
    requires
        node_wf(nodes, k),
    ensures
        node_box(nodes, k).wf(),
    decreases k,
{
    match nodes[k] {
        ArenaNode::Leaf(p) => {
            lemma_prim_box_wf(p);
        },
        ArenaNode::Inner { left, right, .. } => {
            lemma_node_box_wf(nodes, left as int);
            lemma_node_box_wf(nodes, right as int);
        },
    }
}

/// Subtree facts depend only on the prefix of the arena up to the root, so
/// pushing further nodes preserves them.
pub proof fn lemma_node_prefix(nodes1: Seq<ArenaNode>, nodes2: Seq<ArenaNode>, k: int)
    requires
        nodes1.len() <= nodes2.len(),
        nodes1 =~= nodes2.take(nodes1.len() as int),
        node_wf(nodes1, k),
    ensures
        node_wf(nodes2, k),
        node_box(nodes2, k) == node_box(nodes1, k),
        node_leaves(nodes2, k) =~= node_leaves(nodes1, k),
        forall|r: Ray, i: Interval, g: Prng|
            #[trigger] node_spec_hit(nodes2, k, r, i, g) == node_spec_hit(nodes1, k, r, i, g),
    decreases k,
{
    assert(nodes2[k] == nodes1[k]);
    match nodes1[k] {
        ArenaNode::Leaf(_) => {},
        ArenaNode::Inner { left, right, .. } => {
            lemma_node_prefix(nodes1, nodes2, left as int);
            lemma_node_prefix(nodes1, nodes2, right as int);
            assert forall|r: Ray, i: Interval, g: Prng|
                #[trigger] node_spec_hit(nodes2, k, r, i, g) == node_spec_hit(
                    nodes1,
                    k,
                    r,
                    i,
                    g,
                ) by {
                if ray_hits_box(r, node_box(nodes1, k), i.min as int, i.max as int) {
                    let (hl, g1) = node_spec_hit(nodes1, left as int, r, i, g);
                    let m = match hl {
                        Some(rec) => rec.t,
                        None => i.max,
                    };
                    assert(node_spec_hit(nodes2, left as int, r, i, g) == node_spec_hit(
                        nodes1,
                        left as int,
                        r,
                        i,
                        g,
                    ));
                    assert(node_spec_hit(
                        nodes2,
                        right as int,
                        r,
                        Interval { min: i.min, max: m },
                        g1,
                    ) == node_spec_hit(nodes1, right as int, r, Interval { min: i.min, max: m }, g1));
                }
            }
        },
    }
}

/// The bounding-volume hierarchy: an arena of nodes and the root index.
pub struct BVHNode {
    pub nodes: Vec<ArenaNode>,
    pub root: usize,
}

/// The box of the subtree rooted at `k`, read from the arena.
fn arena_node_box(nodes: &Vec<ArenaNode>, k: usize) -> (res: AABB)
    requires
        node_wf(nodes@, k as int),
    ensures
        res == node_box(nodes@, k as int),
        res.wf(),
{
    proof {
        lemma_node_box_wf(nodes@, k as int);
    }
    match &nodes[k] {
        ArenaNode::Leaf(p) => primitive_bounding_box(p),
        ArenaNode::Inner { bbox, .. } => *bbox,
    }
}

/// Recursive traversal of the arena, mirroring `node_spec_hit`.
fn arena_hit(nodes: &Vec<ArenaNode>, k: usize, r: &Ray, i: &Interval, prng: &mut Prng) -> (res:
    Option<HitRecord>)
    requires
        node_wf(nodes@, k as int),
        r.wf(),
        i.wf(),
    ensures
        (res, *final(prng)) == node_spec_hit(nodes@, k as int, *r, *i, *old(prng)),
        res matches Some(h) ==> h.wf(),
    decreases k,
{
    match &nodes[k] {
        ArenaNode::Leaf(p) => primitive_hit(p, r, i, prng),
        ArenaNode::Inner { left, right, bbox } => {
            proof {
                lemma_node_box_wf(nodes@, k as int);
            }
            if !bbox.hit(r, i) {
                return None;
            }
            let hl = arena_hit(nodes, *left, r, i, prng);
            let m = match &hl {
                Some(rec) => rec.t,
                None => i.max,
            };
            let tightened = Interval::from(i.min, m);
            let hr2 = arena_hit(nodes, *right, r, &tightened, prng);
            match hr2 {
                Some(rec) => Some(rec),
                None => hl,
            }
        },
    }
}

} // verus!

verus! {

/// The sort key used during construction: the low corner of the
/// primitive's box along the chosen axis.
pub open spec fn spec_axis_key(p: Primitive, axis: int) -> int {
    prim_bounding_box(p).min.spec_index(
        if 0 <= axis < 3 {
            axis
        } else {
            2
        },
    )
}

fn axis_key(p: &Primitive, axis: usize) -> (r: i64)
    requires
        prim_inv(*p),
    ensures
        r as int == spec_axis_key(*p, axis as int),
{
    let b = primitive_bounding_box(p);
    if axis == 0 {
        b.min.x
    } else if axis == 1 {
        b.min.y
    } else {
        b.min.z
    }
}

impl BVHNode {
    pub open spec fn inv(&self) -> bool {
        &&& self.nodes@.len() > 0
        &&& (self.root as int) < self.nodes@.len()
        &&& node_wf(self.nodes@, self.root as int)
    }

    /// The primitives at the leaves, left to right.
    pub open spec fn spec_leaves(&self) -> Seq<Primitive> {
        node_leaves(self.nodes@, self.root as int)
    }

    /// Order two primitives by the low corner of their boxes on an axis.
    pub fn hittable_compare(a: &Primitive, b: &Primitive, axis: usize) -> (r: core::cmp::Ordering)
        requires
            prim_inv(*a),
            prim_inv(*b),
        ensures
            r == (if spec_axis_key(*a, axis as int) < spec_axis_key(*b, axis as int) {
                core::cmp::Ordering::Less
            } else if spec_axis_key(*a, axis as int) > spec_axis_key(*b, axis as int) {
                core::cmp::Ordering::Greater
            } else {
                core::cmp::Ordering::Equal
            }),
    {
        let x = axis_key(a, axis);
        let y = axis_key(b, axis);
        if x < y {
            core::cmp::Ordering::Less
        } else if x > y {
            core::cmp::Ordering::Greater
        } else {
            core::cmp::Ordering::Equal
        }
    }

    pub fn x_compare(a: &Primitive, b: &Primitive) -> (r: core::cmp::Ordering)
        requires
            prim_inv(*a),
            prim_inv(*b),
        ensures
            r == (if spec_axis_key(*a, 0) < spec_axis_key(*b, 0) {
                core::cmp::Ordering::Less
            } else if spec_axis_key(*a, 0) > spec_axis_key(*b, 0) {
                core::cmp::Ordering::Greater
            } else {
                core::cmp::Ordering::Equal
            }),
    {
        Self::hittable_compare(a, b, 0)
    }

    pub fn y_compare(a: &Primitive, b: &Primitive) -> (r: core::cmp::Ordering)
        requires
            prim_inv(*a),
            prim_inv(*b),
        ensures
            r == (if spec_axis_key(*a, 1) < spec_axis_key(*b, 1) {
                core::cmp::Ordering::Less
            } else if spec_axis_key(*a, 1) > spec_axis_key(*b, 1) {
                core::cmp::Ordering::Greater
            } else {
                core::cmp::Ordering::Equal
            }),
    {
        Self::hittable_compare(a, b, 1)
    }

    pub fn z_compare(a: &Primitive, b: &Primitive) -> (r: core::cmp::Ordering)
        requires
            prim_inv(*a),
            prim_inv(*b),
        ensures
            r == (if spec_axis_key(*a, 2) < spec_axis_key(*b, 2) {
                core::cmp::Ordering::Less
            } else if spec_axis_key(*a, 2) > spec_axis_key(*b, 2) {
                core::cmp::Ordering::Greater
            } else {
                core::cmp::Ordering::Equal
            }),
    {
        Self::hittable_compare(a, b, 2)
    }

    /// A hierarchy of exactly two objects.
    pub fn from_two_hittables(obj1: Primitive, obj2: Primitive) -> (s: Self)
        requires
            prim_inv(obj1),
            prim_inv(obj2),
        ensures
            s.inv(),
            s.spec_leaves() =~= seq![obj1, obj2],
    {
        let ghost o1 = obj1;
        let ghost o2 = obj2;
        let b1 = primitive_bounding_box(&obj1);
        let b2 = primitive_bounding_box(&obj2);
        let bbox = AABB::from_aabbs(&b1, &b2);
        let mut nodes: Vec<ArenaNode> = Vec::new();
        nodes.push(ArenaNode::Leaf(obj1));
        nodes.push(ArenaNode::Leaf(obj2));
        nodes.push(ArenaNode::Inner { left: 0, right: 1, bbox });
        proof {
            assert(node_wf(nodes@, 0));
            assert(node_wf(nodes@, 1));
            assert(node_leaves(nodes@, 0) =~= seq![o1]);
            assert(node_leaves(nodes@, 1) =~= seq![o2]);
        }
        Self { nodes, root: 2 }
    }

    /// Build a hierarchy over a non-empty set of objects.  Construction
    /// consumes the list; the leaves hold exactly the given objects,
    /// as a multiset.
    pub fn from(obj_list: Vec<Primitive>) -> (s: Self)
        requires
            obj_list@.len() >= 1,
            all_prims_inv(obj_list@),
        ensures
            s.inv(),
            s.spec_leaves().to_multiset() == obj_list@.to_multiset(),
    {
        let ghost orig = obj_list@;
        let mut nodes: Vec<ArenaNode> = Vec::new();
        let root = Self::make_level(&mut nodes, obj_list);
        Self { nodes, root }
    }

    /// Recursively build one subtree from a non-empty group of objects:
    /// sort by the longest axis of the group's box, split at the median,
    /// and recurse; children are pushed before their parent so children
    /// always sit at smaller arena indices.
    pub fn make_level(nodes: &mut Vec<ArenaNode>, objs: Vec<Primitive>) -> (root: usize)
        requires
            objs@.len() >= 1,
            all_prims_inv(objs@),
            forall|k: int| 0 <= k < old(nodes)@.len() ==> node_wf(old(nodes)@, k),
        ensures
            old(nodes)@.len() <= final(nodes)@.len(),
            old(nodes)@ =~= final(nodes)@.take(old(nodes)@.len() as int),
            forall|k: int| 0 <= k < final(nodes)@.len() ==> node_wf(final(nodes)@, k),
            (root as int) < final(nodes)@.len(),
            node_wf(final(nodes)@, root as int),
            node_leaves(final(nodes)@, root as int).to_multiset() == objs@.to_multiset(),
        decreases objs@.len(),
    {
        let ghost orig = objs@;
        let mut objs = objs;
        // The box of the whole group picks the split axis.
        let mut group_box = AABB::empty();
        let n = objs.len();
        let mut k: usize = 0;
        while k < n
            invariant
                n == objs@.len(),
                k <= n,
                all_prims_inv(objs@),
                group_box.wf(),
            decreases n - k,
        {
            proof {
                lemma_prim_box_wf(objs@[k as int]);
            }
            let b = primitive_bounding_box(&objs[k]);
            group_box = AABB::from_aabbs(&group_box, &b);
            k = k + 1;
        }
        let axis = group_box.longest_axis();

        if n == 1 {
            let p = objs.pop().unwrap();
            let ghost gp = p;
            let ghost before = nodes@;
            nodes.push(ArenaNode::Leaf(p));
            let root = nodes.len() - 1;
            proof {
                assert(gp == orig[0]);
                assert(prim_inv(orig[0]));
                assert(nodes@[root as int] == ArenaNode::Leaf(gp));
                assert forall|j: int| 0 <= j < nodes@.len() implies node_wf(nodes@, j) by {
                    if j < before.len() {
                        lemma_node_prefix(before, nodes@, j);
                    } else {
                        assert(j == root as int);
                        assert(node_wf(nodes@, j));
                    }
                }
                assert(node_leaves(nodes@, root as int) =~= seq![orig[0]]);
                assert(orig =~= seq![orig[0]]);
            }
            root
        } else if n == 2 {
            let second = objs.pop().unwrap();
            let first = objs.pop().unwrap();
            let ghost f = first;
            let ghost sd = second;
            let swap = matches!(
                Self::hittable_compare(&first, &second, axis),
                core::cmp::Ordering::Greater
            );
            let (a, b) = if swap {
                (second, first)
            } else {
                (first, second)
            };
            let ba = primitive_bounding_box(&a);
            let bb = primitive_bounding_box(&b);
            let bbox = AABB::from_aabbs(&ba, &bb);
            let ghost before = nodes@;
            let ghost ga = a;
            let ghost gb = b;
            let li = nodes.len();
            nodes.push(ArenaNode::Leaf(a));
            let ri = nodes.len();
            nodes.push(ArenaNode::Leaf(b));
            let root = nodes.len();
            nodes.push(ArenaNode::Inner { left: li, right: ri, bbox });
            proof {
                assert(f == orig[0] && sd == orig[1]);
                assert(prim_inv(orig[0]) && prim_inv(orig[1]));
                assert(prim_inv(ga) && prim_inv(gb));
                assert(nodes@[li as int] == ArenaNode::Leaf(ga));
                assert(nodes@[ri as int] == ArenaNode::Leaf(gb));
                assert(node_wf(nodes@, li as int));
                assert(node_wf(nodes@, ri as int));
                assert(node_box(nodes@, li as int) == prim_bounding_box(ga));
                assert(node_box(nodes@, ri as int) == prim_bounding_box(gb));
                assert(node_wf(nodes@, root as int));
                assert forall|j: int| 0 <= j < nodes@.len() implies node_wf(nodes@, j) by {
                    if j < before.len() {
                        lemma_node_prefix(before, nodes@, j);
                    }
                }
                assert(node_leaves(nodes@, li as int) =~= seq![ga]);
                assert(node_leaves(nodes@, ri as int) =~= seq![gb]);
                assert(node_leaves(nodes@, root as int) =~= seq![ga, gb]);
                assert(orig =~= seq![f, sd]);
                if swap {
                    lemma_pair_multiset(ga, gb);
                    assert(seq![gb, ga] =~= seq![f, sd]);
                } else {
                    assert(seq![ga, gb] =~= seq![f, sd]);
                }
            }
            root
        } else {
            let sorted = sort_by_axis(objs, axis);
            let ghost sorted_view = sorted@;
            let mid = n / 2;
            let mut left_objs = sorted;
            let right_objs = left_objs.split_off(mid);
            proof {
                assert(left_objs@ + right_objs@ =~= sorted_view);
                vstd::seq_lib::lemma_multiset_commutative(left_objs@, right_objs@);
                assert forall|j: int| 0 <= j < left_objs@.len() implies prim_inv(
                    #[trigger] left_objs@[j],
                ) by {
                    assert(left_objs@[j] == (left_objs@ + right_objs@)[j]);
                }
                assert forall|j: int| 0 <= j < right_objs@.len() implies prim_inv(
                    #[trigger] right_objs@[j],
                ) by {
                    assert(right_objs@[j] == (left_objs@ + right_objs@)[j + left_objs@.len()]);
                }
            }
            let ghost combined = left_objs@ + right_objs@;
            let li = Self::make_level(nodes, left_objs);
            let ghost mid_nodes = nodes@;
            let ri = Self::make_level(nodes, right_objs);
            proof {
                lemma_node_prefix(mid_nodes, nodes@, li as int);
            }
            let lb = arena_node_box(nodes, li);
            let rb = arena_node_box(nodes, ri);
            let bbox = AABB::from_aabbs(&lb, &rb);
            let ghost before = nodes@;
            let root = nodes.len();
            nodes.push(ArenaNode::Inner { left: li, right: ri, bbox });
            proof {
                lemma_node_prefix(before, nodes@, li as int);
                lemma_node_prefix(before, nodes@, ri as int);
                assert(node_wf(nodes@, root as int));
                assert forall|j: int| 0 <= j < nodes@.len() implies node_wf(nodes@, j) by {
                    if j < before.len() {
                        lemma_node_prefix(before, nodes@, j);
                    } else {
                        assert(j == root as int);
                    }
                }
                assert(node_leaves(nodes@, root as int) =~= node_leaves(nodes@, li as int)
                    + node_leaves(nodes@, ri as int));
                vstd::seq_lib::lemma_multiset_commutative(
                    node_leaves(nodes@, li as int),
                    node_leaves(nodes@, ri as int),
                );
            }
            root
        }
    }
}

/// Two-element sequences in either order hold the same multiset.
proof fn lemma_pair_multiset(a: Primitive, b: Primitive)
    ensures
        seq![a, b].to_multiset() == seq![b, a].to_multiset(),
{
    let e = Seq::<Primitive>::empty();
    assert(seq![a, b] =~= e.push(a).push(b));
    assert(seq![b, a] =~= e.push(b).push(a));
    assert(e.push(a).push(b).to_multiset() =~= e.push(a).to_multiset().insert(b));
    assert(e.push(a).to_multiset() =~= e.to_multiset().insert(a));
    assert(e.push(b).push(a).to_multiset() =~= e.push(b).to_multiset().insert(a));
    assert(e.push(b).to_multiset() =~= e.to_multiset().insert(b));
    assert(e.to_multiset().insert(a).insert(b) =~= e.to_multiset().insert(b).insert(a));
    assert(seq![a, b].to_multiset() =~= seq![b, a].to_multiset());
}

/// Sort a group of primitives by their box's low corner on the given axis
/// (selection of the least key first); keeps exactly the same objects.
fn sort_by_axis(objs: Vec<Primitive>, axis: usize) -> (r: Vec<Primitive>)
    requires
        all_prims_inv(objs@),
    ensures
        r@.to_multiset() == objs@.to_multiset(),
        r@.len() == objs@.len(),
        all_prims_inv(r@),
    decreases objs@.len(),
{
    let ghost orig = objs@;
    let mut rest = objs;
    let mut out: Vec<Primitive> = Vec::new();
    while rest.len() > 0
        invariant
            all_prims_inv(rest@),
            all_prims_inv(out@),
            out@.to_multiset().add(rest@.to_multiset()) == orig.to_multiset(),
            out@.len() + rest@.len() == orig.len(),
        decreases rest@.len(),
    {
        let m = rest.len();
        let mut j: usize = 0;
        let mut k: usize = 1;
        while k < m
            invariant
                m == rest@.len(),
                j < m,
                k <= m,
                all_prims_inv(rest@),
            decreases m - k,
        {
            if matches!(
                BVHNode::hittable_compare(&rest[k], &rest[j], axis),
                core::cmp::Ordering::Less
            ) {
                j = k;
            }
            k = k + 1;
        }
        let ghost rest_before = rest@;
        let picked = rest.remove(j);
        let ghost out_before = out@;
        let ghost gp = picked;
        out.push(picked);
        proof {
            assert(rest@ =~= rest_before.remove(j as int));
            assert(rest@.to_multiset() =~= rest_before.to_multiset().remove(rest_before[j as int]));
            assert(out@ =~= out_before.push(gp));
            assert(out@.to_multiset() =~= out_before.to_multiset().insert(gp));
            assert(out@.to_multiset().add(rest@.to_multiset()) =~= orig.to_multiset());
            assert forall|q: int| 0 <= q < rest@.len() implies prim_inv(#[trigger] rest@[q]) by {
                if q < j {
                    assert(rest@[q] == rest_before[q]);
                } else {
                    assert(rest@[q] == rest_before[q + 1]);
                }
            }
        }
    }
    out
}

} // verus!

verus! {

impl Hittable for BVHNode {
    open spec fn inv(&self) -> bool {
        BVHNode::inv(self)
    }

    open spec fn spec_hit(&self, r: Ray, i: Interval, g: Prng) -> (Option<HitRecord>, Prng) {
        node_spec_hit(self.nodes@, self.root as int, r, i, g)
    }

    open spec fn spec_bounding_box(&self) -> AABB {
        node_box(self.nodes@, self.root as int)
    }

    open spec fn spec_pdf_value(&self, origin: P3, dir: V3, time: i64, g: Prng) -> (int, Prng) {
        (0, g)
    }

    open spec fn spec_random(&self, origin: P3, time: i64, g: Prng) -> (V3, Prng) {
        (Vec3 { x: SCALE, y: 0i64, z: 0i64 }, g)
    }

    fn hit(&self, r: &Ray, i: &Interval, prng: &mut Prng) -> (res: Option<HitRecord>) {
        arena_hit(&self.nodes, self.root, r, i, prng)
    }

    fn bounding_box(&self) -> (res: AABB) {
        arena_node_box(&self.nodes, self.root)
    }

    /// An interior aggregate is never importance-sampled directly.
    fn pdf_value(&self, origin: &P3, dir: &V3, time: i64, prng: &mut Prng) -> (res: i64) {
        0
    }

    fn random(&self, origin: &P3, time: i64, prng: &mut Prng) -> (res: V3) {
        Vec3::new(SCALE, 0, 0)
    }
}

/// Every internal node's box is exactly the union of its children's boxes:
/// the structural law hierarchy construction establishes.
pub proof fn theorem_parent_box_is_union(nodes: Seq<ArenaNode>, k: int)
    requires
        node_wf(nodes, k),
        nodes[k] is Inner,
    ensures
        node_box(nodes, k) == AABB::spec_union(
            node_box(nodes, nodes[k]->Inner_left as int),
            node_box(nodes, nodes[k]->Inner_right as int),
        ),
{
}

} // verus!

verus! {

use crate::hittable::{
    lemma_prim_hit_det, lemma_prim_hit_in_box, lemma_prim_hit_restrict, prim_deterministic,
};
use crate::hittable_list::{list_spec_hit, HittableList};
use crate::aabb::{lemma_box_monotone, lemma_point_in_box_hits, point_at_within};

/// Every primitive of the sequence is deterministic (holds no medium).
pub open spec fn all_prims_deterministic(objs: Seq<Primitive>) -> bool {
    forall|k: int| 0 <= k < objs.len() ==> prim_deterministic(#[trigger] objs[k])
}

/// The hit parameter of an optional record.
pub open spec fn hit_t(res: Option<HitRecord>) -> Option<i64> {
    match res {
        Some(h) => Some(h.t),
        None => None,
    }
}

/// The smaller of two optional parameters, treating `None` as infinity.
pub open spec fn min_opt(x: Option<i64>, y: Option<i64>) -> Option<i64> {
    match (x, y) {
        (Option::None, c) => c,
        (Option::Some(b), Option::None) => Some(b),
        (Option::Some(b), Option::Some(c)) => Some(
            if b <= c {
                b
            } else {
                c
            },
        ),
    }
}

/// A scan over deterministic primitives passes the stream through and
/// does not depend on it.
pub proof fn lemma_list_hit_det(objs: Seq<Primitive>, r: Ray, i: Interval, g1: Prng, g2: Prng)
    requires
        all_prims_deterministic(objs),
    ensures
        list_spec_hit(objs, r, i, g1).1 == g1,
        list_spec_hit(objs, r, i, g1).0 == list_spec_hit(objs, r, i, g2).0,
    decreases objs.len(),
{
    if objs.len() > 0 {
        assert forall|k: int| 0 <= k < objs.drop_last().len() implies prim_deterministic(
            #[trigger] objs.drop_last()[k],
        ) by {
            assert(objs.drop_last()[k] == objs[k]);
        }
        lemma_list_hit_det(objs.drop_last(), r, i, g1, g2);
        lemma_list_hit_det(objs.drop_last(), r, i, g2, g1);
        lemma_prim_hit_det(objs.last(), r, i, g1, g2);
        lemma_prim_hit_det(objs.last(), r, i, g2, g1);
    }
}

/// A successful scan result was produced by one of the primitives.
pub proof fn lemma_list_hit_some_member(objs: Seq<Primitive>, r: Ray, i: Interval, g: Prng)
    requires
        all_prims_deterministic(objs),
    ensures
        list_spec_hit(objs, r, i, g).0 matches Some(h) ==> exists|j: int|
            0 <= j < objs.len() && prim_spec_hit(#[trigger] objs[j], r, i, g).0 == Some(h),
    decreases objs.len(),
{
    if objs.len() > 0 {
        assert forall|k: int| 0 <= k < objs.drop_last().len() implies prim_deterministic(
            #[trigger] objs.drop_last()[k],
        ) by {
            assert(objs.drop_last()[k] == objs[k]);
        }
        lemma_list_hit_det(objs.drop_last(), r, i, g, g);
        lemma_list_hit_some_member(objs.drop_last(), r, i, g);
        lemma_prim_hit_det(objs.last(), r, i, g, g);
        let (best, g1) = list_spec_hit(objs.drop_last(), r, i, g);
        let (cur, _) = prim_spec_hit(objs.last(), r, i, g1);
        let res = list_spec_hit(objs, r, i, g).0;
        if res is Some {
            let h = res->0;
            if cur == Some(h) {
                assert(objs[objs.len() - 1] == objs.last());
                assert(prim_spec_hit(objs[objs.len() - 1], r, i, g).0 == Some(h));
            } else {
                assert(best == Some(h));
                let j = choose|j: int|
                    0 <= j < objs.drop_last().len() && prim_spec_hit(
                        #[trigger] objs.drop_last()[j],
                        r,
                        i,
                        g,
                    ).0 == Some(h);
                assert(objs.drop_last()[j] == objs[j]);
                assert(prim_spec_hit(objs[j], r, i, g).0 == Some(h));
            }
        }
    }
}

/// Tightening the scan's upper bound keeps exactly the hits strictly
/// below the new bound.
pub proof fn lemma_list_restrict(objs: Seq<Primitive>, r: Ray, i: Interval, m: i64, g: Prng)
    requires
        all_prims_deterministic(objs),
        m <= i.max,
    ensures
        ({
            let full = list_spec_hit(objs, r, i, g).0;
            let cut = list_spec_hit(objs, r, Interval { min: i.min, max: m }, g).0;
            match full {
                Some(h) => if h.t < m {
                    cut == Some(h)
                } else {
                    cut is None
                },
                None => cut is None,
            }
        }),
    decreases objs.len(),
{
    let i2 = Interval { min: i.min, max: m };
    if objs.len() > 0 {
        assert forall|k: int| 0 <= k < objs.drop_last().len() implies prim_deterministic(
            #[trigger] objs.drop_last()[k],
        ) by {
            assert(objs.drop_last()[k] == objs[k]);
        }
        lemma_list_hit_det(objs.drop_last(), r, i, g, g);
        lemma_list_hit_det(objs.drop_last(), r, i2, g, g);
        lemma_prim_hit_det(objs.last(), r, i, g, g);
        lemma_list_restrict(objs.drop_last(), r, i, m, g);
        lemma_prim_hit_restrict(objs.last(), r, i, m, g);
    }
}

/// The scan over a concatenation finds the smaller of the two scans'
/// parameters.
#[verifier::rlimit(100)]
pub proof fn lemma_list_concat(a: Seq<Primitive>, b: Seq<Primitive>, r: Ray, i: Interval, g: Prng)
    requires
        all_prims_deterministic(a),
        all_prims_deterministic(b),
    ensures
        hit_t(list_spec_hit(a + b, r, i, g).0) == min_opt(
            hit_t(list_spec_hit(a, r, i, g).0),
            hit_t(list_spec_hit(b, r, i, g).0),
        ),
    decreases b.len(),
{
    assert forall|k: int| 0 <= k < (a + b).len() implies prim_deterministic(
        #[trigger] (a + b)[k],
    ) by {
        if k < a.len() {
            assert((a + b)[k] == a[k]);
        } else {
            assert((a + b)[k] == b[k - a.len()]);
        }
    }
    if b.len() == 0 {
        assert(a + b =~= a);
    } else {
        assert forall|k: int| 0 <= k < b.drop_last().len() implies prim_deterministic(
            #[trigger] b.drop_last()[k],
        ) by {
            assert(b.drop_last()[k] == b[k]);
        }
        assert((a + b).drop_last() =~= a + b.drop_last());
        assert((a + b).last() == b.last());
        lemma_list_concat(a, b.drop_last(), r, i, g);
        lemma_list_hit_det(a + b.drop_last(), r, i, g, g);
        lemma_list_hit_det(b.drop_last(), r, i, g, g);
        lemma_prim_hit_det(b.last(), r, i, g, g);
    }
}

} // verus!

verus! {

/// Box enclosure is transitive.
proof fn lemma_encloses_trans(a: AABB, b: AABB, c: AABB)
    requires
        AABB::spec_encloses(a, b),
        AABB::spec_encloses(b, c),
    ensures
        AABB::spec_encloses(a, c),
{
}

/// Every leaf's box lies inside the box of the subtree holding it.
proof fn lemma_leaf_box_in_node(nodes: Seq<ArenaNode>, k: int, j: int)
    requires
        node_wf(nodes, k),
        0 <= j < node_leaves(nodes, k).len(),
    ensures
        AABB::spec_encloses(node_box(nodes, k), prim_bounding_box(node_leaves(nodes, k)[j])),
    decreases k,
{
    match nodes[k] {
        ArenaNode::Leaf(_) => {},
        ArenaNode::Inner { left, right, .. } => {
            let ll = node_leaves(nodes, left as int);
            let rl = node_leaves(nodes, right as int);
            crate::aabb::lemma_union_encloses(
                node_box(nodes, left as int),
                node_box(nodes, right as int),
            );
            if j < ll.len() {
                lemma_leaf_box_in_node(nodes, left as int, j);
                assert(node_leaves(nodes, k)[j] == ll[j]);
                lemma_encloses_trans(
                    node_box(nodes, k),
                    node_box(nodes, left as int),
                    prim_bounding_box(ll[j]),
                );
            } else {
                lemma_leaf_box_in_node(nodes, right as int, j - ll.len());
                assert(node_leaves(nodes, k)[j] == rl[j - ll.len()]);
                lemma_encloses_trans(
                    node_box(nodes, k),
                    node_box(nodes, right as int),
                    prim_bounding_box(rl[j - ll.len()]),
                );
            }
        },
    }
}

/// When the slab test refuses a subtree's box, no leaf of that subtree
/// can report a hit: pruning is lossless.
#[verifier::rlimit(100)]
proof fn lemma_prune_sound(nodes: Seq<ArenaNode>, k: int, r: Ray, i: Interval, g: Prng)
    requires
        node_wf(nodes, k),
        all_prims_deterministic(node_leaves(nodes, k)),
        r.wf(),
        i.wf(),
        !ray_hits_box(r, node_box(nodes, k), i.min as int, i.max as int),
    ensures
        list_spec_hit(node_leaves(nodes, k), r, i, g).0 is None,
{
    let leaves = node_leaves(nodes, k);
    lemma_list_hit_some_member(leaves, r, i, g);
    if list_spec_hit(leaves, r, i, g).0 is Some {
        let h = list_spec_hit(leaves, r, i, g).0->0;
        let j = choose|j: int|
            0 <= j < leaves.len() && prim_spec_hit(#[trigger] leaves[j], r, i, g).0 == Some(h);
        lemma_prim_hit_in_box(leaves[j], r, i, g);
        lemma_leaf_box_in_node(nodes, k, j);
        lemma_point_in_box_hits(
            r,
            prim_bounding_box(leaves[j]),
            i.min as int,
            i.max as int,
            h.t as int,
        );
        lemma_box_monotone(
            r,
            prim_bounding_box(leaves[j]),
            node_box(nodes, k),
            i.min as int,
            i.max as int,
        );
        assert(false);
    }
}

/// A scan hit lies strictly inside the query interval.
proof fn lemma_list_hit_strict(objs: Seq<Primitive>, r: Ray, i: Interval, g: Prng)
    requires
        all_prims_deterministic(objs),
    ensures
        list_spec_hit(objs, r, i, g).0 matches Some(h) ==> i.spec_surrounds(h.t as int),
{
    lemma_list_hit_some_member(objs, r, i, g);
    if list_spec_hit(objs, r, i, g).0 is Some {
        let h = list_spec_hit(objs, r, i, g).0->0;
        let j = choose|j: int|
            0 <= j < objs.len() && prim_spec_hit(#[trigger] objs[j], r, i, g).0 == Some(h);
        lemma_prim_hit_in_box(objs[j], r, i, g);
    }
}

/// How the traversal's combination of the left hit and the tightened
/// right search relates to the minimum of the two untightened searches.
proof fn lemma_min_combine(
    tl: Option<i64>,
    tr: Option<i64>,
    trc: Option<i64>,
    nt: Option<i64>,
    m: i64,
    imax: i64,
)
    requires
        m == (match tl {
            Some(t0) => t0,
            None => imax,
        }),
        match tr {
            Some(t) => if t < m {
                trc == Some(t)
            } else {
                trc is None
            },
            None => trc is None,
        },
        nt == (if trc is Some {
            trc
        } else {
            tl
        }),
        tr matches Some(t) ==> t < imax,
    ensures
        nt == min_opt(tl, tr),
{
}

/// The tightened interval the right-hand child is searched with.
pub open spec fn tightened_interval(nodes: Seq<ArenaNode>, k: int, r: Ray, i: Interval, g: Prng) -> Interval {
    match nodes[k] {
        ArenaNode::Inner { left, .. } => {
            let (hl, _) = node_spec_hit(nodes, left as int, r, i, g);
            Interval {
                min: i.min,
                max: match hl {
                    Some(rec) => rec.t,
                    None => i.max,
                },
            }
        },
        _ => i,
    }
}

/// The combination step at an internal node whose box test passed,
/// assuming the two subtree results already match their scans.
#[verifier::rlimit(100)]
proof fn lemma_inner_case(nodes: Seq<ArenaNode>, k: int, r: Ray, i: Interval, g: Prng)
    requires
        node_wf(nodes, k),
        nodes[k] is Inner,
        all_prims_deterministic(node_leaves(nodes, k)),
        r.wf(),
        i.wf(),
        ray_hits_box(r, node_box(nodes, k), i.min as int, i.max as int),
        ({
            let left = nodes[k]->Inner_left as int;
            let right = nodes[k]->Inner_right as int;
            let i2 = tightened_interval(nodes, k, r, i, g);
            &&& node_spec_hit(nodes, left, r, i, g).1 == g
            &&& hit_t(node_spec_hit(nodes, left, r, i, g).0) == hit_t(
                list_spec_hit(node_leaves(nodes, left), r, i, g).0,
            )
            &&& node_spec_hit(nodes, right, r, i2, g).1 == g
            &&& hit_t(node_spec_hit(nodes, right, r, i2, g).0) == hit_t(
                list_spec_hit(node_leaves(nodes, right), r, i2, g).0,
            )
        }),
    ensures
        node_spec_hit(nodes, k, r, i, g).1 == g,
        hit_t(node_spec_hit(nodes, k, r, i, g).0) == hit_t(
            list_spec_hit(node_leaves(nodes, k), r, i, g).0,
        ),
{
    let leaves = node_leaves(nodes, k);
    let left = nodes[k]->Inner_left as int;
    let right = nodes[k]->Inner_right as int;
    let ll = node_leaves(nodes, left);
    let rl = node_leaves(nodes, right);
    assert(leaves =~= ll + rl);
    assert(leaves == ll + rl);
    assert forall|q: int| 0 <= q < ll.len() implies prim_deterministic(#[trigger] ll[q]) by {
        assert(ll[q] == leaves[q]);
    }
    assert forall|q: int| 0 <= q < rl.len() implies prim_deterministic(#[trigger] rl[q]) by {
        assert(rl[q] == leaves[q + ll.len()]);
    }
    let (hl, g1) = node_spec_hit(nodes, left, r, i, g);
    assert(g1 == g);
    lemma_list_hit_det(ll, r, i, g, g);
    lemma_list_hit_strict(ll, r, i, g);
    let m = match hl {
        Some(rec) => rec.t,
        None => i.max,
    };
    let i2 = Interval { min: i.min, max: m };
    assert(i2 == tightened_interval(nodes, k, r, i, g));
    lemma_list_hit_det(rl, r, i2, g, g);
    lemma_list_hit_det(rl, r, i, g, g);
    lemma_list_restrict(rl, r, i, m, g);
    lemma_list_hit_strict(rl, r, i, g);
    lemma_list_concat(ll, rl, r, i, g);
    let tl = hit_t(hl);
    let tr = hit_t(list_spec_hit(rl, r, i, g).0);
    let trc = hit_t(list_spec_hit(rl, r, i2, g).0);
    let (hr2, g2) = node_spec_hit(nodes, right, r, i2, g);
    assert(g2 == g);
    assert(hit_t(hr2) == trc);
    let nt = hit_t(node_spec_hit(nodes, k, r, i, g).0);
    assert(nt == (if trc is Some {
        trc
    } else {
        tl
    }));
    lemma_min_combine(tl, tr, trc, nt, m, i.max);
    assert(tl == hit_t(list_spec_hit(ll, r, i, g).0));
}

/// Hierarchy traversal returns a hit at exactly the same parameter as the
/// brute-force scan of the subtree's leaves: box pruning is lossless and
/// the tightened right-hand search keeps the minimum.  Holds for
/// deterministic primitives (no participating media).
#[verifier::rlimit(100)]
pub proof fn lemma_node_matches_scan(nodes: Seq<ArenaNode>, k: int, r: Ray, i: Interval, g: Prng)
    requires
        node_wf(nodes, k),
        all_prims_deterministic(node_leaves(nodes, k)),
        r.wf(),
        i.wf(),
    ensures
        node_spec_hit(nodes, k, r, i, g).1 == g,
        hit_t(node_spec_hit(nodes, k, r, i, g).0) == hit_t(
            list_spec_hit(node_leaves(nodes, k), r, i, g).0,
        ),
    decreases k,
{
    let leaves = node_leaves(nodes, k);
    match nodes[k] {
        ArenaNode::Leaf(p) => {
            assert(leaves =~= seq![p]);
            assert(leaves.drop_last() =~= Seq::<Primitive>::empty());
            assert(leaves[0] == p);
            assert(prim_deterministic(p));
            lemma_prim_hit_det(p, r, i, g, g);
            assert(list_spec_hit(Seq::<Primitive>::empty(), r, i, g) == (
                Option::<HitRecord>::None,
                g,
            ));
            assert(leaves.len() == 1 && leaves.last() == p);
            assert(list_spec_hit(leaves, r, i, g).0 == prim_spec_hit(p, r, i, g).0);
        },
        ArenaNode::Inner { left, right, bbox } => {
            let ll = node_leaves(nodes, left as int);
            let rl = node_leaves(nodes, right as int);
            assert(leaves =~= ll + rl);
            assert forall|q: int| 0 <= q < ll.len() implies prim_deterministic(
                #[trigger] ll[q],
            ) by {
                assert(ll[q] == leaves[q]);
            }
            assert forall|q: int| 0 <= q < rl.len() implies prim_deterministic(
                #[trigger] rl[q],
            ) by {
                assert(rl[q] == leaves[q + ll.len()]);
            }
            if !ray_hits_box(r, bbox, i.min as int, i.max as int) {
                lemma_prune_sound(nodes, k, r, i, g);
                assert(node_spec_hit(nodes, k, r, i, g).0 is None);
                assert(list_spec_hit(leaves, r, i, g).0 is None);
            } else {
                lemma_node_matches_scan(nodes, left as int, r, i, g);
                let (hl, g1) = node_spec_hit(nodes, left as int, r, i, g);
                lemma_list_hit_det(ll, r, i, g, g);
                lemma_list_hit_strict(ll, r, i, g);
                let i2 = tightened_interval(nodes, k, r, i, g);
                assert(i2.wf());
                lemma_node_matches_scan(nodes, right as int, r, i2, g);
                lemma_inner_case(nodes, k, r, i, g);
            }
        },
    }
}

/// Hierarchy traversal and the brute-force linear scan return the same
/// closest hit: the same presence or absence of a hit, at the same ray
/// parameter, for every ray, query interval and random stream, whenever
/// the scene's primitives are deterministic and the list scans the
/// hierarchy's leaves.
pub proof fn theorem_hierarchy_matches_linear_scan(
    bvh: &BVHNode,
    list: &HittableList,
    r: Ray,
    i: Interval,
    g: Prng,
)
    requires
        bvh.inv(),
        list.objects@ == bvh.spec_leaves(),
        all_prims_deterministic(bvh.spec_leaves()),
        r.wf(),
        i.wf(),
    ensures
        hit_t(Hittable::spec_hit(bvh, r, i, g).0) == hit_t(Hittable::spec_hit(list, r, i, g).0),
{
    lemma_node_matches_scan(bvh.nodes@, bvh.root as int, r, i, g);
}

} // verus!

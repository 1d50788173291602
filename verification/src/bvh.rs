//! The bounding-volume hierarchy: a binary tree over the geometry set that
//! prunes subtrees whose box the ray misses.

use vstd::multiset::Multiset;
use vstd::prelude::*;

use crate::aabb::{aabb_hit, AABB};
use crate::interval::Interval;
use crate::object::{bbox_spec, hit_spec, HitRecord, Hittable, HittableList};
use crate::ray::Ray;
use crate::rng::Rng;

verus! {

/// The random source that construction draws its split axes from.
#[verifier::external_type_specification]
#[verifier::external_body]
pub struct ExSmallRng(rand::rngs::SmallRng);

/// Relies on `rand::rngs::SmallRng::from_entropy` (through `SeedableRng`):
/// a fresh generator seeded from system entropy. Nothing can be promised
/// of its state.
#[verifier::external_body]
pub fn small_rng_from_entropy() -> rand::rngs::SmallRng {
    <rand::rngs::SmallRng as rand::SeedableRng>::from_entropy()
}

/// Relies on `rand::Rng::gen_range` over `0..=2`: a uniform draw from that
/// closed range, so the result is one of the three axis indices.
#[verifier::external_body]
fn pick_axis(rng: &mut rand::rngs::SmallRng) -> (r: usize)
    ensures
        r < 3,
{
    rand::Rng::gen_range(rng, 0..=2usize)
}

/// One node: up to two children and the box that bounds them both. Built
/// once, immutable afterwards, traversed read-only.
pub struct BVHNode {
    pub left: Option<Box<Hittable>>,
    pub right: Option<Box<Hittable>>,
    pub bbox: AABB,
}

/// A node's identity, for contracts that mention the whole value.
pub open spec fn clone_node(n: BVHNode) -> BVHNode {
    n
}

/// The geometry at the leaves of a subtree, in tree order: a node yields
/// its children's leaves, anything else is itself a leaf.
pub open spec fn leaves(h: Hittable) -> Seq<Hittable>
    decreases h, 1int, 0int,
{
    match h {
        Hittable::Bvh(node) => opt_leaves(node.left) + opt_leaves(node.right),
        _ => seq![h],
    }
}

/// The leaves under an optional child.
pub open spec fn opt_leaves(o: Option<Box<Hittable>>) -> Seq<Hittable>
    decreases o, 0int, 0int,
{
    match o {
        Some(b) => leaves(*b),
        None => Seq::empty(),
    }
}

/// Every node of the tree carries exactly the hull of its children's
/// boxes (a lone child's box when there is only one).
pub open spec fn tree_boxed(h: Hittable) -> bool
    decreases h, 1int, 0int,
{
    match h {
        Hittable::Bvh(node) => {
            opt_tree_boxed(node.left) && opt_tree_boxed(node.right) && node.bbox == (
            match (node.left, node.right) {
                (Some(l), Some(r)) => crate::aabb::aabb_union(bbox_spec(*l), bbox_spec(*r)),
                (Some(l), None) => bbox_spec(*l),
                (None, Some(r)) => bbox_spec(*r),
                (None, None) => AABB {
                    x: crate::interval::Interval {
                        min: crate::fixed::FX_MAX,
                        max: crate::fixed::FX_MIN,
                    },
                    y: crate::interval::Interval {
                        min: crate::fixed::FX_MAX,
                        max: crate::fixed::FX_MIN,
                    },
                    z: crate::interval::Interval {
                        min: crate::fixed::FX_MAX,
                        max: crate::fixed::FX_MIN,
                    },
                },
            })
        },
        _ => true,
    }
}

/// Hull bookkeeping for an optional child.
pub open spec fn opt_tree_boxed(o: Option<Box<Hittable>>) -> bool
    decreases o, 0int, 0int,
{
    match o {
        Some(b) => tree_boxed(*b),
        None => true,
    }
}

/// In a tree whose nodes carry the hulls of their children, every node's
/// box contains the box of every leaf below it.
pub proof fn lemma_tree_box_contains_leaves(h: Hittable)
    requires
        tree_boxed(h),
    ensures
        forall|k: int|
            0 <= k < leaves(h).len() ==> crate::aabb::aabb_contains(
                bbox_spec(h),
                bbox_spec(#[trigger] leaves(h)[k]),
            ),
    decreases h, 1int, 0int,
{
    match h {
        Hittable::Bvh(node) => {
            assert(opt_tree_boxed(node.left) && opt_tree_boxed(node.right));
            let ll = opt_leaves(node.left);
            let rl = opt_leaves(node.right);
            match node.left {
                Some(lft) => {
                    assert(tree_boxed(*lft));
                    lemma_tree_box_contains_leaves(*lft);
                    assert(ll == leaves(*lft));
                },
                None => {
                    assert(ll =~= Seq::<Hittable>::empty());
                },
            }
            match node.right {
                Some(rgt) => {
                    assert(tree_boxed(*rgt));
                    lemma_tree_box_contains_leaves(*rgt);
                    assert(rl == leaves(*rgt));
                },
                None => {
                    assert(rl =~= Seq::<Hittable>::empty());
                },
            }
            match (node.left, node.right) {
                (Some(l), Some(r)) => {
                    crate::aabb::lemma_union_contains(bbox_spec(*l), bbox_spec(*r));
                },
                _ => {},
            }
            assert(leaves(h) == ll + rl);
            assert forall|k: int|
                0 <= k < leaves(h).len() implies crate::aabb::aabb_contains(
                bbox_spec(h),
                bbox_spec(#[trigger] leaves(h)[k]),
            ) by {
                if k < ll.len() {
                    assert(leaves(h)[k] == ll[k]);
                } else {
                    assert(leaves(h)[k] == rl[k - ll.len()]);
                }
            }
        },
        _ => {
            assert(leaves(h) =~= seq![h]);
        },
    }
}

/// The minimum of a hittable's bounding box on an axis, the sort key of
/// construction.
pub open spec fn axis_min(h: Hittable, axis: int) -> int {
    let b = bbox_spec(h);
    if axis == 0 {
        b.x.min as int
    } else if axis == 1 {
        b.y.min as int
    } else {
        b.z.min as int
    }
}

/// Ascending by bounding-box minimum on an axis.
pub open spec fn sorted_on(s: Seq<Hittable>, axis: int) -> bool {
    forall|i: int, j: int|
        0 <= i < j < s.len() ==> axis_min(s[i], axis) <= axis_min(s[j], axis)
}

/// No element is itself a tree node; construction takes its input that way,
/// so the leaves of the tree are exactly the input objects.
pub open spec fn no_bvh(s: Seq<Hittable>) -> bool {
    forall|i: int| 0 <= i < s.len() ==> !(#[trigger] s[i] is Bvh)
}

/// The sort key of construction.
fn axis_key(h: &Hittable, axis: usize) -> (k: i64)
    requires
        axis < 3,
    ensures
        k == axis_min(*h, axis as int),
{
    h.bounding_box().axis(axis).min
}

/// Sort geometry ascending by bounding-box minimum on an axis, by
/// repeatedly moving the least remaining element across.
fn sort_by_axis(v: Vec<Hittable>, axis: usize) -> (out: Vec<Hittable>)
    requires
        axis < 3,
    ensures
        out@.to_multiset() == v@.to_multiset(),
        out@.len() == v@.len(),
        sorted_on(out@, axis as int),
        forall|i: int| 0 <= i < out@.len() ==> v@.contains(#[trigger] out@[i]),
{
    let mut src = v;
    let mut out: Vec<Hittable> = Vec::new();
    proof {
        out@.to_multiset_ensures();
        assert(forall|y: Hittable| !out@.contains(y));
        assert(forall|y: Hittable| #[trigger] out@.to_multiset().count(y) == 0);
        assert(out@.to_multiset().add(src@.to_multiset()) =~= v@.to_multiset());
    }
    while src.len() > 0
        invariant
            axis < 3,
            out@.to_multiset().add(src@.to_multiset()) == v@.to_multiset(),
            out@.len() + src@.len() == v@.len(),
            sorted_on(out@, axis as int),
            forall|i: int, j: int|
                0 <= i < out@.len() && 0 <= j < src@.len() ==> axis_min(
                    #[trigger] out@[i],
                    axis as int,
                ) <= axis_min(#[trigger] src@[j], axis as int),
            forall|j: int| 0 <= j < src@.len() ==> v@.contains(#[trigger] src@[j]),
            forall|i: int| 0 <= i < out@.len() ==> v@.contains(#[trigger] out@[i]),
        decreases src.len(),
    {
        let mut m: usize = 0;
        let mut mk = axis_key(&src[0], axis);
        let mut i: usize = 1;
        while i < src.len()
            invariant
                axis < 3,
                m < i <= src@.len(),
                src@.len() > 0,
                mk == axis_min(src@[m as int], axis as int),
                forall|j: int| 0 <= j < i ==> mk <= axis_min(#[trigger] src@[j], axis as int),
            decreases src.len() - i,
        {
            let k = axis_key(&src[i], axis);
            if k < mk {
                m = i;
                mk = k;
            }
            i = i + 1;
        }
        let ghost old_src = src@;
        let ghost old_out = out@;
        let x = src.remove(m);
        out.push(x);
        proof {
            old_src.to_multiset_ensures();
            old_out.to_multiset_ensures();
            assert(src@ == old_src.remove(m as int));
            assert(out@ == old_out.push(x));
            assert(old_src.remove(m as int).to_multiset() =~= old_src.to_multiset().remove(
                old_src[m as int],
            ));
            assert(old_out.push(x).to_multiset() =~= old_out.to_multiset().insert(x));
            assert(old_src.contains(x));
            assert(old_src.to_multiset().count(x) > 0);
            assert(out@.to_multiset().add(src@.to_multiset()) =~= old_out.to_multiset().add(
                old_src.to_multiset(),
            ));
            // Everything left came after the removed minimum in the scan.
            assert(forall|j: int|
                0 <= j < src@.len() ==> axis_min(#[trigger] src@[j], axis as int) >= mk) by {
                assert(forall|j: int|
                    0 <= j < src@.len() ==> src@[j] == old_src[if j < m {
                        j
                    } else {
                        j + 1
                    }]);
            }
            assert(forall|j: int| 0 <= j < src@.len() ==> v@.contains(#[trigger] src@[j])) by {
                assert(forall|j: int|
                    0 <= j < src@.len() ==> src@[j] == old_src[if j < m {
                        j
                    } else {
                        j + 1
                    }]);
            }
        }
    }
    proof {
        src@.to_multiset_ensures();
        assert(forall|y: Hittable| !src@.contains(y));
        assert(forall|y: Hittable| #[trigger] src@.to_multiset().count(y) == 0);
        assert(out@.to_multiset() =~= v@.to_multiset());
    }
    out
}

impl BVHNode {
    /// A node from its parts.
    pub fn from_parts(left: Option<Box<Hittable>>, right: Option<Box<Hittable>>, bbox: AABB) -> (r:
        Self)
        ensures
            r == (BVHNode { left, right, bbox }),
    {
        BVHNode { left, right, bbox }
    }

    /// Build a tree over a list's objects. The leaves are exactly the
    /// objects given, and every node's box is the hull of its children's.
    pub fn new(list: HittableList, rng: &mut rand::rngs::SmallRng) -> (r: Self)
        requires
            list.objects@.len() >= 1,
            no_bvh(list.objects@),
        ensures
            leaves(Hittable::Bvh(r)).to_multiset() == list.objects@.to_multiset(),
            tree_boxed(Hittable::Bvh(r)),
            forall|k: int|
                0 <= k < leaves(Hittable::Bvh(r)).len() ==> crate::aabb::aabb_contains(
                    r.bbox,
                    bbox_spec(#[trigger] leaves(Hittable::Bvh(r))[k]),
                ),
    {
        let HittableList { objects, bbox: _ } = list;
        let node = Self::from_objects(objects, rng);
        proof {
            lemma_tree_box_contains_leaves(Hittable::Bvh(node));
        }
        node
    }

    /// Recursive construction: pick a split axis at random; one element is
    /// a lone leaf; two are ordered ascending on the axis; more are sorted
    /// on it, split at the midpoint and built on each side.
    fn from_objects(objects: Vec<Hittable>, rng: &mut rand::rngs::SmallRng) -> (r: Self)
        requires
            objects@.len() >= 1,
            no_bvh(objects@),
        ensures
            leaves(Hittable::Bvh(r)).to_multiset() == objects@.to_multiset(),
            tree_boxed(Hittable::Bvh(r)),
        decreases objects@.len(),
    {
        let axis = pick_axis(rng);
        let n = objects.len();
        let mut objects = objects;
        if n == 1 {
            let ghost before = objects@;
            let el = match objects.pop() {
                Some(el) => el,
                None => vstd::pervasive::unreached(),
            };
            let bbox = *el.bounding_box();
            let ghost el_g = el;
            let node = BVHNode { left: Some(Box::new(el)), right: None, bbox };
            proof {
                assert(!(el_g is Bvh));
                assert(tree_boxed(el_g) && opt_tree_boxed(node.left) && opt_tree_boxed(
                    node.right,
                ));
                assert(tree_boxed(Hittable::Bvh(node)));
                assert(opt_leaves(node.left) =~= leaves(el_g));
                assert(leaves(el_g) =~= seq![el_g]);
                assert(opt_leaves(node.right) =~= Seq::<Hittable>::empty());
                assert(leaves(Hittable::Bvh(node)) =~= seq![el_g]);
                assert(before =~= seq![el_g]);
            }
            node
        } else if n == 2 {
            let k0 = axis_key(&objects[0], axis);
            let k1 = axis_key(&objects[1], axis);
            let ghost before = objects@;
            let el2 = match objects.pop() {
                Some(el) => el,
                None => vstd::pervasive::unreached(),
            };
            let el1 = match objects.pop() {
                Some(el) => el,
                None => vstd::pervasive::unreached(),
            };
            let (a, b) = if k0 <= k1 {
                (el1, el2)
            } else {
                (el2, el1)
            };
            let bbox = AABB::from_boxes(a.bounding_box(), b.bounding_box());
            let ghost a_g = a;
            let ghost b_g = b;
            let node = BVHNode { left: Some(Box::new(a)), right: Some(Box::new(b)), bbox };
            proof {
                assert(!(a_g is Bvh) && !(b_g is Bvh));
                assert(tree_boxed(a_g) && tree_boxed(b_g) && opt_tree_boxed(node.left)
                    && opt_tree_boxed(node.right));
                assert(tree_boxed(Hittable::Bvh(node)));
                assert(opt_leaves(node.left) =~= leaves(a_g));
                assert(leaves(a_g) =~= seq![a_g]);
                assert(opt_leaves(node.right) =~= leaves(b_g));
                assert(leaves(b_g) =~= seq![b_g]);
                assert(leaves(Hittable::Bvh(node)) =~= seq![a_g, b_g]);
                let e = Seq::<Hittable>::empty();
                e.to_multiset_ensures();
                e.push(a_g).to_multiset_ensures();
                e.push(before[0]).to_multiset_ensures();
                assert(seq![a_g, b_g] =~= e.push(a_g).push(b_g));
                assert(before =~= e.push(before[0]).push(before[1]));
                assert(e.push(a_g).push(b_g).to_multiset() =~= e.push(a_g).to_multiset().insert(
                    b_g,
                ));
                assert(e.push(a_g).to_multiset() =~= e.to_multiset().insert(a_g));
                assert(e.push(before[0]).push(before[1]).to_multiset() =~= e.push(
                    before[0],
                ).to_multiset().insert(before[1]));
                assert(e.push(before[0]).to_multiset() =~= e.to_multiset().insert(before[0]));
                assert(e.to_multiset().insert(a_g).insert(b_g) =~= e.to_multiset().insert(
                    before[0],
                ).insert(before[1]));
            }
            node
        } else {
            let ghost orig = objects@;
            let sorted = sort_by_axis(objects, axis);
            let ghost sorted_g = sorted@;
            proof {
                assert(no_bvh(sorted_g));
            }
            let mut left_vec = sorted;
            let right_vec = left_vec.split_off(n / 2);
            let left_node = Self::from_objects(left_vec, rng);
            let right_node = Self::from_objects(right_vec, rng);
            let bbox = AABB::from_boxes(&left_node.bbox, &right_node.bbox);
            let ghost ln = left_node;
            let ghost rn = right_node;
            let node = BVHNode {
                left: Some(Box::new(Hittable::Bvh(left_node))),
                right: Some(Box::new(Hittable::Bvh(right_node))),
                bbox,
            };
            proof {
                assert(opt_tree_boxed(node.left) && opt_tree_boxed(node.right));
                assert(tree_boxed(Hittable::Bvh(node)));
                assert(leaves(Hittable::Bvh(node)) =~= leaves(Hittable::Bvh(ln)) + leaves(
                    Hittable::Bvh(rn),
                ));
                vstd::seq_lib::lemma_multiset_commutative(
                    leaves(Hittable::Bvh(ln)),
                    leaves(Hittable::Bvh(rn)),
                );
                assert(sorted_g =~= sorted_g.subrange(0, (n / 2) as int) + sorted_g.subrange(
                    (n / 2) as int,
                    sorted_g.len() as int,
                ));
                vstd::seq_lib::lemma_multiset_commutative(
                    sorted_g.subrange(0, (n / 2) as int),
                    sorted_g.subrange((n / 2) as int, sorted_g.len() as int),
                );
            }
            node
        }
    }

    /// Reject if the ray misses the node's box; otherwise query the left
    /// child over the full interval and the right child over an interval
    /// closed down to the left hit, so a right hit can only be closer.
    #[verifier::rlimit(60)]
    #[verifier::spinoff_prover]
    pub fn hit(&self, r: &Ray, ray_t: &Interval, rng: &mut Rng) -> (res: Option<HitRecord>)
        ensures
            (res, final (rng)@) == hit_spec(
                Hittable::Bvh(clone_node(*self)),
                *r,
                *ray_t,
                old(rng)@,
            ),
        decreases *self, 2int, 0int,
    {
        if !self.bbox.hit(r, ray_t) {
            return None;
        }
        let hit_left = match &self.left {
            Some(b) => b.hit(r, ray_t, rng),
            None => None,
        };
        let new_max = match &hit_left {
            Some(hr) => hr.t,
            None => ray_t.max,
        };
        let new_interval = Interval::new(ray_t.min, new_max);
        let hit_right = match &self.right {
            Some(b) => b.hit(r, &new_interval, rng),
            None => None,
        };
        // Prefer the right hit: it was found under the closed-down bound.
        match hit_right {
            Some(_) => hit_right,
            None => hit_left,
        }
    }

    /// The node's label.
    pub fn name(&self) -> String {
        "bvh".to_string()
    }

    /// The box bounding both children.
    pub fn bounding_box(&self) -> (res: &AABB)
        ensures
            *res == self.bbox,
    {
        &self.bbox
    }
}


/// Whether geometry is free of random draws: no participating medium
/// anywhere inside. Hits on such geometry neither consume nor depend on
/// the random state.
pub open spec fn rng_free(h: Hittable) -> bool
    decreases h, 1int, 0int,
{
    match h {
        Hittable::ConstantMedium(_) => false,
        Hittable::Translate(tr) => rng_free(*tr.object),
        Hittable::RotateY(ro) => rng_free(*ro.object),
        Hittable::List(l) => rng_free_from(l.objects@, 0),
        Hittable::Bvh(node) => opt_rng_free(node.left) && opt_rng_free(node.right),
        _ => true,
    }
}

/// Whether every element from index `i` on is free of random draws.
pub open spec fn rng_free_from(objs: Seq<Hittable>, i: int) -> bool
    decreases objs, 0int, objs.len() - i,
{
    if i < 0 || i >= objs.len() {
        true
    } else {
        rng_free(objs[i]) && rng_free_from(objs, i + 1)
    }
}

/// An optional child free of random draws.
pub open spec fn opt_rng_free(o: Option<Box<Hittable>>) -> bool
    decreases o, 0int, 0int,
{
    match o {
        Some(b) => rng_free(*b),
        None => true,
    }
}

/// `rng_free_from` says exactly that each later element is `rng_free`.
pub proof fn lemma_rng_free_from(objs: Seq<Hittable>, i: int)
    requires
        0 <= i,
        rng_free_from(objs, i),
    ensures
        forall|k: int| i <= k < objs.len() ==> rng_free(#[trigger] objs[k]),
    decreases objs.len() - i,
{
    if 0 <= i < objs.len() {
        lemma_rng_free_from(objs, i + 1);
    }
}

/// Geometry free of random draws leaves the random state alone.
#[verifier::rlimit(100)]
#[verifier::spinoff_prover]
pub proof fn lemma_hit_state(h: Hittable, r: Ray, ray_t: Interval, s: u64)
    requires
        rng_free(h),
    ensures
        hit_spec(h, r, ray_t, s).1 == s,
    decreases h, 1int, 0int,
{
    match h {
        Hittable::Translate(tr) => {
            let offset_r = crate::ray::ray_new(
                crate::vec3::vsub(r.origin, tr.offset),
                r.direction,
                r.time as int,
            );
            lemma_hit_state(*tr.object, offset_r, ray_t, s);
        },
        Hittable::RotateY(ro) => {
            let origin = crate::object::rotate_y_in(
                ro.sin_theta as int,
                ro.cos_theta as int,
                r.origin,
            );
            let direction = crate::object::rotate_y_in(
                ro.sin_theta as int,
                ro.cos_theta as int,
                r.direction,
            );
            let rotated = crate::ray::ray_new(origin, direction, r.time as int);
            lemma_hit_state(*ro.object, rotated, ray_t, s);
        },
        Hittable::List(l) => {
            lemma_scan_state(l.objects@, 0, r, ray_t.min, ray_t.max, None, s);
        },
        Hittable::Bvh(node) => {
            assert(opt_rng_free(node.left) && opt_rng_free(node.right));
            if aabb_hit(node.bbox, r, ray_t) {
                match node.left {
                    Some(lft) => {
                        assert(rng_free(*lft));
                        lemma_hit_state(*lft, r, ray_t, s);
                    },
                    None => {},
                }
                let left = match node.left {
                    Some(lft) => hit_spec(*lft, r, ray_t, s),
                    None => (None, s),
                };
                let new_max = match left.0 {
                    Some(rec) => rec.t,
                    None => ray_t.max,
                };
                match node.right {
                    Some(rgt) => {
                        assert(rng_free(*rgt));
                        lemma_hit_state(
                            *rgt,
                            r,
                            Interval { min: ray_t.min, max: new_max },
                            left.1,
                        );
                    },
                    None => {},
                }
            }
        },
        _ => {},
    }
}

/// A scan over geometry free of random draws leaves the state alone.
pub proof fn lemma_scan_state(
    objs: Seq<Hittable>,
    i: int,
    r: Ray,
    lo: i64,
    c: i64,
    b: Option<HitRecord>,
    s: u64,
)
    requires
        rng_free_from(objs, i),
    ensures
        crate::object::list_hit_spec(objs, i, r, lo, c, b, s).1 == s,
    decreases objs, 0int, objs.len() - i,
{
    if 0 <= i < objs.len() {
        lemma_hit_state(objs[i], r, Interval { min: lo, max: c }, s);
        let step = hit_spec(objs[i], r, Interval { min: lo, max: c }, s);
        match step.0 {
            None => lemma_scan_state(objs, i + 1, r, lo, c, b, step.1),
            Some(rec) => lemma_scan_state(objs, i + 1, r, lo, rec.t, Some(rec), step.1),
        }
    }
}

/// Widening the closing bound of the slab test keeps a hit a hit.
pub proof fn lemma_aabb_hit_mono(b: AABB, r: Ray, lo: i64, h1: i64, h2: i64)
    requires
        h1 <= h2,
        aabb_hit(b, r, Interval { min: lo, max: h1 }),
    ensures
        aabb_hit(b, r, Interval { min: lo, max: h2 }),
{
}

/// A scan that starts from a best hit always ends with one.
pub proof fn lemma_scan_some(
    objs: Seq<Hittable>,
    i: int,
    r: Ray,
    lo: i64,
    c: i64,
    rec0: HitRecord,
    s: u64,
)
    ensures
        crate::object::list_hit_spec(objs, i, r, lo, c, Some(rec0), s).0 is Some,
    decreases objs, 0int, objs.len() - i,
{
    if 0 <= i < objs.len() {
        let step = hit_spec(objs[i], r, Interval { min: lo, max: c }, s);
        match step.0 {
            None => lemma_scan_some(objs, i + 1, r, lo, c, rec0, step.1),
            Some(rec) => lemma_scan_some(objs, i + 1, r, lo, rec.t, rec, step.1),
        }
    }
}

/// Carrying a best hit into a scan only changes what a missing scan
/// reports: the scan from nothing decides, and the carried hit stands in
/// when it finds nothing.
pub proof fn lemma_scan_carry(
    objs: Seq<Hittable>,
    i: int,
    r: Ray,
    lo: i64,
    c: i64,
    rec0: HitRecord,
    s: u64,
)
    requires
        rec0.t == c,
    ensures
        ({
            let q = crate::object::list_hit_spec(objs, i, r, lo, c, None, s);
            crate::object::list_hit_spec(objs, i, r, lo, c, Some(rec0), s) == (
                match q.0 {
                    Some(rec) => Some(rec),
                    None => Some(rec0),
                },
                q.1,
            )
        }),
    decreases objs, 0int, objs.len() - i,
{
    if 0 <= i < objs.len() {
        let step = hit_spec(objs[i], r, Interval { min: lo, max: c }, s);
        match step.0 {
            None => lemma_scan_carry(objs, i + 1, r, lo, c, rec0, step.1),
            Some(rec) => {
                lemma_scan_some(objs, i + 1, r, lo, rec.t, rec, step.1);
            },
        }
    }
}

/// Scanning past a prefix continues as a scan of the suffix alone.
pub proof fn lemma_scan_shift(
    l1: Seq<Hittable>,
    l2: Seq<Hittable>,
    j: int,
    r: Ray,
    lo: i64,
    c: i64,
    b: Option<HitRecord>,
    s: u64,
)
    requires
        0 <= j <= l2.len(),
    ensures
        crate::object::list_hit_spec(l1 + l2, l1.len() + j, r, lo, c, b, s)
            == crate::object::list_hit_spec(l2, j, r, lo, c, b, s),
    decreases l2.len() - j,
{
    if j < l2.len() {
        assert((l1 + l2)[l1.len() + j] == l2[j]);
        let step = hit_spec(l2[j], r, Interval { min: lo, max: c }, s);
        match step.0 {
            None => lemma_scan_shift(l1, l2, j + 1, r, lo, c, b, step.1),
            Some(rec) => lemma_scan_shift(l1, l2, j + 1, r, lo, rec.t, Some(rec), step.1),
        }
    }
}

/// A scan over a concatenation is the scan of the first part, resumed over
/// the second with the bound the first part reached.
pub proof fn lemma_scan_concat(
    l1: Seq<Hittable>,
    l2: Seq<Hittable>,
    i: int,
    r: Ray,
    lo: i64,
    c: i64,
    b: Option<HitRecord>,
    s: u64,
)
    requires
        0 <= i <= l1.len(),
        match b {
            Some(x) => x.t == c,
            None => true,
        },
    ensures
        ({
            let first = crate::object::list_hit_spec(l1, i, r, lo, c, b, s);
            let c1 = match first.0 {
                Some(x) => x.t,
                None => c,
            };
            crate::object::list_hit_spec(l1 + l2, i, r, lo, c, b, s)
                == crate::object::list_hit_spec(l2, 0, r, lo, c1, first.0, first.1)
        }),
    decreases l1.len() - i,
{
    if i == l1.len() {
        lemma_scan_shift(l1, l2, 0, r, lo, c, b, s);
    } else {
        assert((l1 + l2)[i] == l1[i]);
        let step = hit_spec(l1[i], r, Interval { min: lo, max: c }, s);
        match step.0 {
            None => {
                lemma_scan_concat(l1, l2, i + 1, r, lo, c, b, step.1);
                assert(crate::object::list_hit_spec(l1 + l2, i, r, lo, c, b, s)
                    == crate::object::list_hit_spec(l1 + l2, i + 1, r, lo, c, b, step.1));
                assert(crate::object::list_hit_spec(l1, i, r, lo, c, b, s)
                    == crate::object::list_hit_spec(l1, i + 1, r, lo, c, b, step.1));
            },
            Some(rec) => {
                lemma_scan_concat(l1, l2, i + 1, r, lo, rec.t, Some(rec), step.1);
                lemma_scan_some(l1, i + 1, r, lo, rec.t, rec, step.1);
                assert(crate::object::list_hit_spec(l1 + l2, i, r, lo, c, b, s)
                    == crate::object::list_hit_spec(l1 + l2, i + 1, r, lo, rec.t, Some(rec), step.1));
                assert(crate::object::list_hit_spec(l1, i, r, lo, c, b, s)
                    == crate::object::list_hit_spec(l1, i + 1, r, lo, rec.t, Some(rec), step.1));
            },
        }
    }
}

/// A scan over geometry that cannot hit within the bound finds nothing and
/// leaves the state alone.
pub proof fn lemma_scan_all_miss(
    objs: Seq<Hittable>,
    i: int,
    r: Ray,
    lo: i64,
    hi: i64,
    s: u64,
)
    requires
        rng_free_from(objs, i),
        forall|k: int, bd: i64, st: u64|
            i <= k < objs.len() && bd <= hi ==> (#[trigger] hit_spec(
                objs[k],
                r,
                Interval { min: lo, max: bd },
                st,
            )).0 is None,
    ensures
        crate::object::list_hit_spec(objs, i, r, lo, hi, None, s) == (
            None::<HitRecord>,
            s,
        ),
    decreases objs, 0int, objs.len() - i,
{
    if 0 <= i < objs.len() {
        lemma_hit_state(objs[i], r, Interval { min: lo, max: hi }, s);
        lemma_scan_all_miss(objs, i + 1, r, lo, hi, s);
    }
}

/// A scan of a single piece of geometry is just its hit.
pub proof fn lemma_scan_single(obj: Hittable, r: Ray, lo: i64, hi: i64, s: u64)
    ensures
        crate::object::list_hit_spec(seq![obj], 0, r, lo, hi, None, s) == hit_spec(
            obj,
            r,
            Interval { min: lo, max: hi },
            s,
        ),
{
    let step = hit_spec(obj, r, Interval { min: lo, max: hi }, s);
    match step.0 {
        None => {
            assert(crate::object::list_hit_spec(seq![obj], 1, r, lo, hi, None, step.1) == (
                None::<HitRecord>,
                step.1,
            ));
        },
        Some(rec) => {
            assert(crate::object::list_hit_spec(seq![obj], 1, r, lo, rec.t, Some(rec), step.1)
                == (Some(rec), step.1));
        },
    }
}

/// Every leaf of geometry free of random draws is itself free of them.
pub proof fn lemma_leaves_rng_free(h: Hittable)
    requires
        rng_free(h),
    ensures
        forall|k: int| 0 <= k < leaves(h).len() ==> rng_free(#[trigger] leaves(h)[k]),
    decreases h, 1int, 0int,
{
    match h {
        Hittable::Bvh(node) => {
            assert(opt_rng_free(node.left) && opt_rng_free(node.right));
            let ll = opt_leaves(node.left);
            let rl = opt_leaves(node.right);
            match node.left {
                Some(lft) => {
                    assert(rng_free(*lft));
                    lemma_leaves_rng_free(*lft);
                    assert(ll == leaves(*lft));
                },
                None => {
                    assert(ll =~= Seq::<Hittable>::empty());
                },
            }
            match node.right {
                Some(rgt) => {
                    assert(rng_free(*rgt));
                    lemma_leaves_rng_free(*rgt);
                    assert(rl == leaves(*rgt));
                },
                None => {
                    assert(rl =~= Seq::<Hittable>::empty());
                },
            }
            assert(leaves(h) == ll + rl);
            assert forall|k: int| 0 <= k < leaves(h).len() implies rng_free(
                #[trigger] leaves(h)[k],
            ) by {
                if k < ll.len() {
                    assert(leaves(h)[k] == ll[k]);
                } else {
                    assert(leaves(h)[k] == rl[k - ll.len()]);
                }
            }
        },
        _ => {
            assert(leaves(h) =~= seq![h]);
        },
    }
}

/// Covering: every node of a tree has a box that the ray strikes whenever
/// it strikes any leaf below the node, over any parameter interval. The
/// equivalence of tree traversal and linear scan holds for rays the tree
/// covers this way.
pub open spec fn covers(h: Hittable, r: Ray) -> bool
    decreases h, 1int, 0int,
{
    match h {
        Hittable::Bvh(node) => {
            (forall|k: int, lo: i64, hi: i64, st: u64|
                0 <= k < leaves(h).len() && (#[trigger] hit_spec(
                    leaves(h)[k],
                    r,
                    Interval { min: lo, max: hi },
                    st,
                )).0 is Some ==> aabb_hit(node.bbox, r, Interval { min: lo, max: hi }))
                && opt_covers(node.left, r) && opt_covers(node.right, r)
        },
        _ => true,
    }
}

/// Covering for an optional child.
pub open spec fn opt_covers(o: Option<Box<Hittable>>, r: Ray) -> bool
    decreases o, 0int, 0int,
{
    match o {
        Some(b) => covers(*b, r),
        None => true,
    }
}

/// A piece of geometry is box-sound for a ray when its own bounding box
/// admits every parameter interval on which it reports a hit. This is the
/// one geometric fact the equivalence of traversal and scan rests on; it
/// is stated per leaf, and `lemma_covers_from_boxes` propagates it up a
/// hull-carrying tree.
pub open spec fn leaf_box_sound(leaf: Hittable, r: Ray) -> bool {
    forall|lo: i64, hi: i64, st: u64|
        (#[trigger] hit_spec(leaf, r, Interval { min: lo, max: hi }, st)).0 is Some ==> aabb_hit(
            bbox_spec(leaf),
            r,
            Interval { min: lo, max: hi },
        )
}

/// In a tree whose nodes carry the hulls of their children, box-soundness
/// of every leaf gives the covering property the traversal proof needs.
pub proof fn lemma_covers_from_boxes(h: Hittable, r: Ray)
    requires
        tree_boxed(h),
        forall|k: int| 0 <= k < leaves(h).len() ==> leaf_box_sound(#[trigger] leaves(h)[k], r),
    ensures
        covers(h, r),
    decreases h, 1int, 0int,
{
    match h {
        Hittable::Bvh(node) => {
            let lv = leaves(h);
            let ll = opt_leaves(node.left);
            let rl = opt_leaves(node.right);
            assert(lv == ll + rl);
            lemma_tree_box_contains_leaves(h);
            assert forall|k: int, lo: i64, hi: i64, st: u64|
                0 <= k < lv.len() && (#[trigger] hit_spec(
                    lv[k],
                    r,
                    Interval { min: lo, max: hi },
                    st,
                )).0 is Some implies aabb_hit(node.bbox, r, Interval { min: lo, max: hi }) by {
                assert(leaf_box_sound(lv[k], r));
                assert(aabb_hit(bbox_spec(lv[k]), r, Interval { min: lo, max: hi }));
                assert(crate::aabb::aabb_contains(bbox_spec(h), bbox_spec(lv[k])));
                crate::aabb::lemma_aabb_hit_contains(
                    node.bbox,
                    bbox_spec(lv[k]),
                    r,
                    Interval { min: lo, max: hi },
                );
            }
            assert(opt_tree_boxed(node.left) && opt_tree_boxed(node.right));
            match node.left {
                Some(lft) => {
                    assert(tree_boxed(*lft));
                    assert(ll == leaves(*lft));
                    assert forall|k: int| 0 <= k < leaves(*lft).len() implies leaf_box_sound(
                        #[trigger] leaves(*lft)[k],
                        r,
                    ) by {
                        assert(leaves(*lft)[k] == lv[k]);
                    }
                    lemma_covers_from_boxes(*lft, r);
                },
                None => {},
            }
            match node.right {
                Some(rgt) => {
                    assert(tree_boxed(*rgt));
                    assert(rl == leaves(*rgt));
                    assert forall|k: int| 0 <= k < leaves(*rgt).len() implies leaf_box_sound(
                        #[trigger] leaves(*rgt)[k],
                        r,
                    ) by {
                        assert(leaves(*rgt)[k] == lv[ll.len() + k]);
                    }
                    lemma_covers_from_boxes(*rgt, r);
                },
                None => {},
            }
        },
        _ => {},
    }
}

/// Tree traversal finds exactly what a linear scan over the tree's leaves
/// finds — the same hit, or the same absence of one, and the same random
/// state — for any parameter interval, any tree shape, and any geometry
/// that is free of random draws and whose node boxes cover their leaves
/// for this ray.
#[verifier::rlimit(100)]
#[verifier::spinoff_prover]
pub proof fn lemma_bvh_matches_linear_scan(h: Hittable, r: Ray, ray_t: Interval, s: u64)
    requires
        rng_free(h),
        covers(h, r),
    ensures
        hit_spec(h, r, ray_t, s) == crate::object::list_hit_spec(
            leaves(h),
            0,
            r,
            ray_t.min,
            ray_t.max,
            None,
            s,
        ),
    decreases h, 2int, 0int,
{
    if !(h is Bvh) {
        assert(leaves(h) =~= seq![h]);
        lemma_scan_single(h, r, ray_t.min, ray_t.max, s);
    } else {
        let node = h->Bvh_0;
        let lv = leaves(h);
        let ll = opt_leaves(node.left);
        let rl = opt_leaves(node.right);
        assert(lv == ll + rl);
        assert(opt_rng_free(node.left) && opt_rng_free(node.right));
        assert(opt_covers(node.left, r) && opt_covers(node.right, r));
        lemma_leaves_rng_free(h);
        if !aabb_hit(node.bbox, r, ray_t) {
            assert forall|k: int, bd: i64, st: u64|
                0 <= k < lv.len() && bd <= ray_t.max implies (#[trigger] hit_spec(
                lv[k],
                r,
                Interval { min: ray_t.min, max: bd },
                st,
            )).0 is None by {
                if hit_spec(lv[k], r, Interval { min: ray_t.min, max: bd }, st).0 is Some {
                    lemma_aabb_hit_mono(node.bbox, r, ray_t.min, bd, ray_t.max);
                }
            }
            lemma_rng_free_leaves_from(h);
            lemma_scan_all_miss(lv, 0, r, ray_t.min, ray_t.max, s);
        } else {
            let left = match node.left {
                Some(lft) => hit_spec(*lft, r, ray_t, s),
                None => (None::<HitRecord>, s),
            };
            match node.left {
                Some(lft) => {
                    assert(rng_free(*lft) && covers(*lft, r));
                    lemma_bvh_matches_linear_scan(*lft, r, ray_t, s);
                    assert(ll == leaves(*lft));
                },
                None => {
                    assert(ll =~= Seq::<Hittable>::empty());
                },
            }
            assert(left == crate::object::list_hit_spec(
                ll,
                0,
                r,
                ray_t.min,
                ray_t.max,
                None,
                s,
            ));
            let new_max = match left.0 {
                Some(rec) => rec.t,
                None => ray_t.max,
            };
            let narrowed = Interval { min: ray_t.min, max: new_max };
            let right = match node.right {
                Some(rgt) => hit_spec(*rgt, r, narrowed, left.1),
                None => (None::<HitRecord>, left.1),
            };
            match node.right {
                Some(rgt) => {
                    assert(rng_free(*rgt) && covers(*rgt, r));
                    lemma_bvh_matches_linear_scan(*rgt, r, narrowed, left.1);
                    assert(rl == leaves(*rgt));
                },
                None => {
                    assert(rl =~= Seq::<Hittable>::empty());
                },
            }
            assert(right == crate::object::list_hit_spec(
                rl,
                0,
                r,
                ray_t.min,
                new_max,
                None,
                left.1,
            ));
            lemma_scan_concat(ll, rl, 0, r, ray_t.min, ray_t.max, None, s);
            match left.0 {
                Some(rec0) => {
                    lemma_scan_carry(rl, 0, r, ray_t.min, new_max, rec0, left.1);
                },
                None => {},
            }
        }
    }
}

/// The equivalence for built trees: a tree whose nodes carry the hulls of
/// their children — as `BVHNode::new` ensures — matches the linear scan
/// whenever its leaves are free of random draws and box-sound for the ray.
pub proof fn lemma_built_bvh_matches_linear_scan(h: Hittable, r: Ray, ray_t: Interval, s: u64)
    requires
        rng_free(h),
        tree_boxed(h),
        forall|k: int| 0 <= k < leaves(h).len() ==> leaf_box_sound(#[trigger] leaves(h)[k], r),
    ensures
        hit_spec(h, r, ray_t, s) == crate::object::list_hit_spec(
            leaves(h),
            0,
            r,
            ray_t.min,
            ray_t.max,
            None,
            s,
        ),
{
    lemma_covers_from_boxes(h, r);
    lemma_bvh_matches_linear_scan(h, r, ray_t, s);
}

/// The leaves of a tree free of random draws form a sequence free of them.
proof fn lemma_rng_free_leaves_from(h: Hittable)
    requires
        rng_free(h),
    ensures
        rng_free_from(leaves(h), 0),
{
    lemma_leaves_rng_free(h);
    lemma_all_to_from(leaves(h), 0);
}

/// Pointwise freedom from random draws gives the recursive form.
proof fn lemma_all_to_from(objs: Seq<Hittable>, i: int)
    requires
        forall|k: int| 0 <= k < objs.len() ==> rng_free(#[trigger] objs[k]),
    ensures
        rng_free_from(objs, i),
    decreases objs.len() - i,
{
    if 0 <= i < objs.len() {
        lemma_all_to_from(objs, i + 1);
    }
}

} // verus!

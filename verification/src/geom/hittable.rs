//! The things a ray can hit: spheres, flat collections and the nodes of a
//! bounding-volume hierarchy.
use crate::fixed::Fixed;
use crate::geom::aabb::{surrounding_box, AABB};
use crate::geom::material::Hit;
use crate::geom::sphere::Sphere;
use crate::geom::vec3::Ray;
use vstd::prelude::*;

verus! {

/// Anything a ray can hit.
pub enum Hittable {
    /// A sphere, at rest or moving.
    Sphere(Sphere),
    /// A list of things, tested one after the other.
    Collection(Collection),
    /// Two things behind a common bounding box.
    BVHNode(BVHNode),
    /// Nothing: it is never hit and has no box.
    Ephemeral,
}

/// A flat list of things.
pub struct Collection(pub Vec<Hittable>);

/// An inner node of a bounding-volume hierarchy. `aabb` caches the box
/// around both children over the time window from `time0` to `time1`.
pub struct BVHNode {
    pub left: Box<Hittable>,
    pub right: Box<Hittable>,
    pub time0: Fixed,
    pub time1: Fixed,
    pub aabb: Option<AABB>,
}

/// The upper end of the search interval once `found` is known: the
/// parameter of the hit found so far, or `max_t` while there is none.
pub open spec fn limit_after(found: Option<Hit>, max_t: Fixed) -> Fixed {
    match found {
        Some(h) => h.t,
        None => max_t,
    }
}

/// `later` if it is a hit, else `earlier`.
pub open spec fn or_else(later: Option<Hit>, earlier: Option<Hit>) -> Option<Hit> {
    match later {
        Some(h) => Some(h),
        None => earlier,
    }
}

/// The box around two optional boxes; a missing box counts as absent, not
/// as unbounded.
pub open spec fn spec_union_boxes(a: Option<AABB>, b: Option<AABB>) -> Option<AABB> {
    match (a, b) {
        (Some(l), Some(r)) => Some(surrounding_box(&l, &r)),
        (Some(l), None) => Some(l),
        (None, Some(r)) => Some(r),
        (None, None) => None,
    }
}

/// The box around two optional boxes.
#[verifier::when_used_as_spec(spec_union_boxes)]
pub fn union_boxes(a: Option<AABB>, b: Option<AABB>) -> (r: Option<AABB>)
    ensures
        r == spec_union_boxes(a, b),
{
    match (a, b) {
        (Some(l), Some(r)) => Some(surrounding_box(&l, &r)),
        (Some(l), None) => Some(l),
        (None, Some(r)) => Some(r),
        (None, None) => None,
    }
}

/// The closest hit among `items`, found by scanning them in order: each
/// item is tested below the parameter of the closest hit before it.
pub open spec fn scan_hit(items: Seq<Hittable>, ray: &Ray, min_t: Fixed, max_t: Fixed) -> Option<
    Hit,
>
    decreases items,
{
    if items.len() == 0 {
        None
    } else {
        let before = scan_hit(items.drop_last(), ray, min_t, max_t);
        or_else(items.last().hit(ray, min_t, limit_after(before, max_t)), before)
    }
}

/// The box around the boxes of all `items`.
pub open spec fn scan_box(items: Seq<Hittable>, t0: Fixed, t1: Fixed) -> Option<AABB>
    decreases items,
{
    if items.len() == 0 {
        None
    } else {
        union_boxes(scan_box(items.drop_last(), t0, t1), items.last().bounding_box(t0, t1))
    }
}

impl Hittable {
    /// The closest hit of the ray at a parameter strictly between `min_t`
    /// and `max_t`.
    pub open spec fn spec_hit(&self, ray: &Ray, min_t: Fixed, max_t: Fixed) -> Option<Hit>
        decreases self,
    {
        match self {
            Hittable::Sphere(s) => s.hit(ray, min_t, max_t),
            Hittable::Collection(c) => scan_hit(c.0@, ray, min_t, max_t),
            Hittable::BVHNode(n) => {
                if n.aabb is Some && n.aabb->0.hit(ray, min_t, max_t) {
                    let hit_left = n.left.hit(ray, min_t, max_t);
                    let hit_right = n.right.hit(ray, min_t, limit_after(hit_left, max_t));
                    or_else(hit_right, hit_left)
                } else {
                    None
                }
            },
            Hittable::Ephemeral => None,
        }
    }

    /// The box around the thing over the time window from `t0` to `t1`.
    pub open spec fn spec_bounding_box(&self, t0: Fixed, t1: Fixed) -> Option<AABB>
        decreases self,
    {
        match self {
            Hittable::Sphere(s) => s.bounding_box(t0, t1),
            Hittable::Collection(c) => scan_box(c.0@, t0, t1),
            Hittable::BVHNode(n) => n.aabb,
            Hittable::Ephemeral => None,
        }
    }

    /// The closest hit of the ray at a parameter strictly between `min_t`
    /// and `max_t`, if there is one.
    #[verifier::when_used_as_spec(spec_hit)]
    pub fn hit(&self, ray: &Ray, min_t: Fixed, max_t: Fixed) -> (r: Option<Hit>)
        ensures
            r == self.spec_hit(ray, min_t, max_t),
        decreases self,
    {
        match self {
            Hittable::Sphere(s) => s.hit(ray, min_t, max_t),
            Hittable::Collection(c) => c.hit(ray, min_t, max_t),
            Hittable::BVHNode(n) => n.hit(ray, min_t, max_t),
            Hittable::Ephemeral => None,
        }
    }

    /// The box around the thing over the time window from `t0` to `t1`, if
    /// it has one.
    #[verifier::when_used_as_spec(spec_bounding_box)]
    pub fn bounding_box(&self, t0: Fixed, t1: Fixed) -> (r: Option<AABB>)
        ensures
            r == self.spec_bounding_box(t0, t1),
        decreases self,
    {
        match self {
            Hittable::Sphere(s) => s.bounding_box(t0, t1),
            Hittable::Collection(c) => c.bounding_box(t0, t1),
            Hittable::BVHNode(n) => n.bounding_box(t0, t1),
            Hittable::Ephemeral => None,
        }
    }
}

impl Collection {
    /// The collection of the given things.
    pub fn new(v: Vec<Hittable>) -> (r: Collection)
        ensures
            r.0 == v,
    {
        Collection(v)
    }

    /// The closest hit among the members.
    pub open spec fn spec_hit(&self, ray: &Ray, min_t: Fixed, max_t: Fixed) -> Option<Hit> {
        scan_hit(self.0@, ray, min_t, max_t)
    }

    /// The box around all members that have one.
    pub open spec fn spec_bounding_box(&self, t0: Fixed, t1: Fixed) -> Option<AABB> {
        scan_box(self.0@, t0, t1)
    }

    /// The closest hit among the members: each member is tested below the
    /// parameter of the closest hit found before it, so that the order of
    /// the members does not decide which surface is in front.
    #[verifier::when_used_as_spec(spec_hit)]
    pub fn hit(&self, ray: &Ray, min_t: Fixed, max_t: Fixed) -> (r: Option<Hit>)
        ensures
            r == self.spec_hit(ray, min_t, max_t),
        decreases self,
    {
        let mut current_hit: Option<Hit> = None;
        let mut i: usize = 0;
        while i < self.0.len()
            invariant
                i <= self.0.len(),
                current_hit == scan_hit(self.0@.take(i as int), ray, min_t, max_t),
            decreases self.0.len() - i,
        {
            let limit = match current_hit {
                Some(h) => h.t,
                None => max_t,
            };
            let found = self.0[i].hit(ray, min_t, limit);
            proof {
                assert(self.0@.take(i + 1).drop_last() == self.0@.take(i as int));
            }
            current_hit = match found {
                Some(h) => Some(h),
                None => current_hit,
            };
            i += 1;
        }
        proof {
            assert(self.0@.take(i as int) == self.0@);
        }
        current_hit
    }

    /// The box around all members that have one.
    #[verifier::when_used_as_spec(spec_bounding_box)]
    pub fn bounding_box(&self, t0: Fixed, t1: Fixed) -> (r: Option<AABB>)
        ensures
            r == self.spec_bounding_box(t0, t1),
        decreases self,
    {
        let mut bound: Option<AABB> = None;
        let mut i: usize = 0;
        while i < self.0.len()
            invariant
                i <= self.0.len(),
                bound == scan_box(self.0@.take(i as int), t0, t1),
            decreases self.0.len() - i,
        {
            let hit_bound = self.0[i].bounding_box(t0, t1);
            proof {
                assert(self.0@.take(i + 1).drop_last() == self.0@.take(i as int));
            }
            bound = union_boxes(bound, hit_bound);
            i += 1;
        }
        proof {
            assert(self.0@.take(i as int) == self.0@);
        }
        bound
    }
}

impl BVHNode {
    /// The node over `left` and `right`, with the box around both.
    pub open spec fn spec_new(left: Box<Hittable>, right: Box<Hittable>, time0: Fixed, time1: Fixed) -> BVHNode {
        BVHNode {
            left,
            right,
            time0,
            time1,
            aabb: union_boxes(left.bounding_box(time0, time1), right.bounding_box(time0, time1)),
        }
    }

    /// The closer of the children's hits, if the ray meets the node's box.
    pub open spec fn spec_hit(&self, ray: &Ray, min_t: Fixed, max_t: Fixed) -> Option<Hit> {
        if self.aabb is Some && self.aabb->0.hit(ray, min_t, max_t) {
            let hit_left = self.left.hit(ray, min_t, max_t);
            let hit_right = self.right.hit(ray, min_t, limit_after(hit_left, max_t));
            or_else(hit_right, hit_left)
        } else {
            None
        }
    }

    /// The cached box.
    pub open spec fn spec_bounding_box(&self, t0: Fixed, t1: Fixed) -> Option<AABB> {
        self.aabb
    }

    /// The node over `left` and `right`; its box is the one around the
    /// boxes that the children have over the time window.
    #[verifier::when_used_as_spec(spec_new)]
    pub fn new(left: Box<Hittable>, right: Box<Hittable>, time0: Fixed, time1: Fixed) -> (r:
        BVHNode)
        ensures
            r == BVHNode::spec_new(left, right, time0, time1),
    {
        let left_box = left.bounding_box(time0, time1);
        let right_box = right.bounding_box(time0, time1);
        let bound = union_boxes(left_box, right_box);
        BVHNode { left, right, time0, time1, aabb: bound }
    }

    /// Tests the node's box first. Only if the ray meets it are the
    /// children tested, the left one first and the right one below the left
    /// one's hit; the closer hit is returned. A node without a box is never
    /// hit.
    #[verifier::when_used_as_spec(spec_hit)]
    pub fn hit(&self, ray: &Ray, min_t: Fixed, max_t: Fixed) -> (r: Option<Hit>)
        ensures
            r == self.spec_hit(ray, min_t, max_t),
        decreases self,
    {
        if let Some(aabb) = self.aabb {
            if aabb.hit(ray, min_t, max_t) {
                let hit_left = self.left.hit(ray, min_t, max_t);
                let limit = match hit_left {
                    Some(h) => h.t,
                    None => max_t,
                };
                let hit_right = self.right.hit(ray, min_t, limit);
                return match hit_right {
                    Some(h) => Some(h),
                    None => hit_left,
                };
            }
        }
        None
    }

    /// The box computed when the node was made, whatever the window asked
    /// for.
    #[verifier::when_used_as_spec(spec_bounding_box)]
    pub fn bounding_box(&self, t0: Fixed, t1: Fixed) -> (r: Option<AABB>)
        ensures
            r == self.spec_bounding_box(t0, t1),
    {
        self.aabb
    }
}

/// Surrounding optional boxes is commutative and associative, and a missing
/// box changes nothing.
pub proof fn lemma_union_boxes_algebra(a: Option<AABB>, b: Option<AABB>, c: Option<AABB>)
    ensures
        union_boxes(a, None) == a,
        union_boxes(None, a) == a,
        union_boxes(a, b) == union_boxes(b, a),
        union_boxes(union_boxes(a, b), c) == union_boxes(a, union_boxes(b, c)),
{
}

/// The box around a list of one thing is that thing's box.
pub proof fn lemma_scan_box_single(h: Hittable, t0: Fixed, t1: Fixed)
    ensures
        scan_box(seq![h], t0, t1) == h.bounding_box(t0, t1),
{
    let one = seq![h];
    assert(one.drop_last().len() == 0);
    assert(scan_box(one.drop_last(), t0, t1) == None::<AABB>);
    assert(one.last() == h);
}

/// The box around a list put together from two lists surrounds the boxes
/// around the two.
pub proof fn lemma_scan_box_concat(a: Seq<Hittable>, b: Seq<Hittable>, t0: Fixed, t1: Fixed)
    ensures
        scan_box(a + b, t0, t1) == union_boxes(scan_box(a, t0, t1), scan_box(b, t0, t1)),
    decreases b.len(),
{
    if b.len() == 0 {
        assert(a + b == a);
    } else {
        assert((a + b).drop_last() == a + b.drop_last());
        lemma_scan_box_concat(a, b.drop_last(), t0, t1);
        lemma_union_boxes_algebra(
            scan_box(a, t0, t1),
            scan_box(b.drop_last(), t0, t1),
            b.last().bounding_box(t0, t1),
        );
    }
}

/// Taking one thing out of a list and surrounding its box with the box
/// around the rest gives the box around the whole list.
pub proof fn lemma_scan_box_remove(s: Seq<Hittable>, k: int, t0: Fixed, t1: Fixed)
    requires
        0 <= k < s.len(),
    ensures
        scan_box(s, t0, t1) == union_boxes(
            scan_box(s.remove(k), t0, t1),
            s[k].bounding_box(t0, t1),
        ),
{
    let head = s.take(k);
    let one = seq![s[k]];
    let tail = s.skip(k + 1);
    assert(s == (head + one) + tail);
    assert(s.remove(k) == head + tail);
    lemma_scan_box_single(s[k], t0, t1);
    lemma_scan_box_concat(head + one, tail, t0, t1);
    lemma_scan_box_concat(head, one, t0, t1);
    lemma_scan_box_concat(head, tail, t0, t1);
    lemma_union_boxes_algebra(scan_box(head, t0, t1), scan_box(one, t0, t1), scan_box(tail, t0, t1));
    lemma_union_boxes_algebra(scan_box(one, t0, t1), scan_box(tail, t0, t1), None);
    lemma_union_boxes_algebra(scan_box(head, t0, t1), scan_box(tail, t0, t1), scan_box(one, t0, t1));
}

/// The box around a list does not depend on the order of the list.
pub proof fn lemma_scan_box_reordered(a: Seq<Hittable>, b: Seq<Hittable>, t0: Fixed, t1: Fixed)
    requires
        a.to_multiset() == b.to_multiset(),
    ensures
        scan_box(a, t0, t1) == scan_box(b, t0, t1),
    decreases a.len(),
{
    a.to_multiset_ensures();
    b.to_multiset_ensures();
    if a.len() == 0 {
        assert(b.len() == 0);
    } else {
        let x = a.last();
        assert(a.contains(x));
        assert(a.to_multiset().count(x) > 0);
        assert(b.to_multiset().count(x) > 0);
        assert(b.contains(x));
        let k = choose|k: int| 0 <= k < b.len() && b[k] == x;
        assert(a.drop_last() == a.remove(a.len() - 1));
        assert(a.drop_last().to_multiset() == b.remove(k).to_multiset());
        lemma_scan_box_reordered(a.drop_last(), b.remove(k), t0, t1);
        lemma_scan_box_remove(b, k, t0, t1);
    }
}

} // verus!

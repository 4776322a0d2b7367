//! Why a hierarchy finds the same closest hit as a scan of the list it was
//! built of.
use crate::fixed::Fixed;
use crate::geom::aabb::{lemma_hit_widens, lemma_surrounding_box_contains, AABB};
use crate::geom::bvh::{is_bvh_of, is_median_split, Axis};
use crate::geom::hittable::{limit_after, or_else, scan_box, scan_hit, union_boxes, Hittable};
use crate::geom::material::Hit;
use crate::geom::sphere::{lemma_roots_ordered, Sphere};
use crate::geom::vec3::Ray;
use vstd::prelude::*;

verus! {

/// The parameter of a hit, if there is one.
pub open spec fn param(h: Option<Hit>) -> Option<Fixed> {
    match h {
        Some(x) => Some(x.t),
        None => None,
    }
}

/// The smaller of two optional parameters; a missing one does not count.
pub open spec fn nearer(a: Option<Fixed>, b: Option<Fixed>) -> Option<Fixed> {
    match (a, b) {
        (Some(x), Some(y)) => if y.raw < x.raw {
            Some(y)
        } else {
            Some(x)
        },
        (Some(x), None) => Some(x),
        (None, y) => y,
    }
}

/// The parameter `f` if it lies below `b`.
pub open spec fn below(f: Option<Fixed>, b: Fixed) -> Option<Fixed> {
    match f {
        Some(t) => if t.raw < b.raw {
            Some(t)
        } else {
            None
        },
        None => None,
    }
}

/// The smallest parameter at which the ray hits any of `items` between
/// `min_t` and `max_t`, each item asked on its own.
pub open spec fn closest(items: Seq<Hittable>, ray: Ray, min_t: Fixed, max_t: Fixed) -> Option<
    Fixed,
>
    decreases items.len(),
{
    if items.len() == 0 {
        None
    } else {
        nearer(
            closest(items.drop_last(), ray, min_t, max_t),
            param(items.last().hit(&ray, min_t, max_t)),
        )
    }
}

/// Whether the thing answers every upper bound from one first hit: asked
/// below `b`, it reports the hit that it reports when asked without a
/// bound, provided that one lies below `b`, and none otherwise.
pub open spec fn first_hit_rule(x: Hittable, ray: Ray, min_t: Fixed) -> bool {
    forall|b: Fixed|
        param(#[trigger] x.hit(&ray, min_t, b)) == below(
            param(x.hit(&ray, min_t, Fixed::max_value())),
            b,
        )
}

/// Whether the thing's box over the time window is conservative for the
/// ray: whenever the thing is hit within an interval, so is its box.
pub open spec fn box_covers(x: Hittable, ray: Ray, min_t: Fixed, t0: Fixed, t1: Fixed) -> bool {
    forall|b: Fixed|
        (#[trigger] x.hit(&ray, min_t, b)) is Some ==> x.bounding_box(t0, t1) is Some
            && x.bounding_box(t0, t1)->0.hit(&ray, min_t, b)
}

/// Whether every one of `items` follows the first-hit rule and has a
/// conservative box.
pub open spec fn all_regular(items: Seq<Hittable>, ray: Ray, min_t: Fixed, t0: Fixed, t1: Fixed) -> bool {
    forall|k: int|
        0 <= k < items.len() ==> first_hit_rule(#[trigger] items[k], ray, min_t) && box_covers(
            items[k],
            ray,
            min_t,
            t0,
            t1,
        )
}

/// A sphere follows the first-hit rule: of its two roots it reports the
/// first that lies in the interval, and the roots are ordered.
pub proof fn lemma_sphere_first_hit_rule(s: Sphere, ray: Ray, min_t: Fixed)
    ensures
        first_hit_rule(Hittable::Sphere(s), ray, min_t),
{
    lemma_roots_ordered(s, ray);
}

/// The placeholder that is never hit follows the first-hit rule and has a
/// conservative box.
pub proof fn lemma_ephemeral_regular(ray: Ray, min_t: Fixed, t0: Fixed, t1: Fixed)
    ensures
        first_hit_rule(Hittable::Ephemeral, ray, min_t),
        box_covers(Hittable::Ephemeral, ray, min_t, t0, t1),
{
}

/// Taking the nearer of parameters is commutative and associative.
pub proof fn lemma_nearer_algebra(a: Option<Fixed>, b: Option<Fixed>, c: Option<Fixed>)
    ensures
        nearer(a, None) == a,
        nearer(a, b) == nearer(b, a),
        nearer(nearer(a, b), c) == nearer(a, nearer(b, c)),
{
}

/// The closest parameter over a list put together from two lists is the
/// nearer of the closest over each.
pub proof fn lemma_closest_concat(
    a: Seq<Hittable>,
    b: Seq<Hittable>,
    ray: Ray,
    min_t: Fixed,
    max_t: Fixed,
)
    ensures
        closest(a + b, ray, min_t, max_t) == nearer(
            closest(a, ray, min_t, max_t),
            closest(b, ray, min_t, max_t),
        ),
    decreases b.len(),
{
    if b.len() == 0 {
        assert(a + b == a);
    } else {
        assert((a + b).drop_last() == a + b.drop_last());
        lemma_closest_concat(a, b.drop_last(), ray, min_t, max_t);
        lemma_nearer_algebra(
            closest(a, ray, min_t, max_t),
            closest(b.drop_last(), ray, min_t, max_t),
            param(b.last().hit(&ray, min_t, max_t)),
        );
    }
}

/// The closest parameter over a list of one thing is that thing's own.
pub proof fn lemma_closest_single(h: Hittable, ray: Ray, min_t: Fixed, max_t: Fixed)
    ensures
        closest(seq![h], ray, min_t, max_t) == param(h.hit(&ray, min_t, max_t)),
{
    let one = seq![h];
    assert(one.drop_last().len() == 0);
    assert(closest(one.drop_last(), ray, min_t, max_t) == None::<Fixed>);
    assert(one.last() == h);
}

/// Taking one thing out of a list leaves the closest parameter the nearer
/// of that thing's and the rest's.
pub proof fn lemma_closest_remove(s: Seq<Hittable>, k: int, ray: Ray, min_t: Fixed, max_t: Fixed)
    requires
        0 <= k < s.len(),
    ensures
        closest(s, ray, min_t, max_t) == nearer(
            closest(s.remove(k), ray, min_t, max_t),
            param(s[k].hit(&ray, min_t, max_t)),
        ),
{
    let head = s.take(k);
    let one = seq![s[k]];
    let tail = s.skip(k + 1);
    assert(s == (head + one) + tail);
    assert(s.remove(k) == head + tail);
    lemma_closest_single(s[k], ray, min_t, max_t);
    lemma_closest_concat(head + one, tail, ray, min_t, max_t);
    lemma_closest_concat(head, one, ray, min_t, max_t);
    lemma_closest_concat(head, tail, ray, min_t, max_t);
    let ch = closest(head, ray, min_t, max_t);
    let co = closest(one, ray, min_t, max_t);
    let ct = closest(tail, ray, min_t, max_t);
    lemma_nearer_algebra(ch, co, ct);
    lemma_nearer_algebra(co, ct, None);
    lemma_nearer_algebra(ch, ct, co);
}

/// The closest parameter does not depend on the order of the list.
pub proof fn lemma_closest_reordered(
    a: Seq<Hittable>,
    b: Seq<Hittable>,
    ray: Ray,
    min_t: Fixed,
    max_t: Fixed,
)
    requires
        a.to_multiset() == b.to_multiset(),
    ensures
        closest(a, ray, min_t, max_t) == closest(b, ray, min_t, max_t),
    decreases a.len(),
{
    a.to_multiset_ensures();
    b.to_multiset_ensures();
    if a.len() == 0 {
        assert(b.len() == 0);
    } else {
        let x = a.last();
        assert(a.contains(x));
        assert(a.to_multiset().count(x) > 0);
        assert(b.to_multiset().count(x) > 0);
        assert(b.contains(x));
        let k = choose|k: int| 0 <= k < b.len() && b[k] == x;
        assert(a.drop_last() == a.remove(a.len() - 1));
        assert(a.drop_last().to_multiset() == b.remove(k).to_multiset());
        lemma_closest_reordered(a.drop_last(), b.remove(k), ray, min_t, max_t);
        lemma_closest_remove(b, k, ray, min_t, max_t);
    }
}

/// Over things that follow the first-hit rule, the closest parameter below
/// a bound is the closest parameter without a bound, if that lies below
/// the bound.
pub proof fn lemma_closest_rule(items: Seq<Hittable>, ray: Ray, min_t: Fixed, max_t: Fixed)
    requires
        forall|k: int| 0 <= k < items.len() ==> first_hit_rule(#[trigger] items[k], ray, min_t),
    ensures
        closest(items, ray, min_t, max_t) == below(
            closest(items, ray, min_t, Fixed::max_value()),
            max_t,
        ),
    decreases items.len(),
{
    if items.len() > 0 {
        lemma_closest_rule(items.drop_last(), ray, min_t, max_t);
        let x = items.last();
        assert(first_hit_rule(x, ray, min_t));
        assert(param(x.hit(&ray, min_t, max_t)) == below(
            param(x.hit(&ray, min_t, Fixed::max_value())),
            max_t,
        ));
    }
}

/// A scan over things that follow the first-hit rule reports the closest
/// parameter, whatever the order of the list.
pub proof fn lemma_scan_is_closest(items: Seq<Hittable>, ray: Ray, min_t: Fixed, max_t: Fixed)
    requires
        forall|k: int| 0 <= k < items.len() ==> first_hit_rule(#[trigger] items[k], ray, min_t),
    ensures
        param(scan_hit(items, &ray, min_t, max_t)) == closest(items, ray, min_t, max_t),
    decreases items.len(),
{
    if items.len() > 0 {
        lemma_scan_is_closest(items.drop_last(), ray, min_t, max_t);
        lemma_closest_rule(items.drop_last(), ray, min_t, max_t);
        let x = items.last();
        let before = scan_hit(items.drop_last(), &ray, min_t, max_t);
        assert(first_hit_rule(x, ray, min_t));
        let unbounded = param(x.hit(&ray, min_t, Fixed::max_value()));
        assert(param(x.hit(&ray, min_t, max_t)) == below(unbounded, max_t));
        assert(param(x.hit(&ray, min_t, limit_after(before, max_t))) == below(
            unbounded,
            limit_after(before, max_t),
        ));
    }
}

/// A scan finds its closest hit at the same parameter whatever the order
/// of the list, over things that follow the first-hit rule.
pub proof fn lemma_scan_order_independent(
    a: Seq<Hittable>,
    b: Seq<Hittable>,
    ray: Ray,
    min_t: Fixed,
    max_t: Fixed,
)
    requires
        a.to_multiset() == b.to_multiset(),
        forall|k: int| 0 <= k < a.len() ==> first_hit_rule(#[trigger] a[k], ray, min_t),
    ensures
        param(scan_hit(a, &ray, min_t, max_t)) == param(scan_hit(b, &ray, min_t, max_t)),
{
    a.to_multiset_ensures();
    b.to_multiset_ensures();
    assert forall|k: int| 0 <= k < b.len() implies first_hit_rule(#[trigger] b[k], ray, min_t) by {
        let x = b[k];
        assert(b.contains(x));
        assert(b.to_multiset().count(x) > 0);
        assert(a.to_multiset().count(x) > 0);
        assert(a.contains(x));
        let m = choose|m: int| 0 <= m < a.len() && a[m] == x;
        assert(first_hit_rule(a[m], ray, min_t));
    }
    lemma_scan_is_closest(a, ray, min_t, max_t);
    lemma_scan_is_closest(b, ray, min_t, max_t);
    lemma_closest_reordered(a, b, ray, min_t, max_t);
}

/// What a node reports when the ray meets its box: the nearer of what its
/// children report, given that the right child follows the first-hit
/// rule.
pub proof fn lemma_pair_is_nearer(
    left: Hittable,
    right: Hittable,
    ray: Ray,
    min_t: Fixed,
    max_t: Fixed,
)
    requires
        first_hit_rule(left, ray, min_t),
        first_hit_rule(right, ray, min_t),
    ensures
        ({
            let hit_left = left.hit(&ray, min_t, max_t);
            let hit_right = right.hit(&ray, min_t, limit_after(hit_left, max_t));
            param(or_else(hit_right, hit_left)) == nearer(
                param(hit_left),
                param(right.hit(&ray, min_t, max_t)),
            )
        }),
{
    let hit_left = left.hit(&ray, min_t, max_t);
    let unbounded = param(right.hit(&ray, min_t, Fixed::max_value()));
    assert(param(right.hit(&ray, min_t, max_t)) == below(unbounded, max_t));
    assert(param(right.hit(&ray, min_t, limit_after(hit_left, max_t))) == below(
        unbounded,
        limit_after(hit_left, max_t),
    ));
    assert(param(hit_left) == below(param(left.hit(&ray, min_t, Fixed::max_value())), max_t));
}

/// Every thing in a list with the same contents as a regular list is
/// regular.
pub proof fn lemma_regular_reordered(
    a: Seq<Hittable>,
    b: Seq<Hittable>,
    ray: Ray,
    min_t: Fixed,
    t0: Fixed,
    t1: Fixed,
)
    requires
        a.to_multiset() == b.to_multiset(),
        all_regular(b, ray, min_t, t0, t1),
    ensures
        all_regular(a, ray, min_t, t0, t1),
{
    a.to_multiset_ensures();
    b.to_multiset_ensures();
    assert forall|k: int| 0 <= k < a.len() implies first_hit_rule(#[trigger] a[k], ray, min_t)
        && box_covers(a[k], ray, min_t, t0, t1) by {
        let x = a[k];
        assert(a.contains(x));
        assert(a.to_multiset().count(x) > 0);
        assert(b.to_multiset().count(x) > 0);
        assert(b.contains(x));
        let m = choose|m: int| 0 <= m < b.len() && b[m] == x;
        assert(first_hit_rule(b[m], ray, min_t));
    }
}

/// A hierarchy built of regular things reports, for every upper bound, the
/// closest parameter over those things, and is itself regular.
pub proof fn lemma_bvh_is_closest(
    root: Hittable,
    items: Seq<Hittable>,
    ray: Ray,
    min_t: Fixed,
    t0: Fixed,
    t1: Fixed,
)
    requires
        is_bvh_of(root, items, t0, t1),
        all_regular(items, ray, min_t, t0, t1),
    ensures
        forall|b: Fixed|
            param(#[trigger] root.hit(&ray, min_t, b)) == closest(items, ray, min_t, b),
        first_hit_rule(root, ray, min_t),
        box_covers(root, ray, min_t, t0, t1),
    decreases items.len(),
{
    if items.len() == 0 {
    } else if items.len() == 1 {
        assert(items == seq![items[0]]);
        assert(first_hit_rule(items[0], ray, min_t));
        assert forall|b: Fixed|
            param(#[trigger] root.hit(&ray, min_t, b)) == closest(items, ray, min_t, b) by {
            lemma_closest_single(items[0], ray, min_t, b);
        }
    } else {
        let n = root->BVHNode_0;
        let (axis, lower, upper) = choose|axis: Axis, lower: Seq<Hittable>, upper: Seq<Hittable>|
            {
                &&& #[trigger] is_median_split(items, axis, lower, upper, t0, t1)
                &&& is_bvh_of(*n.left, lower, t0, t1)
                &&& is_bvh_of(*n.right, upper, t0, t1)
            };
        lemma_regular_reordered(lower + upper, items, ray, min_t, t0, t1);
        assert(all_regular(lower, ray, min_t, t0, t1)) by {
            assert forall|k: int| 0 <= k < lower.len() implies first_hit_rule(
                #[trigger] lower[k],
                ray,
                min_t,
            ) && box_covers(lower[k], ray, min_t, t0, t1) by {
                assert((lower + upper)[k] == lower[k]);
            }
        }
        assert(all_regular(upper, ray, min_t, t0, t1)) by {
            assert forall|k: int| 0 <= k < upper.len() implies first_hit_rule(
                #[trigger] upper[k],
                ray,
                min_t,
            ) && box_covers(upper[k], ray, min_t, t0, t1) by {
                assert((lower + upper)[lower.len() + k] == upper[k]);
            }
        }
        lemma_bvh_is_closest(*n.left, lower, ray, min_t, t0, t1);
        lemma_bvh_is_closest(*n.right, upper, ray, min_t, t0, t1);
        assert forall|b: Fixed|
            param(#[trigger] root.hit(&ray, min_t, b)) == closest(items, ray, min_t, b) by {
            lemma_node_is_closest(n, lower, upper, ray, min_t, b, t0, t1);
            lemma_closest_reordered(lower + upper, items, ray, min_t, b);
        }
        assert forall|b: Fixed|
            param(#[trigger] root.hit(&ray, min_t, b)) == below(
                param(root.hit(&ray, min_t, Fixed::max_value())),
                b,
            ) by {
            lemma_closest_rule(items, ray, min_t, b);
        }
    }
}

/// One node: with regular children that report the closest parameters of
/// their lists, the node reports the closest parameter of both lists.
proof fn lemma_node_is_closest(
    n: crate::geom::hittable::BVHNode,
    lower: Seq<Hittable>,
    upper: Seq<Hittable>,
    ray: Ray,
    min_t: Fixed,
    b: Fixed,
    t0: Fixed,
    t1: Fixed,
)
    requires
        n.aabb == union_boxes(n.left.bounding_box(t0, t1), n.right.bounding_box(t0, t1)),
        first_hit_rule(*n.left, ray, min_t),
        first_hit_rule(*n.right, ray, min_t),
        box_covers(*n.left, ray, min_t, t0, t1),
        box_covers(*n.right, ray, min_t, t0, t1),
        param(n.left.hit(&ray, min_t, b)) == closest(lower, ray, min_t, b),
        param(n.right.hit(&ray, min_t, b)) == closest(upper, ray, min_t, b),
    ensures
        param(Hittable::BVHNode(n).hit(&ray, min_t, b)) == closest(lower + upper, ray, min_t, b),
{
    lemma_closest_concat(lower, upper, ray, min_t, b);
    lemma_pair_is_nearer(*n.left, *n.right, ray, min_t, b);
    let lb = n.left.bounding_box(t0, t1);
    let rb = n.right.bounding_box(t0, t1);
    if n.left.hit(&ray, min_t, b) is Some {
        assert(lb is Some && lb->0.hit(&ray, min_t, b));
        if rb is Some {
            lemma_surrounding_box_contains(lb->0, rb->0);
        }
        lemma_box_holds_itself(lb->0);
        lemma_hit_widens(lb->0, n.aabb->0, ray, min_t, b, b);
    }
    if n.right.hit(&ray, min_t, b) is Some {
        assert(rb is Some && rb->0.hit(&ray, min_t, b));
        if lb is Some {
            lemma_surrounding_box_contains(lb->0, rb->0);
        }
        lemma_box_holds_itself(rb->0);
        lemma_hit_widens(rb->0, n.aabb->0, ray, min_t, b, b);
    }
}

/// A box holds itself.
proof fn lemma_box_holds_itself(b: AABB)
    ensures
        b.contains_box(&b),
{
}

/// The box around a list of things with conservative boxes is conservative:
/// if any of them is hit within an interval, so is the box around all.
pub proof fn lemma_scan_box_covers(
    items: Seq<Hittable>,
    ray: Ray,
    min_t: Fixed,
    max_t: Fixed,
    t0: Fixed,
    t1: Fixed,
)
    requires
        forall|k: int|
            0 <= k < items.len() ==> box_covers(#[trigger] items[k], ray, min_t, t0, t1),
        closest(items, ray, min_t, max_t) is Some,
    ensures
        scan_box(items, t0, t1) is Some,
        scan_box(items, t0, t1)->0.hit(&ray, min_t, max_t),
    decreases items.len(),
{
    if items.len() > 0 {
        let rest = items.drop_last();
        let x = items.last();
        let rest_box = scan_box(rest, t0, t1);
        let x_box = x.bounding_box(t0, t1);
        let all = scan_box(items, t0, t1);
        assert(box_covers(x, ray, min_t, t0, t1));
        if rest_box is Some && x_box is Some {
            lemma_surrounding_box_contains(rest_box->0, x_box->0);
        }
        if closest(rest, ray, min_t, max_t) is Some {
            lemma_scan_box_covers(rest, ray, min_t, max_t, t0, t1);
            lemma_box_holds_itself(rest_box->0);
            lemma_hit_widens(rest_box->0, all->0, ray, min_t, max_t, max_t);
        } else {
            assert(x.hit(&ray, min_t, max_t) is Some);
            lemma_box_holds_itself(x_box->0);
            lemma_hit_widens(x_box->0, all->0, ray, min_t, max_t, max_t);
        }
    }
}

/// A collection of regular things is itself regular, so that collections
/// may stand among the things a hierarchy is built of.
pub proof fn lemma_collection_regular(
    c: crate::geom::hittable::Collection,
    ray: Ray,
    min_t: Fixed,
    t0: Fixed,
    t1: Fixed,
)
    requires
        all_regular(c.0@, ray, min_t, t0, t1),
    ensures
        first_hit_rule(Hittable::Collection(c), ray, min_t),
        box_covers(Hittable::Collection(c), ray, min_t, t0, t1),
{
    let items = c.0@;
    let whole = Hittable::Collection(c);
    lemma_scan_is_closest(items, ray, min_t, Fixed::max_value());
    assert forall|b: Fixed|
        param(#[trigger] whole.hit(&ray, min_t, b)) == below(
            param(whole.hit(&ray, min_t, Fixed::max_value())),
            b,
        ) by {
        lemma_scan_is_closest(items, ray, min_t, b);
        lemma_closest_rule(items, ray, min_t, b);
    }
    assert forall|b: Fixed| (#[trigger] whole.hit(&ray, min_t, b)) is Some implies whole.bounding_box(
        t0,
        t1,
    ) is Some && whole.bounding_box(t0, t1)->0.hit(&ray, min_t, b) by {
        lemma_scan_is_closest(items, ray, min_t, b);
        lemma_scan_box_covers(items, ray, min_t, b, t0, t1);
    }
}

/// A hierarchy and a scan of the list it was built of find their closest
/// hits at the same parameter, and the one finds a hit exactly when the
/// other does, for every ray and every interval, provided that each thing
/// of the list follows the first-hit rule and has a conservative box.
pub proof fn lemma_bvh_hit_matches_scan(
    root: Hittable,
    items: Seq<Hittable>,
    ray: Ray,
    min_t: Fixed,
    max_t: Fixed,
    t0: Fixed,
    t1: Fixed,
)
    requires
        is_bvh_of(root, items, t0, t1),
        all_regular(items, ray, min_t, t0, t1),
    ensures
        param(root.hit(&ray, min_t, max_t)) == param(scan_hit(items, &ray, min_t, max_t)),
{
    lemma_bvh_is_closest(root, items, ray, min_t, t0, t1);
    lemma_scan_is_closest(items, ray, min_t, max_t);
}

} // verus!

//! Building a bounding-volume hierarchy by median splits on random axes.
use crate::fixed::Fixed;
use crate::geom::hittable::{
    lemma_scan_box_concat, lemma_scan_box_reordered, lemma_scan_box_single, scan_box, BVHNode,
    Hittable,
};
use rand::rngs::ThreadRng;
use rand::Rng;
use vstd::prelude::*;

verus! {

/// `rand::rngs::ThreadRng`, the generator of random numbers that each
/// thread owns. Nothing is known of its state.
#[verifier::external_type_specification]
#[verifier::external_body]
pub struct ExThreadRng(ThreadRng);

/// One of the three coordinate axes.
#[derive(Clone, Copy, Debug, PartialEq, Eq, Structural)]
pub enum Axis {
    X,
    Y,
    Z,
}

/// `Rng::gen_range` on `u32`: some number that is at least `low` and less
/// than `high`. The call panics unless `low < high`.
#[verifier::external_body]
fn gen_range_u32(rng: &mut ThreadRng, low: u32, high: u32) -> (r: u32)
    requires
        low < high,
    ensures
        low <= r < high,
{
    rng.gen_range(low, high)
}

impl Axis {
    /// The axis with the given number: 0 is X, 1 is Y, 2 is Z.
    pub fn from_index(i: u32) -> (r: Axis)
        requires
            i < 3,
        ensures
            i == 0 ==> r == Axis::X,
            i == 1 ==> r == Axis::Y,
            i == 2 ==> r == Axis::Z,
    {
        if i == 0 {
            Axis::X
        } else if i == 1 {
            Axis::Y
        } else {
            Axis::Z
        }
    }

    /// An axis drawn from `rng`; which one is up to the generator.
    pub fn random(rng: &mut ThreadRng) -> (r: Axis) {
        Axis::from_index(gen_range_u32(rng, 0, 3))
    }
}

/// The coordinate on `axis` of the lower corner of the thing's box over the
/// time window, or zero for a thing without a box.
pub open spec fn spec_min_on_axis(axis: Axis, h: &Hittable, t0: Fixed, t1: Fixed) -> Fixed {
    match h.bounding_box(t0, t1) {
        Some(b) => match axis {
            Axis::X => b.min.x,
            Axis::Y => b.min.y,
            Axis::Z => b.min.z,
        },
        None => Fixed::zero(),
    }
}

/// The key by which the builder orders things along `axis`.
#[verifier::when_used_as_spec(spec_min_on_axis)]
pub fn min_on_axis(axis: Axis, h: &Hittable, t0: Fixed, t1: Fixed) -> (r: Fixed)
    ensures
        r == spec_min_on_axis(axis, h, t0, t1),
{
    match h.bounding_box(t0, t1) {
        Some(b) => match axis {
            Axis::X => b.min.x(),
            Axis::Y => b.min.y(),
            Axis::Z => b.min.z(),
        },
        None => Fixed::zero(),
    }
}

/// Whether the keys of `items` on `axis` never decrease along the list.
pub open spec fn sorted_on_axis(items: Seq<Hittable>, axis: Axis, t0: Fixed, t1: Fixed) -> bool {
    forall|i: int, j: int|
        0 <= i <= j < items.len() ==> min_on_axis(axis, &items[i], t0, t1).raw <= min_on_axis(
            axis,
            &items[j],
            t0,
            t1,
        ).raw
}

/// `slice::sort_by_key` with `min_on_axis` as the key: afterwards the list
/// holds the same things as before, each as often as before, in an order
/// in which the keys never decrease.
#[verifier::external_body]
fn sort_on_axis(hittables: &mut Vec<Hittable>, axis: Axis, t0: Fixed, t1: Fixed)
    ensures
        final(hittables)@.to_multiset() == old(hittables)@.to_multiset(),
        sorted_on_axis(final(hittables)@, axis, t0, t1),
{
    hittables.sort_by_key(|h| min_on_axis(axis, h, t0, t1).raw);
}

/// Whether `lower` and `upper` are the two halves of `items` after
/// ordering them along `axis`: together they hold what `items` holds, in an
/// order in which the keys never decrease, and `lower` has half of the
/// things, rounded down.
pub open spec fn is_median_split(
    items: Seq<Hittable>,
    axis: Axis,
    lower: Seq<Hittable>,
    upper: Seq<Hittable>,
    t0: Fixed,
    t1: Fixed,
) -> bool {
    &&& lower.len() == items.len() / 2
    &&& lower.len() + upper.len() == items.len()
    &&& (lower + upper).to_multiset() == items.to_multiset()
    &&& sorted_on_axis(lower + upper, axis, t0, t1)
}

/// Whether `root` is a hierarchy that the builder can make of `items` over
/// the time window: nothing for no item, the item itself for one, and
/// otherwise a node whose box surrounds its children's boxes and whose
/// children are hierarchies of the lower and upper half of the items, put
/// in order along one of the axes.
pub open spec fn is_bvh_of(root: Hittable, items: Seq<Hittable>, t0: Fixed, t1: Fixed) -> bool
    decreases items.len(),
{
    if items.len() == 0 {
        root is Ephemeral
    } else if items.len() == 1 {
        root == items[0]
    } else {
        &&& root matches Hittable::BVHNode(n)
        &&& n == BVHNode::new(n.left, n.right, t0, t1)
        &&& exists|axis: Axis, lower: Seq<Hittable>, upper: Seq<Hittable>|
            {
                &&& #[trigger] is_median_split(items, axis, lower, upper, t0, t1)
                &&& is_bvh_of(*n.left, lower, t0, t1)
                &&& is_bvh_of(*n.right, upper, t0, t1)
            }
    }
}

/// Orders the things along `axis` and splits the list at the middle: the
/// first list holds the half with the smaller keys, rounded down, and the
/// second the rest.
pub fn split_on_axis(hittables: Vec<Hittable>, axis: Axis, t0: Fixed, t1: Fixed) -> (halves: (
    Vec<Hittable>,
    Vec<Hittable>,
))
    ensures
        is_median_split(hittables@, axis, halves.0@, halves.1@, t0, t1),
{
    let mut lower = hittables;
    let ghost items = lower@;
    sort_on_axis(&mut lower, axis, t0, t1);
    proof {
        items.to_multiset_ensures();
        lower@.to_multiset_ensures();
    }
    let ghost sorted = lower@;
    let point = lower.len() / 2;
    let upper = lower.split_off(point);
    assert(lower@ + upper@ == sorted);
    (lower, upper)
}

/// The box of a hierarchy is the box around all the things it was built of,
/// whatever axes the builder drew.
pub proof fn lemma_bvh_box(root: Hittable, items: Seq<Hittable>, t0: Fixed, t1: Fixed)
    requires
        is_bvh_of(root, items, t0, t1),
    ensures
        root.bounding_box(t0, t1) == scan_box(items, t0, t1),
    decreases items.len(),
{
    if items.len() == 0 {
    } else if items.len() == 1 {
        assert(items == seq![items[0]]);
        lemma_scan_box_single(items[0], t0, t1);
    } else {
        let n = root->BVHNode_0;
        let (axis, lower, upper) = choose|axis: Axis, lower: Seq<Hittable>, upper: Seq<Hittable>|
            {
                &&& #[trigger] is_median_split(items, axis, lower, upper, t0, t1)
                &&& is_bvh_of(*n.left, lower, t0, t1)
                &&& is_bvh_of(*n.right, upper, t0, t1)
            };
        lemma_bvh_box(*n.left, lower, t0, t1);
        lemma_bvh_box(*n.right, upper, t0, t1);
        lemma_scan_box_concat(lower, upper, t0, t1);
        lemma_scan_box_reordered(lower + upper, items, t0, t1);
    }
}

/// Builds a hierarchy over `hittables` for the time window from `t0` to
/// `t1`. No thing gives the placeholder that is never hit; one thing is
/// returned as it is; more are ordered along an axis drawn from `rng`,
/// split at the middle, and each half is built in the same way.
pub fn bvh_split_hittables(rng: &mut ThreadRng, hittables: Vec<Hittable>, t0: Fixed, t1: Fixed) -> (root: Hittable)
    ensures
        is_bvh_of(root, hittables@, t0, t1),
        root.bounding_box(t0, t1) == scan_box(hittables@, t0, t1),
    decreases hittables.len(),
{
    let mut hittables = hittables;
    let ghost items = hittables@;
    let root = if hittables.is_empty() {
        Hittable::Ephemeral
    } else if hittables.len() == 1 {
        match hittables.pop() {
            Some(h) => h,
            None => Hittable::Ephemeral,
        }
    } else {
        let axis = Axis::random(rng);
        let (lower, upper) = split_on_axis(hittables, axis, t0, t1);
        let left_root = bvh_split_hittables(rng, lower, t0, t1);
        let right_root = bvh_split_hittables(rng, upper, t0, t1);
        Hittable::BVHNode(BVHNode::new(Box::new(left_root), Box::new(right_root), t0, t1))
    };
    proof {
        lemma_bvh_box(root, items, t0, t1);
    }
    root
}

} // verus!

//! Axis-aligned bounding boxes and the slab test.
use crate::fixed::{lemma_mul_monotone, Fixed};
use crate::geom::vec3::{Ray, Vec3};
use vstd::prelude::*;

verus! {

/// An axis-aligned box, given by its two extreme corners.
#[derive(Clone, Copy, Debug, PartialEq, Eq, Structural)]
pub struct AABB {
    pub min: Vec3,
    pub max: Vec3,
}

/// The parameters at which a ray enters and leaves the slab between the
/// planes `lo` and `hi` of one axis. `origin` and `dir` are the ray's
/// components on that axis.
pub open spec fn slab(lo: Fixed, hi: Fixed, origin: Fixed, dir: Fixed) -> (Fixed, Fixed) {
    let inv_d = Fixed::one().div(dir);
    let t0 = lo.sub(origin).mul(inv_d);
    let t1 = hi.sub(origin).mul(inv_d);
    if inv_d.raw < 0 {
        (t1, t0)
    } else {
        (t0, t1)
    }
}

/// Whether every component of `a` is at most the same component of `b`.
pub open spec fn le_all(a: Vec3, b: Vec3) -> bool {
    a.x.raw <= b.x.raw && a.y.raw <= b.y.raw && a.z.raw <= b.z.raw
}

impl AABB {
    /// The box with corners `a` and `b`.
    pub open spec fn spec_new(a: Vec3, b: Vec3) -> AABB {
        AABB { min: a, max: b }
    }

    /// The parameter interval `(tmin, tmax)` intersected with the slabs of
    /// the first `n` axes.
    pub open spec fn interval_after(&self, ray: &Ray, tmin: Fixed, tmax: Fixed, n: nat) -> (
        Fixed,
        Fixed,
    )
        decreases n,
    {
        if n == 0 {
            (tmin, tmax)
        } else {
            let a = (n - 1) as usize;
            let before = self.interval_after(ray, tmin, tmax, (n - 1) as nat);
            let s = slab(
                self.min.axis(a),
                self.max.axis(a),
                ray.origin.axis(a),
                ray.direction.axis(a),
            );
            (before.0.max(s.0), before.1.min(s.1))
        }
    }

    /// Whether the ray passes through the box at some parameter strictly
    /// between `tmin` and `tmax`: the interval left after all three slabs is
    /// not empty.
    pub open spec fn spec_hit(&self, ray: &Ray, tmin: Fixed, tmax: Fixed) -> bool {
        let last = self.interval_after(ray, tmin, tmax, 3);
        last.0.raw < last.1.raw
    }

    /// Whether `other` lies inside this box.
    pub open spec fn contains_box(&self, other: &AABB) -> bool {
        le_all(self.min, other.min) && le_all(other.max, self.max)
    }

    /// The box moved by `d`.
    pub open spec fn translated(&self, d: Vec3) -> AABB {
        AABB { min: self.min.add(d), max: self.max.add(d) }
    }

    /// The box with its axes reordered: axis `i` becomes the first, `j` the
    /// second and `k` the third.
    pub open spec fn permuted(&self, i: usize, j: usize, k: usize) -> AABB {
        AABB { min: permuted(self.min, i, j, k), max: permuted(self.max, i, j, k) }
    }

    /// The box with corners `a` and `b`.
    #[verifier::when_used_as_spec(spec_new)]
    pub fn new(a: Vec3, b: Vec3) -> (r: AABB)
        ensures
            r == AABB::spec_new(a, b),
    {
        AABB { min: a, max: b }
    }

    /// The slab test: whether the ray passes through the box at a parameter
    /// strictly between `tmin` and `tmax`.
    #[verifier::when_used_as_spec(spec_hit)]
    pub fn hit(&self, ray: &Ray, tmin: Fixed, tmax: Fixed) -> (r: bool)
        ensures
            r == self.spec_hit(ray, tmin, tmax),
    {
        let mut lo = tmin;
        let mut hi = tmax;
        let mut a: usize = 0;
        while a < 3
            invariant
                a <= 3,
                (lo, hi) == self.interval_after(ray, tmin, tmax, a as nat),
                a > 0 ==> lo.raw < hi.raw,
            decreases 3 - a,
        {
            let inv_d = Fixed::one().div(ray.direction.axis(a));
            let mut t0 = self.min.axis(a).sub(ray.origin.axis(a)).mul(inv_d);
            let mut t1 = self.max.axis(a).sub(ray.origin.axis(a)).mul(inv_d);
            if inv_d.raw < 0 {
                let swapped = t0;
                t0 = t1;
                t1 = swapped;
            }
            lo = lo.max(t0);
            hi = hi.min(t1);
            if hi.raw <= lo.raw {
                proof {
                    lemma_interval_shrinks(*self, *ray, tmin, tmax, (a + 1) as nat, 3);
                }
                return false;
            }
            a += 1;
        }
        true
    }
}

/// The vector with its axes reordered: component `i` first, then `j`, then
/// `k`.
pub open spec fn permuted(v: Vec3, i: usize, j: usize, k: usize) -> Vec3 {
    Vec3 { x: v.axis(i), y: v.axis(j), z: v.axis(k) }
}

/// Whether `(i, j, k)` is a reordering of the three axes.
pub open spec fn is_axis_order(i: usize, j: usize, k: usize) -> bool {
    i < 3 && j < 3 && k < 3 && i != j && j != k && i != k
}

/// Whether the sum of `a` and `d` is representable on every axis.
pub open spec fn shift_is_exact(a: Vec3, d: Vec3) -> bool {
    &&& -crate::fixed::MAX_RAW <= a.x.raw + d.x.raw <= crate::fixed::MAX_RAW
    &&& -crate::fixed::MAX_RAW <= a.y.raw + d.y.raw <= crate::fixed::MAX_RAW
    &&& -crate::fixed::MAX_RAW <= a.z.raw + d.z.raw <= crate::fixed::MAX_RAW
}

/// The smallest box that holds both `box0` and `box1`.
pub open spec fn spec_surrounding_box(box0: &AABB, box1: &AABB) -> AABB {
    AABB {
        min: Vec3 {
            x: box0.min.x.min(box1.min.x),
            y: box0.min.y.min(box1.min.y),
            z: box0.min.z.min(box1.min.z),
        },
        max: Vec3 {
            x: box0.max.x.max(box1.max.x),
            y: box0.max.y.max(box1.max.y),
            z: box0.max.z.max(box1.max.z),
        },
    }
}

/// The smallest box that holds both `box0` and `box1`: the component-wise
/// minimum of the two lower corners and maximum of the two upper corners.
#[verifier::when_used_as_spec(spec_surrounding_box)]
pub fn surrounding_box(box0: &AABB, box1: &AABB) -> (r: AABB)
    ensures
        r == spec_surrounding_box(box0, box1),
        r.contains_box(box0),
        r.contains_box(box1),
{
    let small = Vec3::new(
        box0.min.x.min(box1.min.x),
        box0.min.y.min(box1.min.y),
        box0.min.z.min(box1.min.z),
    );
    let big = Vec3::new(
        box0.max.x.max(box1.max.x),
        box0.max.y.max(box1.max.y),
        box0.max.z.max(box1.max.z),
    );
    AABB::new(small, big)
}

/// Each further slab can only shrink the interval.
pub proof fn lemma_interval_shrinks(b: AABB, ray: Ray, tmin: Fixed, tmax: Fixed, n: nat, m: nat)
    requires
        n <= m,
    ensures
        b.interval_after(&ray, tmin, tmax, n).0.raw <= b.interval_after(&ray, tmin, tmax, m).0.raw,
        b.interval_after(&ray, tmin, tmax, m).1.raw <= b.interval_after(&ray, tmin, tmax, n).1.raw,
    decreases m,
{
    if n < m {
        lemma_interval_shrinks(b, ray, tmin, tmax, n, (m - 1) as nat);
    }
}

/// The interval left after the three slabs is the intersection of
/// `(tmin, tmax)` with each of them, whatever the order.
pub proof fn lemma_interval_closed_form(b: AABB, ray: Ray, tmin: Fixed, tmax: Fixed)
    ensures
        ({
            let sx = slab(b.min.x, b.max.x, ray.origin.x, ray.direction.x);
            let sy = slab(b.min.y, b.max.y, ray.origin.y, ray.direction.y);
            let sz = slab(b.min.z, b.max.z, ray.origin.z, ray.direction.z);
            b.interval_after(&ray, tmin, tmax, 3) == (
                tmin.max(sx.0).max(sy.0).max(sz.0),
                tmax.min(sx.1).min(sy.1).min(sz.1),
            )
        }),
{
    reveal_with_fuel(AABB::interval_after, 4);
}

/// A wider slab is entered no later and left no earlier.
pub proof fn lemma_slab_widens(
    lo: Fixed,
    hi: Fixed,
    wide_lo: Fixed,
    wide_hi: Fixed,
    origin: Fixed,
    dir: Fixed,
)
    requires
        wide_lo.raw <= lo.raw,
        hi.raw <= wide_hi.raw,
    ensures
        slab(wide_lo, wide_hi, origin, dir).0.raw <= slab(lo, hi, origin, dir).0.raw,
        slab(lo, hi, origin, dir).1.raw <= slab(wide_lo, wide_hi, origin, dir).1.raw,
{
    let inv_d = Fixed::one().div(dir);
    lemma_mul_monotone(wide_lo.sub(origin), lo.sub(origin), inv_d);
    lemma_mul_monotone(hi.sub(origin), wide_hi.sub(origin), inv_d);
}

/// A ray that passes through a box within an interval also passes through
/// every box that holds it, within every interval that ends no earlier.
pub proof fn lemma_hit_widens(
    small: AABB,
    big: AABB,
    ray: Ray,
    tmin: Fixed,
    tmax: Fixed,
    later: Fixed,
)
    requires
        big.contains_box(&small),
        tmax.raw <= later.raw,
        small.hit(&ray, tmin, tmax),
    ensures
        big.hit(&ray, tmin, later),
{
    lemma_interval_closed_form(small, ray, tmin, tmax);
    lemma_interval_closed_form(big, ray, tmin, later);
    lemma_slab_widens(small.min.x, small.max.x, big.min.x, big.max.x, ray.origin.x, ray.direction.x);
    lemma_slab_widens(small.min.y, small.max.y, big.min.y, big.max.y, ray.origin.y, ray.direction.y);
    lemma_slab_widens(small.min.z, small.max.z, big.min.z, big.max.z, ray.origin.z, ray.direction.z);
}

/// The box that surrounds two boxes holds each of them, and surrounding it
/// with either of them again changes nothing.
pub proof fn lemma_surrounding_box_contains(a: AABB, b: AABB)
    ensures
        surrounding_box(&a, &b).contains_box(&a),
        surrounding_box(&a, &b).contains_box(&b),
        surrounding_box(&surrounding_box(&a, &b), &a) == surrounding_box(&a, &b),
        surrounding_box(&surrounding_box(&a, &b), &b) == surrounding_box(&a, &b),
        surrounding_box(&surrounding_box(&a, &b), &surrounding_box(&a, &b)) == surrounding_box(
            &a,
            &b,
        ),
{
}

/// Surrounding is commutative and associative, and a box surrounds itself.
pub proof fn lemma_surrounding_box_algebra(a: AABB, b: AABB, c: AABB)
    ensures
        surrounding_box(&a, &a) == a,
        surrounding_box(&a, &b) == surrounding_box(&b, &a),
        surrounding_box(&surrounding_box(&a, &b), &c) == surrounding_box(
            &a,
            &surrounding_box(&b, &c),
        ),
{
}

/// The slab test does not depend on the order of the axes: reordering the
/// axes of the box and of the ray alike leaves the answer unchanged.
pub proof fn lemma_hit_axis_order(
    b: AABB,
    ray: Ray,
    tmin: Fixed,
    tmax: Fixed,
    i: usize,
    j: usize,
    k: usize,
)
    requires
        is_axis_order(i, j, k),
    ensures
        b.permuted(i, j, k).hit(
            &Ray {
                origin: permuted(ray.origin, i, j, k),
                direction: permuted(ray.direction, i, j, k),
                time: ray.time,
            },
            tmin,
            tmax,
        ) == b.hit(&ray, tmin, tmax),
{
    let pb = b.permuted(i, j, k);
    let pray = Ray {
        origin: permuted(ray.origin, i, j, k),
        direction: permuted(ray.direction, i, j, k),
        time: ray.time,
    };
    lemma_interval_closed_form(b, ray, tmin, tmax);
    lemma_interval_closed_form(pb, pray, tmin, tmax);
}

/// The slab test does not depend on where the scene stands: moving the box
/// and the ray's origin by the same vector leaves the answer unchanged, as
/// long as the moved corners and origin are representable.
pub proof fn lemma_hit_translation(b: AABB, ray: Ray, tmin: Fixed, tmax: Fixed, d: Vec3)
    requires
        shift_is_exact(b.min, d),
        shift_is_exact(b.max, d),
        shift_is_exact(ray.origin, d),
    ensures
        b.translated(d).hit(
            &Ray { origin: ray.origin.add(d), direction: ray.direction, time: ray.time },
            tmin,
            tmax,
        ) == b.hit(&ray, tmin, tmax),
{
    let tb = b.translated(d);
    let tray = Ray { origin: ray.origin.add(d), direction: ray.direction, time: ray.time };
    lemma_interval_closed_form(b, ray, tmin, tmax);
    lemma_interval_closed_form(tb, tray, tmin, tmax);
    assert(tb.min.x.sub(tray.origin.x) == b.min.x.sub(ray.origin.x));
    assert(tb.min.y.sub(tray.origin.y) == b.min.y.sub(ray.origin.y));
    assert(tb.min.z.sub(tray.origin.z) == b.min.z.sub(ray.origin.z));
    assert(tb.max.x.sub(tray.origin.x) == b.max.x.sub(ray.origin.x));
    assert(tb.max.y.sub(tray.origin.y) == b.max.y.sub(ray.origin.y));
    assert(tb.max.z.sub(tray.origin.z) == b.max.z.sub(ray.origin.z));
}

} // verus!

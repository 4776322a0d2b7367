//! Spheres, at rest or moving between two keyframes.
use crate::fixed::{
    lemma_div_has_negation, lemma_div_monotone, lemma_sqrt_bounds, lemma_square_nonnegative, Fixed,
};
use crate::geom::aabb::{surrounding_box, AABB};
use crate::geom::material::{Hit, Material};
use crate::geom::vec3::{lemma_dot_flip, Ray, Vec3};
use vstd::prelude::*;

verus! {

/// A value together with the instant at which it holds.
#[derive(Debug)]
pub struct Timed<A> {
    pub value: A,
    pub time: Fixed,
}

impl<A: Copy> Clone for Timed<A> {
    fn clone(&self) -> (r: Self)
        ensures
            r == *self,
    {
        Timed { value: self.value, time: self.time }
    }
}

impl<A: Copy> Copy for Timed<A> {

}

impl<A> Timed<A> {
    /// `value` at the instant `time`.
    pub fn new(value: A, time: Fixed) -> (r: Timed<A>)
        ensures
            r.value == value,
            r.time == time,
    {
        Timed { value, time }
    }
}

/// A sphere whose centre moves in a straight line from `center0` to
/// `center1` between their two instants.
#[derive(Clone, Copy, Debug)]
pub struct Sphere {
    pub center0: Timed<Vec3>,
    pub center1: Timed<Vec3>,
    pub radius: Fixed,
    pub material: Material,
}

/// Whether `t` lies strictly between `min_t` and `max_t`.
pub open spec fn within(t: Fixed, min_t: Fixed, max_t: Fixed) -> bool {
    min_t.raw < t.raw < max_t.raw
}

/// The sum of three squares is never negative.
pub proof fn lemma_length_squared_nonnegative(v: Vec3)
    ensures
        v.length_squared().raw >= 0,
{
    lemma_square_nonnegative(v.x);
    lemma_square_nonnegative(v.y);
    lemma_square_nonnegative(v.z);
}

impl Sphere {
    /// The sphere at rest at `center`.
    pub open spec fn spec_new(center: Vec3, radius: Fixed, material: Material) -> Sphere {
        Sphere {
            center0: Timed { value: center, time: Fixed::zero() },
            center1: Timed { value: center, time: Fixed::max_value() },
            radius,
            material,
        }
    }

    /// The centre at the instant `time`, interpolated between the keyframes:
    /// `c0 + ((time - t0) / (t1 - t0)) * (c1 - c0)`.
    pub open spec fn spec_center(&self, time: Fixed) -> Vec3 {
        self.center0.value.add(
            self.center1.value.sub(self.center0.value).scale(
                time.sub(self.center0.time).div(self.center1.time.sub(self.center0.time)),
            ),
        )
    }

    /// The discriminant of the quadratic `a t^2 + 2 half_b t + c = 0` whose
    /// roots are the parameters at which the ray meets the sphere.
    pub open spec fn discriminant(&self, ray: &Ray) -> Fixed {
        let oc = ray.origin.sub(self.center(ray.time));
        let a = ray.direction.length_squared();
        let half_b = oc.dot(&ray.direction);
        let c = oc.length_squared().sub(self.radius.mul(self.radius));
        half_b.mul(half_b).sub(a.mul(c))
    }

    /// The two roots of the quadratic, the smaller first, for a
    /// discriminant that is not negative.
    pub open spec fn roots(&self, ray: &Ray) -> (Fixed, Fixed) {
        let oc = ray.origin.sub(self.center(ray.time));
        let a = ray.direction.length_squared();
        let half_b = oc.dot(&ray.direction);
        let root = self.discriminant(ray).sqrt();
        (half_b.neg().sub(root).div(a), half_b.neg().add(root).div(a))
    }

    /// The hit record of the ray at parameter `t`: the point of the ray
    /// there and the normal `(point - centre) / radius`, turned against the
    /// ray.
    pub open spec fn hit_at(&self, ray: &Ray, t: Fixed) -> Hit {
        Hit::new(ray.at(t), self.outward_normal(ray, t), t, ray, self.material)
    }

    /// The normal that points away from the centre at the point of the ray
    /// at parameter `t`: `(point - centre) / radius`.
    pub open spec fn outward_normal(&self, ray: &Ray, t: Fixed) -> Vec3 {
        ray.at(t).sub(self.center(ray.time)).div(self.radius)
    }

    /// The hit at the smaller root if it lies strictly between `min_t` and
    /// `max_t`, else at the larger root if that one does, else none.
    pub open spec fn spec_hit(&self, ray: &Ray, min_t: Fixed, max_t: Fixed) -> Option<Hit> {
        let ts = self.roots(ray);
        if self.discriminant(ray).raw < 0 {
            None
        } else if within(ts.0, min_t, max_t) {
            Some(self.hit_at(ray, ts.0))
        } else if within(ts.1, min_t, max_t) {
            Some(self.hit_at(ray, ts.1))
        } else {
            None
        }
    }

    /// The box around the sphere at the instant `time`.
    pub open spec fn box_at(&self, time: Fixed) -> AABB {
        let r = Vec3::new(self.radius, self.radius, self.radius);
        AABB::new(self.center(time).sub(r), self.center(time).add(r))
    }

    /// The box around the sphere's positions at both ends of the window.
    pub open spec fn spec_bounding_box(&self, t0: Fixed, t1: Fixed) -> Option<AABB> {
        Some(surrounding_box(&self.box_at(t0), &self.box_at(t1)))
    }

    /// The sphere at rest at `center`.
    #[verifier::when_used_as_spec(spec_new)]
    pub fn new(center: Vec3, radius: Fixed, material: Material) -> (r: Sphere)
        ensures
            r == Sphere::spec_new(center, radius, material),
    {
        Sphere {
            center0: Timed { value: center, time: Fixed::zero() },
            center1: Timed { value: center, time: Fixed::max_value() },
            radius,
            material,
        }
    }

    /// The sphere that is at `center0` and at `center1` at their instants.
    pub fn new_moving(
        center0: Timed<Vec3>,
        center1: Timed<Vec3>,
        radius: Fixed,
        material: Material,
    ) -> (r: Sphere)
        ensures
            r == (Sphere { center0, center1, radius, material }),
    {
        Sphere { center0, center1, radius, material }
    }

    /// The centre at the instant `time`.
    #[verifier::when_used_as_spec(spec_center)]
    pub fn center(&self, time: Fixed) -> (r: Vec3)
        ensures
            r == self.spec_center(time),
    {
        self.center0.value.add(
            self.center1.value.sub(self.center0.value).scale(
                time.sub(self.center0.time).div(self.center1.time.sub(self.center0.time)),
            ),
        )
    }

    /// Where the ray meets the sphere at a parameter strictly between
    /// `min_t` and `max_t`. There is a hit exactly when the discriminant is
    /// not negative and one of the two roots lies in that range; the smaller
    /// root is taken when it does. The normal of the hit is the outward
    /// normal or its negation, whichever does not point along the ray.
    #[verifier::when_used_as_spec(spec_hit)]
    pub fn hit(&self, ray: &Ray, min_t: Fixed, max_t: Fixed) -> (r: Option<Hit>)
        ensures
            r == self.spec_hit(ray, min_t, max_t),
            self.roots(ray).0.raw <= self.roots(ray).1.raw,
            r is Some <==> self.discriminant(ray).raw >= 0 && (within(
                self.roots(ray).0,
                min_t,
                max_t,
            ) || within(self.roots(ray).1, min_t, max_t)),
            r matches Some(h) ==> {
                &&& within(h.t, min_t, max_t)
                &&& h.t == if within(self.roots(ray).0, min_t, max_t) {
                    self.roots(ray).0
                } else {
                    self.roots(ray).1
                }
                &&& h.point == ray.at(h.t)
                &&& h.front_face == (ray.direction.dot(&self.outward_normal(ray, h.t)).raw < 0)
                &&& h.normal == if h.front_face {
                    self.outward_normal(ray, h.t)
                } else {
                    self.outward_normal(ray, h.t).flip()
                }
                &&& h.material == self.material
                &&& ray.direction.dot(&h.normal).raw <= 0
            },
    {
        let oc = ray.origin.sub(self.center(ray.time));
        let a = ray.direction.length_squared();
        let half_b = oc.dot(&ray.direction);
        let c = oc.length_squared().sub(self.radius.mul(self.radius));
        let discriminant = half_b.mul(half_b).sub(a.mul(c));
        proof {
            lemma_sphere_hit(*self, *ray, min_t, max_t);
        }
        if discriminant.raw < 0 {
            None
        } else {
            let root = discriminant.sqrt();
            let t = half_b.neg().sub(root).div(a);
            if t.raw < max_t.raw && t.raw > min_t.raw {
                let point = ray.at(t);
                let outward_normal = point.sub(self.center(ray.time)).div(self.radius);
                return Some(Hit::new(point, outward_normal, t, ray, self.material));
            }
            let t = half_b.neg().add(root).div(a);
            if t.raw < max_t.raw && t.raw > min_t.raw {
                let point = ray.at(t);
                let outward_normal = point.sub(self.center(ray.time)).div(self.radius);
                return Some(Hit::new(point, outward_normal, t, ray, self.material));
            }
            None
        }
    }

    /// The box around the sphere over the time window from `t0` to `t1`.
    #[verifier::when_used_as_spec(spec_bounding_box)]
    pub fn bounding_box(&self, t0: Fixed, t1: Fixed) -> (r: Option<AABB>)
        ensures
            r == self.spec_bounding_box(t0, t1),
            r is Some,
    {
        let box0 = AABB::new(
            self.center(t0).sub(Vec3::new(self.radius, self.radius, self.radius)),
            self.center(t0).add(Vec3::new(self.radius, self.radius, self.radius)),
        );
        let box1 = AABB::new(
            self.center(t1).sub(Vec3::new(self.radius, self.radius, self.radius)),
            self.center(t1).add(Vec3::new(self.radius, self.radius, self.radius)),
        );
        Some(surrounding_box(&box0, &box1))
    }
}

/// The hit record at any parameter has a normal that does not point along
/// the ray.
pub proof fn lemma_hit_faces_ray(s: Sphere, ray: Ray, t: Fixed)
    ensures
        ray.direction.dot(&s.hit_at(&ray, t).normal).raw <= 0,
{
    let outward = s.outward_normal(&ray, t);
    let offset = ray.at(t).sub(s.center(ray.time));
    lemma_div_has_negation(offset.x, s.radius);
    lemma_div_has_negation(offset.y, s.radius);
    lemma_div_has_negation(offset.z, s.radius);
    lemma_dot_flip(ray.direction, outward);
}

/// What `Sphere::hit` finds, read off the two roots of the quadratic.
pub proof fn lemma_sphere_hit(s: Sphere, ray: Ray, min_t: Fixed, max_t: Fixed)
    ensures
        s.roots(&ray).0.raw <= s.roots(&ray).1.raw,
        s.hit(&ray, min_t, max_t) is Some <==> s.discriminant(&ray).raw >= 0 && (within(
            s.roots(&ray).0,
            min_t,
            max_t,
        ) || within(s.roots(&ray).1, min_t, max_t)),
        s.hit(&ray, min_t, max_t) matches Some(h) ==> {
            &&& within(h.t, min_t, max_t)
            &&& h.t == if within(s.roots(&ray).0, min_t, max_t) {
                s.roots(&ray).0
            } else {
                s.roots(&ray).1
            }
            &&& h == s.hit_at(&ray, h.t)
            &&& ray.direction.dot(&h.normal).raw <= 0
        },
{
    lemma_roots_ordered(s, ray);
    lemma_hit_faces_ray(s, ray, s.roots(&ray).0);
    lemma_hit_faces_ray(s, ray, s.roots(&ray).1);
}

/// The first root is never larger than the second.
pub proof fn lemma_roots_ordered(s: Sphere, ray: Ray)
    ensures
        s.roots(&ray).0.raw <= s.roots(&ray).1.raw,
{
    let oc = ray.origin.sub(s.center(ray.time));
    let a = ray.direction.length_squared();
    let half_b = oc.dot(&ray.direction);
    let root = s.discriminant(&ray).sqrt();
    lemma_length_squared_nonnegative(ray.direction);
    lemma_sqrt_bounds(s.discriminant(&ray));
    lemma_div_monotone(half_b.neg().sub(root), half_b.neg().add(root), a);
}

/// A sphere at rest has the same centre at every instant.
pub proof fn lemma_static_center(center: Vec3, radius: Fixed, material: Material, time: Fixed)
    requires
        center.x.raw > i64::MIN,
        center.y.raw > i64::MIN,
        center.z.raw > i64::MIN,
    ensures
        Sphere::new(center, radius, material).center(time) == center,
{
    let s = Sphere::new(center, radius, material);
    let k = time.sub(s.center0.time).div(s.center1.time.sub(s.center0.time));
    assert(0 * k.raw == 0);
}

} // verus!

//! Three-component vectors and rays.
use crate::fixed::{lemma_mul_neg, Fixed};
use vstd::prelude::*;

verus! {

/// A vector of three fixed-point components; it serves as a point, a
/// direction and a colour.
#[derive(Clone, Copy, Debug, PartialEq, Eq, Structural)]
pub struct Vec3 {
    pub x: Fixed,
    pub y: Fixed,
    pub z: Fixed,
}

impl Vec3 {
    /// The vector with all components zero.
    pub open spec fn spec_zero() -> Vec3 {
        Vec3 { x: Fixed::zero(), y: Fixed::zero(), z: Fixed::zero() }
    }

    /// The vector with the given components.
    pub open spec fn spec_new(x: Fixed, y: Fixed, z: Fixed) -> Vec3 {
        Vec3 { x, y, z }
    }

    /// Sum of the squared components.
    pub open spec fn spec_length_squared(&self) -> Fixed {
        self.x.mul(self.x).add(self.y.mul(self.y)).add(self.z.mul(self.z))
    }

    /// Euclidean length, rounded down.
    pub open spec fn spec_length(&self) -> Fixed {
        self.length_squared().sqrt()
    }

    /// The vector with every component negated.
    pub open spec fn spec_flip(&self) -> Vec3 {
        Vec3 { x: self.x.neg(), y: self.y.neg(), z: self.z.neg() }
    }

    /// Dot product.
    pub open spec fn spec_dot(&self, other: &Vec3) -> Fixed {
        self.x.mul(other.x).add(self.y.mul(other.y)).add(self.z.mul(other.z))
    }

    /// Cross product.
    pub open spec fn spec_cross(&self, other: &Vec3) -> Vec3 {
        Vec3 {
            x: self.y.mul(other.z).sub(self.z.mul(other.y)),
            y: self.z.mul(other.x).sub(self.x.mul(other.z)),
            z: self.x.mul(other.y).sub(self.y.mul(other.x)),
        }
    }

    /// Component-wise sum.
    pub open spec fn spec_add(self, rhs: Vec3) -> Vec3 {
        Vec3 { x: self.x.add(rhs.x), y: self.y.add(rhs.y), z: self.z.add(rhs.z) }
    }

    /// Component-wise difference.
    pub open spec fn spec_sub(self, rhs: Vec3) -> Vec3 {
        Vec3 { x: self.x.sub(rhs.x), y: self.y.sub(rhs.y), z: self.z.sub(rhs.z) }
    }

    /// Component-wise product.
    pub open spec fn spec_mul(self, rhs: Vec3) -> Vec3 {
        Vec3 { x: self.x.mul(rhs.x), y: self.y.mul(rhs.y), z: self.z.mul(rhs.z) }
    }

    /// Every component multiplied by `k`.
    pub open spec fn spec_scale(self, k: Fixed) -> Vec3 {
        Vec3 { x: self.x.mul(k), y: self.y.mul(k), z: self.z.mul(k) }
    }

    /// Every component divided by `k`.
    pub open spec fn spec_div(self, k: Fixed) -> Vec3 {
        Vec3 { x: self.x.div(k), y: self.y.div(k), z: self.z.div(k) }
    }

    /// Every component increased by `k`.
    pub open spec fn spec_add_scalar(self, k: Fixed) -> Vec3 {
        Vec3 { x: self.x.add(k), y: self.y.add(k), z: self.z.add(k) }
    }

    /// The vector divided by its own length. A vector whose length rounds to
    /// zero has no direction; its components are then divided by zero as
    /// `Fixed::div` defines it.
    pub open spec fn spec_unit(&self) -> Vec3 {
        self.div(self.length())
    }

    /// The component on axis 0, 1 or 2.
    pub open spec fn spec_axis(&self, a: usize) -> Fixed {
        if a == 0 {
            self.x
        } else if a == 1 {
            self.y
        } else {
            self.z
        }
    }

    /// The vector with all components zero.
    #[verifier::when_used_as_spec(spec_zero)]
    pub fn zero() -> (r: Vec3)
        ensures
            r == Vec3::spec_zero(),
    {
        Vec3 { x: Fixed::zero(), y: Fixed::zero(), z: Fixed::zero() }
    }

    /// The vector with the given components.
    #[verifier::when_used_as_spec(spec_new)]
    pub fn new(x: Fixed, y: Fixed, z: Fixed) -> (r: Vec3)
        ensures
            r == Vec3::spec_new(x, y, z),
    {
        Vec3 { x, y, z }
    }

    /// The vector whose components are the array's elements, in order.
    pub fn new_raw(data: [Fixed; 3]) -> (r: Vec3)
        ensures
            r == Vec3::new(data[0], data[1], data[2]),
    {
        Vec3 { x: data[0], y: data[1], z: data[2] }
    }

    /// Sum of the squared components.
    #[verifier::when_used_as_spec(spec_length_squared)]
    pub fn length_squared(&self) -> (r: Fixed)
        ensures
            r == self.spec_length_squared(),
    {
        self.x.mul(self.x).add(self.y.mul(self.y)).add(self.z.mul(self.z))
    }

    /// Euclidean length, rounded down.
    #[verifier::when_used_as_spec(spec_length)]
    pub fn length(&self) -> (r: Fixed)
        ensures
            r == self.spec_length(),
    {
        self.length_squared().sqrt()
    }

    /// The vector with every component negated.
    pub fn invert(&self) -> (r: Vec3)
        ensures
            r == self.flip(),
    {
        Vec3 { x: self.x.neg(), y: self.y.neg(), z: self.z.neg() }
    }

    /// First component.
    pub fn x(&self) -> (r: Fixed)
        ensures
            r == self.x,
    {
        self.x
    }

    /// Second component.
    pub fn y(&self) -> (r: Fixed)
        ensures
            r == self.y,
    {
        self.y
    }

    /// Third component.
    pub fn z(&self) -> (r: Fixed)
        ensures
            r == self.z,
    {
        self.z
    }

    /// The component on axis 0, 1 or 2.
    #[verifier::when_used_as_spec(spec_axis)]
    pub fn axis(&self, a: usize) -> (r: Fixed)
        requires
            a < 3,
        ensures
            r == self.spec_axis(a),
    {
        if a == 0 {
            self.x
        } else if a == 1 {
            self.y
        } else {
            self.z
        }
    }

    /// Dot product.
    #[verifier::when_used_as_spec(spec_dot)]
    pub fn dot(&self, other: &Vec3) -> (r: Fixed)
        ensures
            r == self.spec_dot(other),
    {
        self.x.mul(other.x).add(self.y.mul(other.y)).add(self.z.mul(other.z))
    }

    /// Cross product.
    #[verifier::when_used_as_spec(spec_cross)]
    pub fn cross(&self, other: &Vec3) -> (r: Vec3)
        ensures
            r == self.spec_cross(other),
    {
        Vec3::new(
            self.y.mul(other.z).sub(self.z.mul(other.y)),
            self.z.mul(other.x).sub(self.x.mul(other.z)),
            self.x.mul(other.y).sub(self.y.mul(other.x)),
        )
    }

    /// The vector divided by its own length.
    #[verifier::when_used_as_spec(spec_unit)]
    pub fn unit(&self) -> (r: Vec3)
        ensures
            r == self.spec_unit(),
    {
        self.div(self.length())
    }

    /// The vector with every component negated.
    #[verifier::when_used_as_spec(spec_flip)]
    pub fn flip(&self) -> (r: Vec3)
        ensures
            r == self.spec_flip(),
    {
        Vec3::new(self.x.neg(), self.y.neg(), self.z.neg())
    }

    /// Component-wise sum.
    #[verifier::when_used_as_spec(spec_add)]
    pub fn add(self, rhs: Vec3) -> (r: Vec3)
        ensures
            r == self.spec_add(rhs),
    {
        Vec3 { x: self.x.add(rhs.x), y: self.y.add(rhs.y), z: self.z.add(rhs.z) }
    }

    /// Component-wise difference.
    #[verifier::when_used_as_spec(spec_sub)]
    pub fn sub(self, rhs: Vec3) -> (r: Vec3)
        ensures
            r == self.spec_sub(rhs),
    {
        Vec3 { x: self.x.sub(rhs.x), y: self.y.sub(rhs.y), z: self.z.sub(rhs.z) }
    }

    /// Component-wise product.
    #[verifier::when_used_as_spec(spec_mul)]
    pub fn mul(self, rhs: Vec3) -> (r: Vec3)
        ensures
            r == self.spec_mul(rhs),
    {
        Vec3 { x: self.x.mul(rhs.x), y: self.y.mul(rhs.y), z: self.z.mul(rhs.z) }
    }

    /// Every component multiplied by `k`.
    #[verifier::when_used_as_spec(spec_scale)]
    pub fn scale(self, k: Fixed) -> (r: Vec3)
        ensures
            r == self.spec_scale(k),
    {
        Vec3 { x: self.x.mul(k), y: self.y.mul(k), z: self.z.mul(k) }
    }

    /// Every component divided by `k`.
    #[verifier::when_used_as_spec(spec_div)]
    pub fn div(self, k: Fixed) -> (r: Vec3)
        ensures
            r == self.spec_div(k),
    {
        Vec3 { x: self.x.div(k), y: self.y.div(k), z: self.z.div(k) }
    }

    /// Every component increased by `k`.
    #[verifier::when_used_as_spec(spec_add_scalar)]
    pub fn add_scalar(self, k: Fixed) -> (r: Vec3)
        ensures
            r == self.spec_add_scalar(k),
    {
        Vec3 { x: self.x.add(k), y: self.y.add(k), z: self.z.add(k) }
    }

    /// Adds `rhs` to the vector in place.
    pub fn add_assign(&mut self, rhs: Vec3)
        ensures
            *final(self) == old(self).add(rhs),
    {
        *self = self.add(rhs);
    }

    /// Adds `k` to every component in place.
    pub fn add_assign_scalar(&mut self, k: Fixed)
        ensures
            *final(self) == old(self).add_scalar(k),
    {
        *self = self.add_scalar(k);
    }

    /// Subtracts `rhs` from the vector in place.
    pub fn sub_assign(&mut self, rhs: Vec3)
        ensures
            *final(self) == old(self).sub(rhs),
    {
        *self = self.sub(rhs);
    }

    /// Multiplies the vector by `rhs` in place, component by component.
    pub fn mul_assign(&mut self, rhs: Vec3)
        ensures
            *final(self) == old(self).mul(rhs),
    {
        *self = self.mul(rhs);
    }

    /// Multiplies every component by `k` in place.
    pub fn scale_assign(&mut self, k: Fixed)
        ensures
            *final(self) == old(self).scale(k),
    {
        *self = self.scale(k);
    }

    /// Divides every component by `k` in place.
    pub fn div_assign(&mut self, k: Fixed)
        ensures
            *final(self) == old(self).div(k),
    {
        *self = self.div(k);
    }
}

/// Whether every component has a negation: none is the one raw value
/// below the symmetric range.
pub open spec fn has_negation(v: Vec3) -> bool {
    v.x.raw > i64::MIN && v.y.raw > i64::MIN && v.z.raw > i64::MIN
}

/// Flipping a factor negates the dot product, for a factor whose components
/// have negations.
pub proof fn lemma_dot_flip(a: Vec3, b: Vec3)
    requires
        has_negation(b),
    ensures
        a.dot(&b.flip()) == a.dot(&b).neg(),
{
    lemma_mul_neg(a.x, b.x);
    lemma_mul_neg(a.y, b.y);
    lemma_mul_neg(a.z, b.z);
}

/// A half-line `origin + t * direction`, cast at the instant `time`.
#[derive(Clone, Copy, Debug, PartialEq, Eq, Structural)]
pub struct Ray {
    pub origin: Vec3,
    pub direction: Vec3,
    pub time: Fixed,
}

impl Ray {
    /// The ray cast at time zero.
    pub open spec fn spec_new(origin: Vec3, direction: Vec3) -> Ray {
        Ray { origin, direction, time: Fixed::zero() }
    }

    /// The ray cast at the instant `at`.
    pub open spec fn spec_new_at(origin: Vec3, direction: Vec3, at: Fixed) -> Ray {
        Ray { origin, direction, time: at }
    }

    /// The point of the ray at parameter `t`.
    pub open spec fn spec_at(&self, t: Fixed) -> Vec3 {
        self.origin.add(self.direction.scale(t))
    }

    /// The ray cast at time zero.
    #[verifier::when_used_as_spec(spec_new)]
    pub fn new(origin: Vec3, direction: Vec3) -> (r: Ray)
        ensures
            r == Ray::spec_new(origin, direction),
    {
        Ray { origin, direction, time: Fixed::zero() }
    }

    /// The ray cast at the instant `at`.
    #[verifier::when_used_as_spec(spec_new_at)]
    pub fn new_at(origin: Vec3, direction: Vec3, at: Fixed) -> (r: Ray)
        ensures
            r == Ray::spec_new_at(origin, direction, at),
    {
        Ray { origin, direction, time: at }
    }

    /// The point of the ray at parameter `t`.
    #[verifier::when_used_as_spec(spec_at)]
    pub fn at(&self, t: Fixed) -> (r: Vec3)
        ensures
            r == self.spec_at(t),
    {
        self.origin.add(self.direction.scale(t))
    }
}

} // verus!

//! Plain image data: pixels, points, colours, and a sphere that can only
//! tell whether a ray meets it.
use crate::fixed::Fixed;
use vstd::prelude::*;
use vstd::std_specs::convert::FromSpecImpl;

pub use crate::geom::vec3::Vec3;

verus! {

/// Four bytes: red, green, blue and opacity.
#[derive(Clone, Copy)]
pub struct Pixel {
    pub data: [u8; 4],
}

/// A position in space.
#[derive(Clone, Copy)]
pub struct Point3(pub Vec3);

/// A colour; its channels are the vector's components.
#[derive(Clone, Copy)]
pub struct Color(pub Vec3);

/// A half-line from `origin` along `dir`.
pub struct Ray {
    pub origin: Point3,
    pub dir: Vec3,
}

/// A sphere.
pub struct Sphere {
    pub center: Point3,
    pub radius: Fixed,
}

/// The byte that stands for the level `v` of a channel: `v * 255.99`
/// without its fraction, limited to the range of a byte.
pub open spec fn spec_level(v: Fixed) -> u8 {
    v.mul(Fixed::from_ratio(25599, 100)).to_u8()
}

/// The byte that stands for the level `v` of a channel.
#[verifier::when_used_as_spec(spec_level)]
pub fn level(v: Fixed) -> (r: u8)
    ensures
        r == spec_level(v),
{
    v.mul(Fixed::from_ratio(25599, 100)).to_u8()
}

impl Pixel {
    /// The transparent black pixel.
    pub fn new() -> (p: Pixel)
        ensures
            p.data@ == seq![0u8, 0u8, 0u8, 0u8],
    {
        let p = Pixel { data: [0, 0, 0, 0] };
        assert(p.data@ =~= seq![0u8, 0u8, 0u8, 0u8]);
        p
    }

    /// The pixel with the given bytes.
    pub fn from_u8(r: u8, g: u8, b: u8, a: u8) -> (p: Pixel)
        ensures
            p.data@ == seq![r, g, b, a],
    {
        let p = Pixel { data: [r, g, b, a] };
        assert(p.data@ =~= seq![r, g, b, a]);
        p
    }

    /// The pixel whose bytes stand for the given levels, each meant to lie
    /// between zero and one.
    pub fn from_f64(r: Fixed, g: Fixed, b: Fixed, a: Fixed) -> (p: Pixel)
        ensures
            p.data@ == seq![level(r), level(g), level(b), level(a)],
    {
        Pixel::from_u8(level(r), level(g), level(b), level(a))
    }

    /// The opaque pixel of the given colour.
    pub fn from_color(color: &Color) -> (p: Pixel)
        ensures
            p.data@ == seq![
                level(color.0.x),
                level(color.0.y),
                level(color.0.z),
                level(Fixed::one()),
            ],
    {
        Pixel::from_f64(color.0.x, color.0.y, color.0.z, Fixed::one())
    }
}

impl Point3 {
    /// The point with the given coordinates.
    pub fn new(x: Fixed, y: Fixed, z: Fixed) -> (p: Point3)
        ensures
            p.0 == Vec3::new(x, y, z),
    {
        Point3(Vec3::new(x, y, z))
    }
}

impl From<Vec3> for Point3 {
    fn from(vec: Vec3) -> (p: Point3) {
        Point3(vec)
    }
}

impl FromSpecImpl<Vec3> for Point3 {
    open spec fn obeys_from_spec() -> bool {
        true
    }

    open spec fn from_spec(vec: Vec3) -> Point3 {
        Point3(vec)
    }
}

impl Color {
    /// The colour with the given channels.
    pub fn new(r: Fixed, g: Fixed, b: Fixed) -> (c: Color)
        ensures
            c.0 == Vec3::new(r, g, b),
    {
        Color(Vec3::new(r, g, b))
    }

    /// The red channel.
    pub fn r(&self) -> (v: Fixed)
        ensures
            v == self.0.x,
    {
        self.0.x
    }

    /// The green channel.
    pub fn g(&self) -> (v: Fixed)
        ensures
            v == self.0.y,
    {
        self.0.y
    }

    /// The blue channel.
    pub fn b(&self) -> (v: Fixed)
        ensures
            v == self.0.z,
    {
        self.0.z
    }
}

impl From<Vec3> for Color {
    fn from(vec: Vec3) -> (c: Color) {
        Color(vec)
    }
}

impl FromSpecImpl<Vec3> for Color {
    open spec fn obeys_from_spec() -> bool {
        true
    }

    open spec fn from_spec(vec: Vec3) -> Color {
        Color(vec)
    }
}

impl Ray {
    /// The ray from `origin` along `dir`.
    pub fn new(origin: Point3, dir: Vec3) -> (r: Ray)
        ensures
            r.origin == origin,
            r.dir == dir,
    {
        Ray { origin, dir }
    }
}

/// Something that a ray meets or misses.
pub trait Hittable {
    /// Whether the ray meets the thing.
    spec fn spec_hit_by(&self, ray: &Ray) -> bool;

    /// Whether the ray meets the thing.
    fn hit_by(&self, ray: &Ray) -> (r: bool)
        ensures
            r == self.spec_hit_by(ray),
    ;
}

impl Sphere {
    /// The sphere around `center`.
    pub fn new(center: Point3, radius: Fixed) -> (s: Sphere)
        ensures
            s.center == center,
            s.radius == radius,
    {
        Sphere { center, radius }
    }

    /// The discriminant `b^2 - 4 a c` of the quadratic whose roots are the
    /// parameters at which the ray's line meets the sphere.
    pub open spec fn discriminant(&self, ray: &Ray) -> Fixed {
        let oc = ray.origin.0.sub(self.center.0);
        let a = ray.dir.dot(&ray.dir);
        let b = Fixed::from_int(2).mul(oc.dot(&ray.dir));
        let c = oc.dot(&oc).sub(self.radius.mul(self.radius));
        b.mul(b).sub(Fixed::from_int(4).mul(a).mul(c))
    }
}

impl Hittable for Sphere {
    /// The line of the ray meets the sphere in two points: the
    /// discriminant is positive.
    open spec fn spec_hit_by(&self, ray: &Ray) -> bool {
        self.discriminant(ray).raw > 0
    }

    fn hit_by(&self, ray: &Ray) -> (r: bool) {
        let oc = ray.origin.0.sub(self.center.0);
        let a = ray.dir.dot(&ray.dir);
        let b = Fixed::from_int(2).mul(oc.dot(&ray.dir));
        let c = oc.dot(&oc).sub(self.radius.mul(self.radius));
        let discriminant = b.mul(b).sub(Fixed::from_int(4).mul(a).mul(c));
        discriminant.raw > 0
    }
}

} // verus!

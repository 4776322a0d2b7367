//! Surface colours.
use crate::fixed::Fixed;
use crate::geom::vec3::Vec3;
use vstd::prelude::*;

verus! {

/// A rule that gives a colour to the point `point` of a surface with the
/// surface coordinates `(u, v)`.
pub trait Texture {
    /// The colour at the given place.
    fn color(u: Fixed, v: Fixed, point: &Vec3) -> Vec3;
}

/// One colour everywhere.
#[derive(Clone, Copy, Debug, PartialEq, Eq, Structural)]
pub struct SolidColor {
    pub color: Vec3,
}

impl SolidColor {
    /// The texture of the colour with the given channels.
    pub fn new(r: Fixed, g: Fixed, b: Fixed) -> (s: SolidColor)
        ensures
            s.color == Vec3::new(r, g, b),
    {
        SolidColor { color: Vec3::new(r, g, b) }
    }
}

} // verus!

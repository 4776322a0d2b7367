//! A grid of eight-bit pixels.
use vstd::prelude::*;

verus! {

/// One pixel: red, green and blue levels.
#[derive(Debug, Clone, Copy, PartialEq, Eq, Structural)]
pub struct Pixel {
    pub r: u8,
    pub g: u8,
    pub b: u8,
}

impl Pixel {
    /// The colour of a pixel that nothing has been drawn on.
    pub open spec fn spec_new() -> Pixel {
        Pixel { r: 0, g: 8, b: 0 }
    }

    /// The colour of a pixel that nothing has been drawn on.
    #[verifier::when_used_as_spec(spec_new)]
    pub fn new() -> (p: Pixel)
        ensures
            p == Pixel::spec_new(),
    {
        Pixel { r: 0, g: 8, b: 0 }
    }
}

/// A grid of `height` rows of `width` pixels each.
pub struct Canvas {
    pub width: usize,
    pub height: usize,
    pub pixels: Vec<Vec<Pixel>>,
}

impl Canvas {
    /// Whether the grid has `height` rows and every row has `width` pixels.
    pub open spec fn wf(&self) -> bool {
        &&& self.pixels@.len() == self.height
        &&& forall|r: int|
            0 <= r < self.pixels@.len() ==> (#[trigger] self.pixels@[r]).len() == self.width
    }

    /// The pixel in row `x` and column `y`.
    pub open spec fn spec_at(&self, x: usize, y: usize) -> Pixel {
        self.pixels@[x as int]@[y as int]
    }

    /// A grid of `height` rows of `width` pixels, each of the colour that
    /// `Pixel::new` gives.
    pub fn new(height: usize, width: usize) -> (c: Canvas)
        ensures
            c.wf(),
            c.width == width,
            c.height == height,
            forall|x: usize, y: usize| x < height && y < width ==> c.spec_at(x, y) == Pixel::new(),
    {
        let mut cols: Vec<Vec<Pixel>> = Vec::with_capacity(height);
        let mut x: usize = 0;
        while x < height
            invariant
                x <= height,
                cols.len() == x,
                forall|r: int| 0 <= r < x ==> (#[trigger] cols@[r]).len() == width,
                forall|r: int, y: int|
                    0 <= r < x && 0 <= y < width ==> (#[trigger] cols@[r]@[y]) == Pixel::new(),
            decreases height - x,
        {
            let mut row: Vec<Pixel> = Vec::with_capacity(width);
            let mut y: usize = 0;
            while y < width
                invariant
                    y <= width,
                    row.len() == y,
                    forall|k: int| 0 <= k < y ==> (#[trigger] row@[k]) == Pixel::new(),
                decreases width - y,
            {
                row.push(Pixel::new());
                y += 1;
            }
            cols.push(row);
            x += 1;
        }
        Canvas { width, height, pixels: cols }
    }

    /// The pixel in row `x` and column `y`.
    pub fn at(&self, x: usize, y: usize) -> (p: &Pixel)
        requires
            self.wf(),
            x < self.height,
            y < self.width,
        ensures
            *p == self.spec_at(x, y),
    {
        assert(self.pixels@[x as int].len() == self.width);
        &self.pixels[x][y]
    }

    /// The pixel in row `x` and column `y`, to be overwritten. What is
    /// written through the reference is the only change to the grid.
    pub fn at_mut(&mut self, x: usize, y: usize) -> (p: &mut Pixel)
        requires
            old(self).wf(),
            x < old(self).height,
            y < old(self).width,
        ensures
            *p == old(self).spec_at(x, y),
            final(self).width == old(self).width,
            final(self).height == old(self).height,
            final(self).pixels@.len() == old(self).pixels@.len(),
            final(self).pixels@[x as int]@ == old(self).pixels@[x as int]@.update(
                y as int,
                *final(p),
            ),
            forall|r: int|
                0 <= r < old(self).pixels@.len() && r != x ==> final(self).pixels@[r] == old(
                    self,
                ).pixels@[r],
            final(self).wf(),
    {
        assert(self.pixels@[x as int].len() == self.width);
        &mut self.pixels[x][y]
    }
}

/// A triple of bytes.
#[derive(Debug, Clone, Copy, PartialEq, Eq, Structural)]
pub struct Vec3 {
    pub x: u8,
    pub y: u8,
    pub z: u8,
}

impl Vec3 {
    /// The triple `(x, y, z)`.
    pub fn new(x: u8, y: u8, z: u8) -> (v: Vec3)
        ensures
            v == (Vec3 { x, y, z }),
    {
        Vec3 { x, y, z }
    }
}

} // verus!

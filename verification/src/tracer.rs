//! The sky alone: a renderer without any scene.
use crate::canvas::{Canvas, Pixel};
use crate::data::level;
use crate::fixed::Fixed;
use crate::geom::vec3::{Ray, Vec3};
use vstd::prelude::*;

verus! {

/// The colour of the sky along `ray`: white and sky blue blended by
/// `t = 0.5 * y + 1`, where `y` is the vertical component of the unit
/// direction.
pub open spec fn spec_ray_color(ray: &Ray) -> Vec3 {
    let unit_direction = ray.direction.unit();
    let t = Fixed::from_ratio(1, 2).mul(unit_direction.y).add(Fixed::one());
    Vec3::new(Fixed::one(), Fixed::one(), Fixed::one()).scale(Fixed::one().sub(t)).add(
        Vec3::new(Fixed::from_ratio(1, 2), Fixed::from_ratio(7, 10), Fixed::one()).scale(t),
    )
}

/// The colour of the sky along `ray`.
#[verifier::when_used_as_spec(spec_ray_color)]
pub fn ray_color(ray: &Ray) -> (r: Vec3)
    ensures
        r == spec_ray_color(ray),
{
    let unit_direction = ray.direction.unit();
    let t = Fixed::from_ratio(1, 2).mul(unit_direction.y()).add(Fixed::one());
    Vec3::new(Fixed::one(), Fixed::one(), Fixed::one()).scale(Fixed::one().sub(t)).add(
        Vec3::new(Fixed::from_ratio(1, 2), Fixed::from_ratio(7, 10), Fixed::one()).scale(t),
    )
}

/// The ray from the origin through the viewport at column `i` of `width`
/// and row `j` of `height`. The viewport is four wide and two high, one
/// unit in front of the origin, with its lower left corner at
/// `(-2, -1, -1)`.
pub open spec fn spec_ray_through(i: usize, j: usize, width: usize, height: usize) -> Ray {
    let lower_left_corner = Vec3::new(
        Fixed::from_int(2).neg(),
        Fixed::one().neg(),
        Fixed::one().neg(),
    );
    let horizontal = Vec3::new(Fixed::from_int(4), Fixed::zero(), Fixed::zero());
    let vertical = Vec3::new(Fixed::zero(), Fixed::from_int(2), Fixed::zero());
    let u = Fixed::from_usize(i).div(Fixed::from_usize(width));
    let v = Fixed::from_usize(j).div(Fixed::from_usize(height));
    Ray::new(Vec3::zero(), lower_left_corner.add(horizontal.scale(u)).add(vertical.scale(v)))
}

/// The ray from the origin through the viewport at column `i` and row `j`.
#[verifier::when_used_as_spec(spec_ray_through)]
pub fn ray_through(i: usize, j: usize, width: usize, height: usize) -> (r: Ray)
    ensures
        r == spec_ray_through(i, j, width, height),
{
    let lower_left_corner = Vec3::new(
        Fixed::from_int(2).neg(),
        Fixed::one().neg(),
        Fixed::one().neg(),
    );
    let horizontal = Vec3::new(Fixed::from_int(4), Fixed::zero(), Fixed::zero());
    let vertical = Vec3::new(Fixed::zero(), Fixed::from_int(2), Fixed::zero());
    let origin = Vec3::zero();
    let u = Fixed::from_usize(i).div(Fixed::from_usize(width));
    let v = Fixed::from_usize(j).div(Fixed::from_usize(height));
    Ray::new(origin, lower_left_corner.add(horizontal.scale(u)).add(vertical.scale(v)))
}

/// The pixel that stands for a colour.
pub open spec fn pixel_of(color: Vec3) -> Pixel {
    Pixel { r: level(color.x), g: level(color.y), b: level(color.z) }
}

/// Whether the first `rows` rows from the end of the canvas, and the first
/// `cols` pixels of the row before them, show the sky.
pub open spec fn painted(canvas: &Canvas, rows: int, cols: int) -> bool {
    forall|j: usize, i: usize|
        j < canvas.height && i < canvas.width && (j >= canvas.height - rows || (j
            == canvas.height - rows - 1 && i < cols)) ==> #[trigger] canvas.spec_at(j, i)
            == pixel_of(ray_color(&ray_through(i, j, canvas.width, canvas.height)))
}

/// A canvas of `height` rows of `width` pixels that shows the sky: the
/// pixel in row `j` and column `i` has the colour of the ray through the
/// viewport there.
pub fn draw(height: usize, width: usize) -> (canvas: Canvas)
    ensures
        canvas.wf(),
        canvas.height == height,
        canvas.width == width,
        forall|j: usize, i: usize|
            j < height && i < width ==> #[trigger] canvas.spec_at(j, i) == pixel_of(
                ray_color(&ray_through(i, j, width, height)),
            ),
{
    let mut canvas = Canvas::new(height, width);
    let mut j: usize = height;
    while j > 0
        invariant
            j <= height,
            canvas.wf(),
            canvas.height == height,
            canvas.width == width,
            painted(&canvas, height - j, 0),
        decreases j,
    {
        j -= 1;
        let mut i: usize = 0;
        while i < width
            invariant
                j < height,
                i <= width,
                canvas.wf(),
                canvas.height == height,
                canvas.width == width,
                painted(&canvas, height - j - 1, i as int),
            decreases width - i,
        {
            let r = ray_through(i, j, width, height);
            let color = ray_color(&r);
            let p = Pixel { r: level(color.x()), g: level(color.y()), b: level(color.z()) };
            let ghost before = canvas;
            *canvas.at_mut(j, i) = p;
            proof {
                assert forall|jj: usize, ii: usize|
                    jj < canvas.height && ii < canvas.width && (jj >= canvas.height - (height - j
                        - 1) || (jj == canvas.height - (height - j - 1) - 1 && ii < i
                        + 1)) implies #[trigger] canvas.spec_at(jj, ii) == pixel_of(
                    ray_color(&ray_through(ii, jj, canvas.width, canvas.height)),
                ) by {
                    if jj == j && ii == i {
                    } else {
                        assert(canvas.spec_at(jj, ii) == before.spec_at(jj, ii));
                    }
                }
            }
            i += 1;
        }
    }
    canvas
}

} // verus!

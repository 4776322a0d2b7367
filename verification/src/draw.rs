//! The camera and the integrator that turns rays into pixels.
use crate::fixed::Fixed;
use crate::geom::hittable::Hittable;
use crate::geom::material::ScatterSample;
use crate::geom::vec3::{has_negation, Ray, Vec3};
use vstd::prelude::*;

verus! {

/// How many bounces a path may make before it counts as dark.
pub const MAX_DEPTH: u32 = 50;

/// How many paths are averaged into one pixel.
pub const SAMPLES_PER_PIXEL: u32 = 100;

/// The random draws that one camera ray consumes: a point `(x, y)` of the
/// unit disc for the lens and an instant of the shutter window.
#[derive(Clone, Copy, Debug, PartialEq, Eq, Structural)]
pub struct LensSample {
    pub x: Fixed,
    pub y: Fixed,
    pub time: Fixed,
}

/// The random draws that one path consumes: the offsets `du` and `dv` of
/// the ray within the pixel, each between zero and one, the draws for the
/// camera, and one draw for every bounce.
pub struct PathSample {
    pub du: Fixed,
    pub dv: Fixed,
    pub lens: LensSample,
    pub bounces: Vec<ScatterSample>,
}

/// An accumulated colour.
#[derive(Clone, Copy, Debug, PartialEq, Eq, Structural)]
pub struct Pixel(pub Vec3);

/// `v` limited to the range from `lower` to `upper`.
pub open spec fn spec_clamp(v: Fixed, lower: Fixed, upper: Fixed) -> Fixed {
    v.min(upper).max(lower)
}

/// `v` limited to the range from `lower` to `upper`.
#[verifier::when_used_as_spec(spec_clamp)]
pub fn clamp(v: Fixed, lower: Fixed, upper: Fixed) -> (r: Fixed)
    ensures
        r == spec_clamp(v, lower, upper),
{
    v.min(upper).max(lower)
}

/// The eight-bit level of a channel: the channel limited to the range from
/// zero to one, times 255, without its fraction.
pub open spec fn spec_quantize(v: Fixed) -> u8 {
    (clamp(v, Fixed::zero(), Fixed::one()).raw * 255 / 65536) as u8
}

/// The eight-bit level of a channel.
#[verifier::when_used_as_spec(spec_quantize)]
pub fn quantize(v: Fixed) -> (r: u8)
    ensures
        r == spec_quantize(v),
{
    let limited = clamp(v, Fixed::zero(), Fixed::one());
    let level: i64 = limited.raw * 255 / 65536;
    level as u8
}

impl Pixel {
    /// The four bytes of the pixel: each channel of the sum is divided by
    /// the number of samples, gamma-corrected by a square root and
    /// quantized; the fourth byte is opaque.
    pub open spec fn spec_as_rgb(&self, samples: u32) -> [u8; 4] {
        let scale = Fixed::one().div(Fixed::from_u32(samples));
        [
            quantize(self.0.x.mul(scale).sqrt()),
            quantize(self.0.y.mul(scale).sqrt()),
            quantize(self.0.z.mul(scale).sqrt()),
            255u8,
        ]
    }

    /// The four bytes of the pixel, averaged over `samples` samples.
    #[verifier::when_used_as_spec(spec_as_rgb)]
    pub fn as_rgb(&self, samples: u32) -> (r: [u8; 4])
        ensures
            r == self.spec_as_rgb(samples),
            r[3] == 255,
    {
        let scale = Fixed::one().div(Fixed::from_u32(samples));
        let r = self.0.x.mul(scale).sqrt();
        let g = self.0.y.mul(scale).sqrt();
        let b = self.0.z.mul(scale).sqrt();
        let ir = quantize(r);
        let ig = quantize(g);
        let ib = quantize(b);
        [ir, ig, ib, 255]
    }

    /// Adds the colour `rhs` to the sum.
    pub fn add_assign(&mut self, rhs: Pixel)
        ensures
            final(self).0 == old(self).0.add(rhs.0),
    {
        self.0 = self.0.add(rhs.0);
    }
}

/// A camera with a thin lens and a shutter that is open from `time0` to
/// `time1`.
#[derive(Clone, Copy, Debug, PartialEq, Eq, Structural)]
pub struct Camera {
    pub origin: Vec3,
    pub lower_left_corner: Vec3,
    pub horizontal: Vec3,
    pub vertical: Vec3,
    pub u: Vec3,
    pub v: Vec3,
    pub w: Vec3,
    pub lens_radius: Fixed,
    pub time0: Fixed,
    pub time1: Fixed,
}

impl Camera {
    /// The camera at `lookfrom` that looks at `lookat`. `tan_half_fov` is
    /// the tangent of half the vertical field of view, so the viewport at
    /// distance one is `2 * tan_half_fov` high and `aspect_ratio` times as
    /// wide. The basis is `w = unit(lookfrom - lookat)`,
    /// `u = unit(cross(vup, w))`, `v = cross(w, u)`; the viewport is scaled
    /// by `focus_dist` and its lower left corner is
    /// `origin - horizontal / 2 - vertical / 2 - focus_dist * w`.
    pub open spec fn spec_new(
        lookfrom: Vec3,
        lookat: Vec3,
        vup: Vec3,
        tan_half_fov: Fixed,
        aspect_ratio: Fixed,
        aperture: Fixed,
        focus_dist: Fixed,
        time0: Fixed,
        time1: Fixed,
    ) -> Camera {
        let viewport_height = Fixed::from_int(2).mul(tan_half_fov);
        let viewport_width = aspect_ratio.mul(viewport_height);
        let w = lookfrom.sub(lookat).unit();
        let u = vup.cross(&w).unit();
        let v = w.cross(&u);
        let horizontal = u.scale(focus_dist.mul(viewport_width));
        let vertical = v.scale(focus_dist.mul(viewport_height));
        Camera {
            origin: lookfrom,
            lower_left_corner: lookfrom.sub(horizontal.div(Fixed::from_int(2))).sub(
                vertical.div(Fixed::from_int(2)),
            ).sub(w.scale(focus_dist)),
            horizontal,
            vertical,
            u,
            v,
            w,
            lens_radius: aperture.div(Fixed::from_int(2)),
            time0,
            time1,
        }
    }

    /// The ray through the viewport at `(s, t)`: it starts on the lens, at
    /// the origin displaced by the lens sample scaled by the lens radius,
    /// aims at `lower_left_corner + s * horizontal + t * vertical`, and
    /// carries the sampled instant.
    pub open spec fn spec_cast_ray(&self, sample: &LensSample, s: Fixed, t: Fixed) -> Ray {
        let rd = Vec3::new(sample.x, sample.y, Fixed::zero()).scale(self.lens_radius);
        let offset = self.u.scale(rd.x).add(self.v.scale(rd.y));
        Ray::new_at(
            self.origin.add(offset),
            self.lower_left_corner.add(self.horizontal.scale(s)).add(self.vertical.scale(t)).sub(
                self.origin,
            ).sub(offset),
            sample.time,
        )
    }

    /// The camera at `lookfrom` that looks at `lookat` with `vup` upward.
    #[verifier::when_used_as_spec(spec_new)]
    pub fn new(
        lookfrom: Vec3,
        lookat: Vec3,
        vup: Vec3,
        tan_half_fov: Fixed,
        aspect_ratio: Fixed,
        aperture: Fixed,
        focus_dist: Fixed,
        time0: Fixed,
        time1: Fixed,
    ) -> (r: Camera)
        ensures
            r == Camera::spec_new(
                lookfrom,
                lookat,
                vup,
                tan_half_fov,
                aspect_ratio,
                aperture,
                focus_dist,
                time0,
                time1,
            ),
    {
        let h = tan_half_fov;
        let viewport_height = Fixed::from_int(2).mul(h);
        let viewport_width = aspect_ratio.mul(viewport_height);

        let w = lookfrom.sub(lookat).unit();
        let u = vup.cross(&w).unit();
        let v = w.cross(&u);

        let origin = lookfrom;
        let horizontal = u.scale(focus_dist.mul(viewport_width));
        let vertical = v.scale(focus_dist.mul(viewport_height));
        let lower_left_corner = origin.sub(horizontal.div(Fixed::from_int(2))).sub(
            vertical.div(Fixed::from_int(2)),
        ).sub(w.scale(focus_dist));
        let lens_radius = aperture.div(Fixed::from_int(2));
        Camera {
            origin,
            lower_left_corner,
            horizontal,
            vertical,
            u,
            v,
            w,
            lens_radius,
            time0,
            time1,
        }
    }

    /// The ray through the viewport at `(u, v)` for the given lens sample.
    #[verifier::when_used_as_spec(spec_cast_ray)]
    pub fn cast_ray(&self, sample: &LensSample, u: Fixed, v: Fixed) -> (r: Ray)
        ensures
            r == self.spec_cast_ray(sample, u, v),
    {
        let rd = Vec3::new(sample.x, sample.y, Fixed::zero()).scale(self.lens_radius);
        let offset = self.u.scale(rd.x()).add(self.v.scale(rd.y()));
        Ray::new_at(
            self.origin.add(offset),
            self.lower_left_corner.add(self.horizontal.scale(u)).add(self.vertical.scale(v)).sub(
                self.origin,
            ).sub(offset),
            sample.time,
        )
    }
}

/// A camera without aperture is a pinhole: every ray starts at its origin
/// and aims at the same point of the viewport, whatever the lens sample.
pub proof fn lemma_pinhole(c: Camera, sample: LensSample, s: Fixed, t: Fixed)
    requires
        c.lens_radius.raw == 0,
        has_negation(c.origin),
    ensures
        c.cast_ray(&sample, s, t).origin == c.origin,
        c.cast_ray(&sample, s, t).direction == c.lower_left_corner.add(c.horizontal.scale(s)).add(
            c.vertical.scale(t),
        ).sub(c.origin),
{
    assert(sample.x.raw * 0 == 0);
    assert(sample.y.raw * 0 == 0);
    assert(0 * 0 == 0);
    let rd = Vec3::new(sample.x, sample.y, Fixed::zero()).scale(c.lens_radius);
    assert(rd == Vec3::zero());
    assert(c.u.x.raw * 0 == 0 && c.u.y.raw * 0 == 0 && c.u.z.raw * 0 == 0);
    assert(c.v.x.raw * 0 == 0 && c.v.y.raw * 0 == 0 && c.v.z.raw * 0 == 0);
}

/// The colour of the sky in the direction of the ray: a blend of white and
/// sky blue by `t = 0.5 * (y + 1)`, where `y` is the vertical component of
/// the unit direction.
pub open spec fn spec_background(ray: &Ray) -> Vec3 {
    let unit = ray.direction.unit();
    let t = Fixed::from_ratio(1, 2).mul(unit.y.add(Fixed::one()));
    Vec3::new(Fixed::one(), Fixed::one(), Fixed::one()).scale(Fixed::one().sub(t)).add(
        Vec3::new(Fixed::from_ratio(1, 2), Fixed::from_ratio(7, 10), Fixed::one()).scale(t),
    )
}

/// The colour of the sky in the direction of the ray.
#[verifier::when_used_as_spec(spec_background)]
pub fn background(ray: &Ray) -> (r: Vec3)
    ensures
        r == spec_background(ray),
{
    let unit = ray.direction.unit();
    let t = Fixed::from_ratio(1, 2).mul(unit.y().add(Fixed::one()));
    Vec3::new(Fixed::one(), Fixed::one(), Fixed::one()).scale(Fixed::one().sub(t)).add(
        Vec3::new(Fixed::from_ratio(1, 2), Fixed::from_ratio(7, 10), Fixed::one()).scale(t),
    )
}

/// The smallest parameter at which a surface counts as hit; it keeps a
/// scattered ray from hitting the surface it starts on.
pub open spec fn spec_shadow_bias() -> Fixed {
    Fixed::from_ratio(1, 1000)
}

/// The smallest parameter at which a surface counts as hit.
#[verifier::when_used_as_spec(spec_shadow_bias)]
pub fn shadow_bias() -> (r: Fixed)
    ensures
        r == spec_shadow_bias(),
{
    Fixed::from_ratio(1, 1000)
}

/// The light that arrives along `ray` after at most `depth` bounces. With
/// no bounce left it is black. A ray that hits nothing sees the sky. A ray
/// that hits a surface is scattered with the draw `samples[depth - 1]`: an
/// absorbed ray is black, and a scattered one carries the light of the new
/// ray, one bounce less, times the attenuation.
pub open spec fn spec_ray_color(
    ray: &Ray,
    world: &Hittable,
    depth: u32,
    samples: Seq<ScatterSample>,
) -> Pixel
    decreases depth,
{
    if depth == 0 {
        Pixel(Vec3::zero())
    } else {
        match world.hit(ray, shadow_bias(), Fixed::max_value()) {
            Some(hit) => match hit.material.scatter(ray, &hit, &samples[depth - 1]) {
                Some(scatter) => Pixel(
                    scatter.attenuation.mul(
                        spec_ray_color(&scatter.scattered, world, (depth - 1) as u32, samples).0,
                    ),
                ),
                None => Pixel(Vec3::zero()),
            },
            None => Pixel(background(ray)),
        }
    }
}

/// The light that arrives along `ray` after at most `depth` bounces; black
/// for a depth of zero.
pub fn ray_color(ray: &Ray, world: &Hittable, depth: u32, samples: &Vec<ScatterSample>) -> (r:
    Pixel)
    requires
        samples.len() >= depth,
    ensures
        r == spec_ray_color(ray, world, depth, samples@),
        depth == 0 ==> r == Pixel(Vec3::zero()),
    decreases depth,
{
    if depth == 0 {
        return Pixel(Vec3::zero());
    }
    if let Some(hit) = world.hit(ray, shadow_bias(), Fixed::max_value()) {
        if let Some(scatter) = hit.material.scatter(ray, &hit, &samples[(depth - 1) as usize]) {
            return Pixel(
                scatter.attenuation.mul(ray_color(&scatter.scattered, world, depth - 1, samples).0),
            );
        }
        return Pixel(Vec3::zero());
    }
    Pixel(background(ray))
}

/// The ball sample turned into the hemisphere around `normal`.
pub open spec fn spec_random_in_hemisphere(ball: Vec3, normal: &Vec3) -> Vec3 {
    if ball.dot(normal).raw > 0 {
        ball
    } else {
        ball.flip()
    }
}

/// The ball sample itself if it lies on the side of `normal`, else its
/// negation.
#[verifier::when_used_as_spec(spec_random_in_hemisphere)]
pub fn random_in_hemisphere(ball: Vec3, normal: &Vec3) -> (r: Vec3)
    ensures
        r == spec_random_in_hemisphere(ball, normal),
{
    if ball.dot(normal).raw > 0 {
        ball
    } else {
        ball.flip()
    }
}

/// The viewport coordinate of a ray through pixel `index` of `extent`
/// pixels, displaced by `jitter` within the pixel:
/// `(index + jitter) / (extent - 1)`.
pub open spec fn spec_viewport_coordinate(index: u32, jitter: Fixed, extent: u32) -> Fixed {
    Fixed::from_u32(index).add(jitter).div(Fixed::from_u32(extent).sub(Fixed::one()))
}

/// The viewport coordinate of a ray through pixel `index` of `extent`.
#[verifier::when_used_as_spec(spec_viewport_coordinate)]
pub fn viewport_coordinate(index: u32, jitter: Fixed, extent: u32) -> (r: Fixed)
    ensures
        r == spec_viewport_coordinate(index, jitter, extent),
{
    Fixed::from_u32(index).add(jitter).div(Fixed::from_u32(extent).sub(Fixed::one()))
}

/// The light of one path through pixel `(i, j)` of a `width` by `height`
/// image.
pub open spec fn spec_sample_color(
    width: u32,
    height: u32,
    camera: &Camera,
    world: &Hittable,
    i: u32,
    j: u32,
    sample: &PathSample,
    max_depth: u32,
) -> Pixel {
    let u = viewport_coordinate(i, sample.du, width);
    let v = viewport_coordinate(j, sample.dv, height);
    spec_ray_color(&camera.cast_ray(&sample.lens, u, v), world, max_depth, sample.bounces@)
}

/// The light of one path through pixel `(i, j)`.
pub fn sample_color(
    width: u32,
    height: u32,
    camera: &Camera,
    world: &Hittable,
    i: u32,
    j: u32,
    sample: &PathSample,
    max_depth: u32,
) -> (r: Pixel)
    requires
        sample.bounces.len() >= max_depth,
    ensures
        r == spec_sample_color(width, height, camera, world, i, j, sample, max_depth),
{
    let u = viewport_coordinate(i, sample.du, width);
    let v = viewport_coordinate(j, sample.dv, height);
    let ray = camera.cast_ray(&sample.lens, u, v);
    ray_color(&ray, world, max_depth, &sample.bounces)
}

/// The sum of the light of the paths `samples` through pixel `(i, j)`.
pub open spec fn sum_colors(
    width: u32,
    height: u32,
    camera: &Camera,
    world: &Hittable,
    i: u32,
    j: u32,
    samples: Seq<PathSample>,
    max_depth: u32,
) -> Vec3
    decreases samples.len(),
{
    if samples.len() == 0 {
        Vec3::zero()
    } else {
        sum_colors(width, height, camera, world, i, j, samples.drop_last(), max_depth).add(
            spec_sample_color(width, height, camera, world, i, j, &samples.last(), max_depth).0,
        )
    }
}

/// Whether every path has a draw for each of `max_depth` bounces.
pub open spec fn paths_reach(samples: Seq<PathSample>, max_depth: u32) -> bool {
    forall|k: int| 0 <= k < samples.len() ==> (#[trigger] samples[k]).bounces.len() >= max_depth
}

/// The four bytes of pixel `(i, j)`: the average of its paths, gamma
/// corrected and quantized.
pub open spec fn spec_render_pixel(
    width: u32,
    height: u32,
    camera: &Camera,
    world: &Hittable,
    i: u32,
    j: u32,
    samples: Seq<PathSample>,
    max_depth: u32,
) -> [u8; 4] {
    Pixel(sum_colors(width, height, camera, world, i, j, samples, max_depth)).as_rgb(
        samples.len() as u32,
    )
}

/// Renders pixel `(i, j)` from one path per element of `samples`.
pub fn render_pixel(
    width: u32,
    height: u32,
    camera: &Camera,
    world: &Hittable,
    i: u32,
    j: u32,
    samples: &Vec<PathSample>,
    max_depth: u32,
) -> (r: [u8; 4])
    requires
        samples.len() <= u32::MAX,
        paths_reach(samples@, max_depth),
    ensures
        r == spec_render_pixel(width, height, camera, world, i, j, samples@, max_depth),
        r[3] == 255,
{
    let mut color = Pixel(Vec3::zero());
    let mut k: usize = 0;
    while k < samples.len()
        invariant
            k <= samples.len(),
            paths_reach(samples@, max_depth),
            color.0 == sum_colors(
                width,
                height,
                camera,
                world,
                i,
                j,
                samples@.take(k as int),
                max_depth,
            ),
        decreases samples.len() - k,
    {
        proof {
            assert(samples@.take(k + 1).drop_last() == samples@.take(k as int));
        }
        let c = sample_color(width, height, camera, world, i, j, &samples[k], max_depth);
        color.add_assign(c);
        k += 1;
    }
    proof {
        assert(samples@.take(k as int) == samples@);
    }
    color.as_rgb(samples.len() as u32)
}

/// The bytes of the first `n` pixels of the frame, four per pixel. The
/// pixels run row by row from the top of the image, and the top row is the
/// one with the largest `j`: pixel `k` lies in column `k % width` of row
/// `height - 1 - k / width`, and `samples[k]` holds its paths.
pub open spec fn spec_draw(
    width: u32,
    height: u32,
    camera: &Camera,
    world: &Hittable,
    samples: Seq<Vec<PathSample>>,
    max_depth: u32,
    n: nat,
) -> Seq<u8>
    decreases n,
{
    if n == 0 {
        Seq::empty()
    } else {
        let k = (n - 1) as int;
        spec_draw(width, height, camera, world, samples, max_depth, k as nat) + spec_render_pixel(
            width,
            height,
            camera,
            world,
            (k % (width as int)) as u32,
            (height - 1 - k / (width as int)) as u32,
            samples[k]@,
            max_depth,
        )@
    }
}

/// The fourth byte of pixel `p` of a frame buffer: its opacity.
pub open spec fn opacity_at(frame: Seq<u8>, p: int) -> u8 {
    frame[4 * p + 3]
}

/// Whether `samples` can feed a frame of `pixels` pixels: one list of
/// paths for each pixel, each path with a draw for each bounce.
pub open spec fn samples_fit(samples: Seq<Vec<PathSample>>, pixels: int, max_depth: u32) -> bool {
    &&& samples.len() == pixels
    &&& forall|k: int|
        0 <= k < samples.len() ==> (#[trigger] samples[k]).len() <= u32::MAX && paths_reach(
            samples[k]@,
            max_depth,
        )
}

/// The frame grows by one pixel at a time: pixel `k` is column `i` of the
/// row with vertical index `height - 1 - row` when `k == row * width + i`.
pub proof fn lemma_draw_step(
    width: u32,
    height: u32,
    camera: &Camera,
    world: &Hittable,
    samples: Seq<Vec<PathSample>>,
    max_depth: u32,
    k: nat,
    row: u32,
    i: u32,
)
    requires
        i < width,
        row < height,
        k == row * width + i,
    ensures
        k < width * height,
        spec_draw(width, height, camera, world, samples, max_depth, k + 1) == spec_draw(
            width,
            height,
            camera,
            world,
            samples,
            max_depth,
            k,
        ) + spec_render_pixel(
            width,
            height,
            camera,
            world,
            i,
            (height - 1 - row) as u32,
            samples[k as int]@,
            max_depth,
        )@,
{
    assert(row * width + i < width * height) by (nonlinear_arith)
        requires
            0 <= i < width,
            0 <= row < height,
    ;
    vstd::arithmetic::div_mod::lemma_fundamental_div_mod_converse(
        k as int,
        width as int,
        row as int,
        i as int,
    );
}

/// Renders the whole frame: four bytes per pixel, rows from the top of the
/// image to the bottom, each row from left to right. Every pixel is
/// opaque.
pub fn draw(
    width: u32,
    height: u32,
    camera: &Camera,
    world: &Hittable,
    samples: &Vec<Vec<PathSample>>,
    max_depth: u32,
) -> (out: Vec<u8>)
    requires
        width * height * 4 <= usize::MAX,
        samples_fit(samples@, width * height, max_depth),
    ensures
        out@ == spec_draw(
            width,
            height,
            camera,
            world,
            samples@,
            max_depth,
            (width * height) as nat,
        ),
        out.len() == width * height * 4,
        forall|p: int| 0 <= p < width * height ==> #[trigger] opacity_at(out@, p) == 255,
{
    let mut out: Vec<u8> = Vec::new();
    let mut k: usize = 0;
    let mut row: u32 = 0;
    while row < height
        invariant
            row <= height,
            k == row * width,
            samples_fit(samples@, width * height, max_depth),
            out.len() == k * 4,
            out@ == spec_draw(width, height, camera, world, samples@, max_depth, k as nat),
            forall|p: int| 0 <= p < k ==> #[trigger] opacity_at(out@, p) == 255,
        decreases height - row,
    {
        let j = height - 1 - row;
        let mut i: u32 = 0;
        while i < width
            invariant
                i <= width,
                row < height,
                j == height - 1 - row,
                k == row * width + i,
                samples_fit(samples@, width * height, max_depth),
                out.len() == k * 4,
                out@ == spec_draw(width, height, camera, world, samples@, max_depth, k as nat),
                forall|p: int| 0 <= p < k ==> #[trigger] opacity_at(out@, p) == 255,
            decreases width - i,
        {
            proof {
                lemma_draw_step(
                    width,
                    height,
                    camera,
                    world,
                    samples@,
                    max_depth,
                    k as nat,
                    row,
                    i,
                );
            }
            let px = render_pixel(width, height, camera, world, i, j, &samples[k], max_depth);
            let ghost before = out@;
            out.push(px[0]);
            out.push(px[1]);
            out.push(px[2]);
            out.push(px[3]);
            proof {
                assert(out@ =~= before + px@);
                assert forall|p: int| 0 <= p < k + 1 implies #[trigger] opacity_at(out@, p)
                    == 255 by {
                    if p < k {
                        assert(opacity_at(before, p) == 255);
                    }
                }
            }
            i += 1;
            k += 1;
        }
        assert((row + 1) * width == row * width + width) by (nonlinear_arith);
        row += 1;
    }
    assert(k == width * height) by (nonlinear_arith)
        requires
            k == row * width,
            row == height,
    ;
    out
}

/// The bytes of the first `n` rows, one after the other.
pub open spec fn spec_assemble_rows(rows: Seq<Vec<u8>>, n: nat) -> Seq<u8>
    decreases n,
{
    if n == 0 {
        Seq::empty()
    } else {
        spec_assemble_rows(rows, (n - 1) as nat) + rows[n - 1]@
    }
}

/// Joins rows that were rendered apart into one buffer, in the order in
/// which the list holds them. Stops before a row that would make the
/// buffer longer than the machine can address, which `None` reports.
pub fn assemble_rows(rows: &Vec<Vec<u8>>) -> (out: Option<Vec<u8>>)
    ensures
        out matches Some(buffer) ==> buffer@ == spec_assemble_rows(rows@, rows.len() as nat),
        out is None <==> spec_assemble_rows(rows@, rows.len() as nat).len() > usize::MAX,
{
    let mut buffer: Vec<u8> = Vec::new();
    let mut r: usize = 0;
    while r < rows.len()
        invariant
            r <= rows.len(),
            buffer@ == spec_assemble_rows(rows@, r as nat),
        decreases rows.len() - r,
    {
        let row = &rows[r];
        if row.len() > usize::MAX - buffer.len() {
            proof {
                lemma_assemble_rows_grows(rows@, (r + 1) as nat, rows.len() as nat);
            }
            return None;
        }
        let mut c: usize = 0;
        let ghost before = buffer@;
        while c < row.len()
            invariant
                c <= row.len(),
                buffer@ == before + row@.take(c as int),
                before.len() + row.len() <= usize::MAX,
            decreases row.len() - c,
        {
            buffer.push(row[c]);
            assert(row@.take(c + 1) == row@.take(c as int).push(row@[c as int]));
            c += 1;
        }
        assert(row@.take(c as int) == row@);
        r += 1;
    }
    assert(buffer@.len() == buffer.len());
    Some(buffer)
}

/// Joining more rows never gives a shorter buffer.
pub proof fn lemma_assemble_rows_grows(rows: Seq<Vec<u8>>, n: nat, m: nat)
    requires
        n <= m,
    ensures
        spec_assemble_rows(rows, n).len() <= spec_assemble_rows(rows, m).len(),
    decreases m,
{
    if n < m {
        lemma_assemble_rows_grows(rows, n, (m - 1) as nat);
    }
}

} // verus!

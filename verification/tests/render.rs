use raytracing::draw::{
    assemble_rows, background, clamp, draw, quantize, random_in_hemisphere, ray_color,
    render_pixel, sample_color, shadow_bias, viewport_coordinate, Camera, LensSample, PathSample,
    Pixel, MAX_DEPTH, SAMPLES_PER_PIXEL,
};
use raytracing::fixed::Fixed;
use raytracing::geom::{
    Collection, Hittable, Lambertian, Material, Metal, Ray, ScatterSample, Sphere, Vec3,
};

fn f(x: f64) -> Fixed {
    Fixed::from_raw((x * 65536.0).round() as i64)
}

fn v(x: f64, y: f64, z: f64) -> Vec3 {
    Vec3::new(f(x), f(y), f(z))
}

fn raw(x: i64, y: i64, z: i64) -> Vec3 {
    Vec3::new(Fixed::from_raw(x), Fixed::from_raw(y), Fixed::from_raw(z))
}

fn draw_of(ball: Vec3, chance: f64) -> ScatterSample {
    ScatterSample { ball, chance: f(chance) }
}

fn still_lens() -> LensSample {
    LensSample { x: Fixed::zero(), y: Fixed::zero(), time: Fixed::zero() }
}

/// A small sphere in front of the camera and a large one as the ground.
fn two_spheres() -> Hittable {
    let front = Sphere::new(
        v(0.0, 0.0, -1.0),
        f(0.5),
        Material::Lambertian(Lambertian::new(v(0.5, 0.5, 0.5))),
    );
    let ground = Sphere::new(
        v(0.0, -100.5, -1.0),
        Fixed::from_int(100),
        Material::Lambertian(Lambertian::new(v(0.8, 0.8, 0.0))),
    );
    Hittable::Collection(Collection::new(vec![Hittable::Sphere(front), Hittable::Sphere(ground)]))
}

/// A camera that looks up and to the left, so that the lower left corner of
/// its viewport sees the sky and the lower right corner the small sphere.
fn tilted_camera() -> Camera {
    Camera::new(
        v(0.0, 0.0, 0.0),
        v(-1.0, 1.0, -1.0),
        v(0.0, 1.0, 0.0),
        f(0.5),
        Fixed::from_int(2),
        Fixed::zero(),
        Fixed::one(),
        Fixed::zero(),
        Fixed::one(),
    )
}

#[test]
fn the_limits_of_the_integrator() {
    assert_eq!(MAX_DEPTH, 50);
    assert_eq!(SAMPLES_PER_PIXEL, 100);
    assert_eq!(shadow_bias().raw, 65);
}

#[test]
fn clamp_limits_to_the_range() {
    assert_eq!(clamp(f(0.5), f(0.0), f(1.0)), f(0.5));
    assert_eq!(clamp(f(-0.5), f(0.0), f(1.0)), f(0.0));
    assert_eq!(clamp(f(1.5), f(0.0), f(1.0)), f(1.0));
}

#[test]
fn quantize_scales_to_a_byte() {
    assert_eq!(quantize(f(0.5)), 127);
    assert_eq!(quantize(Fixed::one()), 255);
    assert_eq!(quantize(Fixed::from_raw(65535)), 254);
    assert_eq!(quantize(Fixed::from_raw(-5)), 0);
    assert_eq!(quantize(Fixed::from_int(7)), 255);
    assert_eq!(quantize(Fixed::zero()), 0);
}

#[test]
fn a_pixel_averages_corrects_and_quantizes() {
    assert_eq!(Pixel(v(0.25, 0.5, 1.0)).as_rgb(1), [127, 180, 255, 255]);
    assert_eq!(Pixel(v(25.0, 50.0, 100.0)).as_rgb(100), [127, 180, 254, 255]);
    assert_eq!(Pixel(v(2.0, -1.0, 0.0)).as_rgb(1), [255, 0, 0, 255]);
    assert_eq!(Pixel(v(1.0, 1.0, 1.0)).as_rgb(4), [127, 127, 127, 255]);
}

#[test]
fn a_pixel_without_samples_is_saturated_where_it_is_lit() {
    assert_eq!(Pixel(v(1.0, 1.0, 1.0)).as_rgb(0), [255, 255, 255, 255]);
    assert_eq!(Pixel(v(0.0, -1.0, 1.0)).as_rgb(0), [0, 0, 255, 255]);
}

#[test]
fn pixels_add_up() {
    let mut p = Pixel(v(0.25, 0.5, 1.0));
    p.add_assign(Pixel(v(1.0, 2.0, -3.0)));
    assert_eq!(p, Pixel(v(1.25, 2.5, -2.0)));
}

#[test]
fn the_camera_derives_its_viewport() {
    let c = Camera::new(
        v(0.0, 0.0, 0.0),
        v(0.0, 0.0, -1.0),
        v(0.0, 1.0, 0.0),
        Fixed::one(),
        Fixed::from_int(2),
        Fixed::zero(),
        Fixed::one(),
        Fixed::zero(),
        Fixed::one(),
    );
    assert_eq!(c.origin, v(0.0, 0.0, 0.0));
    assert_eq!(c.w, v(0.0, 0.0, 1.0));
    assert_eq!(c.u, v(1.0, 0.0, 0.0));
    assert_eq!(c.v, v(0.0, 1.0, 0.0));
    assert_eq!(c.horizontal, v(4.0, 0.0, 0.0));
    assert_eq!(c.vertical, v(0.0, 2.0, 0.0));
    assert_eq!(c.lower_left_corner, v(-2.0, -1.0, -1.0));
    assert_eq!(c.lens_radius, Fixed::zero());
    assert_eq!(c.time0, Fixed::zero());
    assert_eq!(c.time1, Fixed::one());
}

#[test]
fn the_camera_scales_by_the_focus_distance() {
    let c = Camera::new(
        v(13.0, 2.0, 3.0),
        v(0.0, 0.0, 0.0),
        v(0.0, 1.0, 0.0),
        f(0.17633),
        f(2.0),
        f(0.1),
        Fixed::from_int(10),
        Fixed::zero(),
        Fixed::one(),
    );
    assert_eq!(c.origin, v(13.0, 2.0, 3.0));
    assert_eq!(c.w, raw(63152, 9715, 14573));
    assert_eq!(c.u, raw(14736, 0, -63859));
    assert_eq!(c.v, raw(-9466, 64812, -2184));
    assert_eq!(c.horizontal, raw(103936, 0, -450411));
    assert_eq!(c.vertical, raw(-33382, 228566, -7702));
    assert_eq!(c.lower_left_corner, raw(185171, -80361, 279934));
    assert_eq!(c.lens_radius.raw, 3277);
    let ray = c.cast_ray(&LensSample { x: f(0.5), y: f(-0.25), time: f(0.3) }, f(0.25), f(0.75));
    assert_eq!(ray.origin, raw(852454, 130263, 195039));
    assert_eq!(ray.direction, raw(-666335, -39200, -33483));
    assert_eq!(ray.time, f(0.3));
}

#[test]
fn a_pinhole_camera_casts_through_the_viewport() {
    let c = Camera::new(
        v(0.0, 0.0, 0.0),
        v(0.0, 0.0, -1.0),
        v(0.0, 1.0, 0.0),
        Fixed::one(),
        Fixed::from_int(2),
        Fixed::zero(),
        Fixed::one(),
        Fixed::zero(),
        Fixed::one(),
    );
    let lens = LensSample { x: f(0.3), y: f(-0.7), time: f(0.5) };
    let centre = c.cast_ray(&lens, f(0.5), f(0.5));
    assert_eq!(centre, Ray::new_at(v(0.0, 0.0, 0.0), v(0.0, 0.0, -1.0), f(0.5)));
    assert_eq!(c.cast_ray(&still_lens(), f(0.0), f(0.0)).direction, v(-2.0, -1.0, -1.0));
    assert_eq!(c.cast_ray(&still_lens(), f(1.0), f(1.0)).direction, v(2.0, 1.0, -1.0));
}

#[test]
fn viewport_coordinates_divide_by_the_extent_less_one() {
    assert_eq!(viewport_coordinate(3, f(0.5), 5), f(0.875));
    assert_eq!(viewport_coordinate(1, f(0.25), 2), f(1.25));
    assert_eq!(viewport_coordinate(0, Fixed::zero(), 1), Fixed::zero());
    assert_eq!(viewport_coordinate(0, f(0.5), 1), Fixed::max_value());
}

#[test]
fn the_sky_blends_white_and_blue() {
    assert_eq!(background(&Ray::new(Vec3::zero(), v(0.0, 1.0, 0.0))), raw(32768, 45875, 65536));
    assert_eq!(background(&Ray::new(Vec3::zero(), v(0.0, 0.0, -1.0))), raw(49152, 55705, 65536));
    assert_eq!(background(&Ray::new(Vec3::zero(), v(1.0, 2.0, 3.0))), raw(40394, 50450, 65536));
}

#[test]
fn no_bounce_left_is_black() {
    let world = two_spheres();
    let none: Vec<ScatterSample> = Vec::new();
    let some = vec![draw_of(v(0.1, 0.2, 0.3), 0.5); 3];
    let rays = [
        Ray::new(Vec3::zero(), v(0.0, 0.0, -1.0)),
        Ray::new(Vec3::zero(), v(0.0, 1.0, 0.0)),
        Ray::new(v(5.0, 5.0, 5.0), v(-1.0, -2.0, 0.5)),
        Ray::new(Vec3::zero(), Vec3::zero()),
    ];
    for ray in rays.iter() {
        assert_eq!(ray_color(ray, &world, 0, &none), Pixel(Vec3::zero()));
        assert_eq!(ray_color(ray, &world, 0, &some), Pixel(Vec3::zero()));
        assert_eq!(ray_color(ray, &Hittable::Ephemeral, 0, &none), Pixel(Vec3::zero()));
    }
}

#[test]
fn a_ray_that_escapes_sees_the_sky() {
    let world = two_spheres();
    let draws = vec![draw_of(Vec3::zero(), 0.0); 5];
    let up = Ray::new(Vec3::zero(), v(0.0, 1.0, 0.0));
    assert_eq!(ray_color(&up, &world, 5, &draws), Pixel(raw(32768, 45875, 65536)));
    assert_eq!(ray_color(&up, &world, 5, &draws), Pixel(background(&up)));
}

#[test]
fn a_path_multiplies_the_attenuations() {
    let world = two_spheres();
    let ray = Ray::new(Vec3::zero(), v(0.0, 0.0, -1.0));
    let one = vec![draw_of(v(0.1, 0.2, 0.3), 0.5)];
    assert_eq!(ray_color(&ray, &world, 1, &one), Pixel(Vec3::zero()));
    let two = vec![draw_of(v(0.3, 0.1, -0.2), 0.5), draw_of(v(0.1, 0.2, 0.3), 0.5)];
    assert_eq!(ray_color(&ray, &world, 2, &two), Pixel(raw(23334, 27107, 32768)));
    // The bounce goes along the displaced normal and escapes to the sky.
    let bounced = Ray::new(v(0.0, 0.0, -0.5), raw(6554, 13107, 85197));
    assert_eq!(background(&bounced), raw(46668, 54215, 65536));
    assert_eq!(
        ray_color(&ray, &world, 2, &two).0,
        v(0.5, 0.5, 0.5).mul(background(&bounced))
    );
    let three = vec![
        draw_of(v(0.0, 0.5, 0.0), 0.0),
        draw_of(v(0.3, 0.1, -0.2), 0.5),
        draw_of(v(0.1, 0.2, 0.3), 0.5),
    ];
    assert_eq!(ray_color(&ray, &world, 3, &three), Pixel(raw(23334, 27107, 32768)));
}

#[test]
fn an_absorbed_ray_is_black() {
    let metal = Material::Metal(Metal::new(v(0.7, 0.6, 0.5), Fixed::one()));
    let world = Hittable::Sphere(Sphere::new(v(0.0, 0.0, -1.0), f(0.5), metal));
    let ray = Ray::new(Vec3::zero(), v(0.0, 0.0, -1.0));
    let into = vec![draw_of(v(0.0, 0.0, -1.0), 0.0); 5];
    assert_eq!(ray_color(&ray, &world, 5, &into), Pixel(Vec3::zero()));
    let mirror = vec![draw_of(Vec3::zero(), 0.0); 5];
    assert_eq!(ray_color(&ray, &world, 5, &mirror), Pixel(raw(34406, 33423, 32768)));
}

#[test]
fn the_hemisphere_sample_lies_on_the_side_of_the_normal() {
    let n = v(0.0, 0.0, 1.0);
    assert_eq!(random_in_hemisphere(v(0.1, 0.2, 0.3), &n), v(0.1, 0.2, 0.3));
    assert_eq!(random_in_hemisphere(v(0.1, 0.2, -0.3), &n), v(-0.1, -0.2, 0.3));
    assert_eq!(random_in_hemisphere(v(0.1, 0.2, 0.0), &n), v(-0.1, -0.2, 0.0));
}

#[test]
fn two_pixels_one_on_the_sphere_one_on_the_sky() {
    let world = two_spheres();
    let camera = tilted_camera();
    let path = || PathSample {
        du: Fixed::zero(),
        dv: Fixed::zero(),
        lens: still_lens(),
        bounces: vec![draw_of(v(0.1, 0.2, 0.3), 0.5)],
    };
    let samples = vec![vec![path()], vec![path()]];
    let out = draw(2, 1, &camera, &world, &samples, 1);
    assert_eq!(out, vec![216, 232, 255, 255, 0, 0, 0, 255]);

    // The left pixel escapes both spheres: it is the sky along its ray.
    let left = camera.cast_ray(&still_lens(), Fixed::zero(), Fixed::zero());
    assert_eq!(left.direction, raw(-97555, 11083, -4873));
    assert_eq!(world.hit(&left, shadow_bias(), Fixed::max_value()), None);
    assert_eq!(background(&left), raw(47305, 54597, 65536));
    assert_eq!(out[0..4], Pixel(background(&left)).as_rgb(1));

    // The right pixel hits the small sphere and is not the sky.
    let right = camera.cast_ray(&still_lens(), Fixed::one(), Fixed::zero());
    assert_eq!(right.direction, raw(-4873, 11083, -97555));
    let hit = world.hit(&right, shadow_bias(), Fixed::max_value()).unwrap();
    assert_eq!(hit.material, Material::Lambertian(Lambertian::new(v(0.5, 0.5, 0.5))));
    assert_ne!(out[4..8], Pixel(background(&right)).as_rgb(1));
}

#[test]
fn a_second_bounce_carries_the_colour_of_the_sphere() {
    let world = two_spheres();
    let camera = tilted_camera();
    let path = || PathSample {
        du: Fixed::zero(),
        dv: Fixed::zero(),
        lens: still_lens(),
        bounces: vec![draw_of(v(0.3, 0.1, -0.2), 0.5), draw_of(v(0.1, 0.2, 0.3), 0.5)],
    };
    let samples = vec![vec![path()], vec![path()]];
    let out = draw(2, 1, &camera, &world, &samples, 2);
    assert_eq!(out, vec![216, 232, 255, 255, 149, 162, 180, 255]);
    assert_eq!(
        sample_color(2, 1, &camera, &world, 1, 0, &path(), 2),
        Pixel(raw(22640, 26691, 32768))
    );
}

#[test]
fn a_pixel_averages_its_paths() {
    let world = two_spheres();
    let camera = tilted_camera();
    let paths = vec![
        PathSample {
            du: Fixed::zero(),
            dv: Fixed::zero(),
            lens: still_lens(),
            bounces: vec![draw_of(v(0.3, 0.1, -0.2), 0.5), draw_of(v(0.1, 0.2, 0.3), 0.5)],
        },
        PathSample {
            du: f(0.5),
            dv: Fixed::zero(),
            lens: still_lens(),
            bounces: vec![draw_of(v(0.0, 0.9, 0.0), 0.2), draw_of(v(-0.3, 0.2, 0.1), 0.7)],
        },
    ];
    assert_eq!(render_pixel(2, 1, &camera, &world, 0, 0, &paths, 2), [215, 232, 255, 255]);
    assert_eq!(render_pixel(2, 1, &camera, &world, 1, 0, &paths, 2), [149, 162, 180, 255]);
}

#[test]
fn the_frame_runs_from_the_top_row_down() {
    let world = two_spheres();
    let camera = tilted_camera();
    let path = || PathSample {
        du: f(0.25),
        dv: f(0.5),
        lens: still_lens(),
        bounces: vec![draw_of(v(0.3, 0.1, -0.2), 0.5), draw_of(v(0.1, 0.2, 0.3), 0.5)],
    };
    let (width, height) = (3u32, 2u32);
    let samples: Vec<Vec<PathSample>> = (0..width * height).map(|_| vec![path()]).collect();
    let out = draw(width, height, &camera, &world, &samples, 2);
    assert_eq!(out.len(), 24);
    let mut expected: Vec<u8> = Vec::new();
    for j in (0..height).rev() {
        for i in 0..width {
            expected.extend_from_slice(&render_pixel(
                width,
                height,
                &camera,
                &world,
                i,
                j,
                &vec![path()],
                2,
            ));
        }
    }
    assert_eq!(out, expected);
    // The two rows differ, so the order is observable.
    assert_ne!(out[0..12], out[12..24]);
    for k in 0..6 {
        assert_eq!(out[4 * k + 3], 255);
    }
}

#[test]
fn an_empty_frame_has_no_bytes() {
    let world = two_spheres();
    let camera = tilted_camera();
    assert_eq!(draw(0, 5, &camera, &world, &Vec::new(), 3), Vec::<u8>::new());
    assert_eq!(draw(5, 0, &camera, &world, &Vec::new(), 3), Vec::<u8>::new());
}

#[test]
fn rows_are_joined_in_the_order_given() {
    let rows = vec![vec![1u8, 2, 3], vec![], vec![4], vec![5, 6]];
    assert_eq!(assemble_rows(&rows), Some(vec![1, 2, 3, 4, 5, 6]));
    assert_eq!(assemble_rows(&Vec::new()), Some(Vec::new()));
}

#[test]
fn a_pinhole_ignores_the_lens_sample() {
    let c = tilted_camera();
    let a = c.cast_ray(&LensSample { x: f(0.9), y: f(-0.3), time: f(0.5) }, f(0.25), f(0.75));
    let b = c.cast_ray(&LensSample { x: f(0.0), y: f(0.0), time: f(0.5) }, f(0.25), f(0.75));
    assert_eq!(a, b);
    assert_eq!(a.origin, c.origin);
}

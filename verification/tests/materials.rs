use raytracing::fixed::Fixed;
use raytracing::geom::material::{reflect, refact, schlick};
use raytracing::geom::{
    Dielectric, Hit, Lambertian, Material, Metal, Ray, Scatter, ScatterSample, Vec3,
};

fn f(x: f64) -> Fixed {
    Fixed::from_raw((x * 65536.0).round() as i64)
}

fn v(x: f64, y: f64, z: f64) -> Vec3 {
    Vec3::new(f(x), f(y), f(z))
}

fn raw(x: i64, y: i64, z: i64) -> Vec3 {
    Vec3::new(Fixed::from_raw(x), Fixed::from_raw(y), Fixed::from_raw(z))
}

fn grey() -> Material {
    Material::Lambertian(Lambertian::new(v(0.5, 0.5, 0.5)))
}

fn front_hit(material: Material) -> Hit {
    Hit { point: v(0.0, 0.0, -0.5), normal: v(0.0, 0.0, 1.0), t: f(0.5), front_face: true, material }
}

fn sample(ball: Vec3, chance: Fixed) -> ScatterSample {
    ScatterSample { ball, chance }
}

#[test]
fn a_hit_faces_the_ray() {
    let ray = Ray::new(v(0.0, 0.0, 0.0), v(0.0, 0.0, -1.0));
    let outside = Hit::new(v(0.0, 0.0, -0.5), v(0.0, 0.0, 1.0), f(0.5), &ray, grey());
    assert!(outside.front_face);
    assert_eq!(outside.normal, v(0.0, 0.0, 1.0));
    assert_eq!(outside.t, f(0.5));
    assert_eq!(outside.point, v(0.0, 0.0, -0.5));
    let inside = Hit::new(v(0.0, 0.0, -1.5), v(0.0, 0.0, -1.0), f(1.5), &ray, grey());
    assert!(!inside.front_face);
    assert_eq!(inside.normal, v(0.0, 0.0, 1.0));
}

#[test]
fn a_grazing_ray_counts_as_a_back_face() {
    let ray = Ray::new(v(0.0, 0.0, 0.0), v(1.0, 0.0, 0.0));
    let h = Hit::new(v(1.0, 0.0, 0.0), v(0.0, 1.0, 0.0), f(1.0), &ray, grey());
    assert!(!h.front_face);
    assert_eq!(h.normal, v(0.0, -1.0, 0.0));
}

#[test]
fn reflect_mirrors_at_the_normal() {
    assert_eq!(reflect(&v(1.0, -1.0, 0.0), &v(0.0, 1.0, 0.0)), v(1.0, 1.0, 0.0));
    assert_eq!(
        reflect(&v(1.0, -1.0, 0.0).unit(), &v(0.0, 1.0, 0.0)),
        raw(46341, 46341, 0)
    );
}

#[test]
fn schlick_gives_the_reflectance() {
    assert_eq!(schlick(f(1.0), f(1.5)).raw, 2621);
    assert_eq!(schlick(Fixed::zero(), f(1.5)).raw, 65536);
    assert_eq!(schlick(f(0.5), f(1.5)).raw, 4587);
}

#[test]
fn refact_bends_toward_the_normal_when_entering() {
    let uv = v(1.0, 0.0, -1.0).unit();
    let eta = Fixed::one().div(f(1.5));
    assert_eq!(refact(&uv, &v(0.0, 0.0, 1.0), eta), raw(30893, 0, -57798));
}

#[test]
fn lambertian_always_scatters_along_the_displaced_normal() {
    let m = Lambertian::new(v(0.5, 0.4, 0.3));
    let ray = Ray::new_at(v(0.0, 0.0, 0.0), v(0.0, 0.0, -1.0), f(0.25));
    let h = front_hit(Material::Lambertian(m));
    let s = m.scatter(&ray, &h, &sample(v(0.1, 0.2, 0.3), Fixed::zero()));
    assert_eq!(
        s,
        Some(Scatter {
            scattered: Ray::new_at(v(0.0, 0.0, -0.5), raw(6554, 13107, 85197), f(0.25)),
            attenuation: v(0.5, 0.4, 0.3),
        })
    );
    // Even a sample that cancels the normal scatters.
    assert!(m.scatter(&ray, &h, &sample(v(0.0, 0.0, -1.0), Fixed::zero())).is_some());
}

#[test]
fn metal_limits_the_fuzz_to_one() {
    assert_eq!(Metal::new(v(0.7, 0.6, 0.5), f(0.3)).fuzz, f(0.3));
    assert_eq!(Metal::new(v(0.7, 0.6, 0.5), f(1.0)).fuzz, f(1.0));
    assert_eq!(Metal::new(v(0.7, 0.6, 0.5), f(2.5)).fuzz, f(1.0));
    assert_eq!(Metal::new(v(0.7, 0.6, 0.5), f(0.3)).albedo, v(0.7, 0.6, 0.5));
}

#[test]
fn metal_reflects_with_fuzz() {
    let m = Metal::new(v(0.7, 0.6, 0.5), f(0.5));
    let ray = Ray::new_at(v(0.0, 0.0, 0.0), v(1.0, 0.0, -1.0), f(0.25));
    let h = front_hit(Material::Metal(m));
    let s = m.scatter(&ray, &h, &sample(v(0.1, 0.2, 0.3), Fixed::zero()));
    assert_eq!(
        s,
        Some(Scatter {
            scattered: Ray::new_at(v(0.0, 0.0, -0.5), raw(49618, 6553, 56171), f(0.25)),
            attenuation: v(0.7, 0.6, 0.5),
        })
    );
}

#[test]
fn metal_absorbs_exactly_when_the_reflection_points_into_the_surface() {
    let m = Metal::new(v(0.7, 0.6, 0.5), f(1.0));
    let ray = Ray::new_at(v(0.0, 0.0, 0.0), v(1.0, 0.0, -0.05), f(0.25));
    let h = front_hit(Material::Metal(m));
    let balls = [
        v(0.0, 0.0, -0.9),
        v(0.0, 0.0, 0.0),
        v(0.3, 0.3, -0.04),
        v(0.0, 0.0, -0.05),
        v(0.5, 0.0, 0.5),
    ];
    let mut absorbed = 0;
    for ball in balls.iter() {
        let direction = reflect(&ray.direction.unit(), &h.normal).add(ball.scale(m.fuzz));
        let s = m.scatter(&ray, &h, &sample(*ball, Fixed::zero()));
        assert_eq!(s.is_none(), direction.dot(&h.normal).raw <= 0);
        if let Some(sc) = s {
            assert_eq!(sc.scattered.direction, direction);
        } else {
            absorbed += 1;
        }
    }
    assert!(absorbed >= 1 && absorbed < balls.len());
    assert_eq!(m.scatter(&ray, &h, &sample(v(0.0, 0.0, -0.9), Fixed::zero())), None);
}

#[test]
fn dielectric_refracts_when_the_draw_is_above_the_reflectance() {
    let m = Dielectric::new(f(1.5));
    let ray = Ray::new(v(0.0, 0.0, 0.0), v(1.0, 0.0, -1.0));
    let h = front_hit(Material::Dielectric(m));
    let s = m.scatter(&ray, &h, &sample(Vec3::zero(), f(0.99)));
    assert_eq!(
        s,
        Some(Scatter {
            scattered: Ray::new(v(0.0, 0.0, -0.5), raw(30893, 0, -57798)),
            attenuation: v(1.0, 1.0, 1.0),
        })
    );
}

#[test]
fn dielectric_reflects_when_the_draw_is_below_the_reflectance() {
    let m = Dielectric::new(f(1.5));
    let ray = Ray::new(v(0.0, 0.0, 0.0), v(1.0, 0.0, -1.0));
    let h = front_hit(Material::Dielectric(m));
    let s = m.scatter(&ray, &h, &sample(Vec3::zero(), Fixed::zero()));
    assert_eq!(
        s,
        Some(Scatter {
            scattered: Ray::new(v(0.0, 0.0, -0.5), raw(46341, 0, 46341)),
            attenuation: v(1.0, 1.0, 1.0),
        })
    );
}

#[test]
fn dielectric_reflects_totally_at_a_flat_angle_from_inside() {
    let m = Dielectric::new(f(1.5));
    let ray = Ray::new(v(0.0, 0.0, 0.0), v(1.0, 0.0, -0.2));
    let mut h = front_hit(Material::Dielectric(m));
    h.front_face = false;
    let s = m.scatter(&ray, &h, &sample(Vec3::zero(), f(0.99)));
    assert_eq!(
        s,
        Some(Scatter {
            scattered: Ray::new(v(0.0, 0.0, -0.5), raw(64264, 0, 12852)),
            attenuation: v(1.0, 1.0, 1.0),
        })
    );
}

#[test]
fn only_metal_can_absorb() {
    let ray = Ray::new(v(0.0, 0.0, 0.0), v(1.0, 0.0, -0.05));
    let kinds = [
        grey(),
        Material::Dielectric(Dielectric::new(f(1.5))),
        Material::Dielectric(Dielectric::new(f(0.0))),
    ];
    let draws = [
        sample(v(0.0, 0.0, -0.9), Fixed::zero()),
        sample(v(0.0, 0.0, -1.0), f(0.5)),
        sample(v(0.9, 0.0, 0.0), f(0.999)),
    ];
    for m in kinds.iter() {
        for d in draws.iter() {
            let h = front_hit(*m);
            assert!(m.scatter(&ray, &h, d).is_some());
        }
    }
    let metal = Material::Metal(Metal::new(v(0.7, 0.6, 0.5), f(1.0)));
    assert!(metal.scatter(&ray, &front_hit(metal), &draws[0]).is_none());
}

#[test]
fn the_material_dispatches_to_its_kind() {
    let ray = Ray::new_at(v(0.0, 0.0, 0.0), v(0.0, 0.0, -1.0), f(0.25));
    let lam = Lambertian::new(v(0.5, 0.4, 0.3));
    let d = sample(v(0.1, 0.2, 0.3), f(0.5));
    let h = front_hit(Material::Lambertian(lam));
    assert_eq!(Material::Lambertian(lam).scatter(&ray, &h, &d), lam.scatter(&ray, &h, &d));
    let met = Metal::new(v(0.7, 0.6, 0.5), f(0.5));
    assert_eq!(Material::Metal(met).scatter(&ray, &h, &d), met.scatter(&ray, &h, &d));
    let die = Dielectric::new(f(1.5));
    assert_eq!(Material::Dielectric(die).scatter(&ray, &h, &d), die.scatter(&ray, &h, &d));
}

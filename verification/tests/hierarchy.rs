use raytracing::fixed::Fixed;
use raytracing::geom::bvh::{min_on_axis, split_on_axis};
use raytracing::geom::hittable::union_boxes;
use raytracing::geom::{
    bvh_split_hittables, Axis, BVHNode, Collection, Hittable, Lambertian, Material, Ray, Sphere,
    Vec3, AABB,
};

fn f(x: f64) -> Fixed {
    Fixed::from_raw((x * 65536.0).round() as i64)
}

fn v(x: f64, y: f64, z: f64) -> Vec3 {
    Vec3::new(f(x), f(y), f(z))
}

fn raw(x: i64, y: i64, z: i64) -> Vec3 {
    Vec3::new(Fixed::from_raw(x), Fixed::from_raw(y), Fixed::from_raw(z))
}

fn grey() -> Material {
    Material::Lambertian(Lambertian::new(v(0.5, 0.5, 0.5)))
}

fn bias() -> Fixed {
    Fixed::from_ratio(1, 1000)
}

fn spheres() -> Vec<Sphere> {
    let cs = [
        (-3.0, 0.0, -5.0, 1.0),
        (0.0, 0.0, -3.0, 0.5),
        (2.0, 1.0, -4.0, 1.0),
        (0.5, -0.2, -7.0, 2.0),
        (-1.0, 2.0, -2.0, 0.3),
        (1.5, -1.0, -2.5, 0.4),
        (0.0, 0.0, -10.0, 3.0),
    ];
    cs.iter().map(|c| Sphere::new(v(c.0, c.1, c.2), f(c.3), grey())).collect()
}

fn things() -> Vec<Hittable> {
    spheres().into_iter().map(Hittable::Sphere).collect()
}

fn reversed_things() -> Vec<Hittable> {
    spheres().into_iter().rev().map(Hittable::Sphere).collect()
}

#[test]
fn nothing_is_never_hit_and_has_no_box() {
    let e = Hittable::Ephemeral;
    let ray = Ray::new(v(0.0, 0.0, 0.0), v(0.0, 0.0, -1.0));
    assert_eq!(e.hit(&ray, bias(), Fixed::max_value()), None);
    assert_eq!(e.bounding_box(Fixed::zero(), Fixed::one()), None);
}

#[test]
fn a_collection_finds_the_closest_hit() {
    let world = Collection::new(things());
    let ray = Ray::new(v(0.0, 0.0, 0.0), v(0.0, 0.0, -1.0));
    let h = world.hit(&ray, bias(), Fixed::max_value()).unwrap();
    assert_eq!(h.t, f(2.5));
    assert_eq!(h.point, v(0.0, 0.0, -2.5));
    assert_eq!(h.normal, v(0.0, 0.0, 1.0));
    assert!(h.front_face);
    let oblique = Ray::new(v(0.0, 0.0, 0.0), v(0.5, 0.2, -1.0));
    let h = world.hit(&oblique, bias(), Fixed::max_value()).unwrap();
    assert_eq!(h.t.raw, 207603);
    assert_eq!(h.point, raw(103801, 41519, -207603));
    assert_eq!(h.normal, raw(-27271, -24017, 54541));
    let up = Ray::new(v(0.0, 0.0, 0.0), v(0.0, 1.0, 0.0));
    assert_eq!(world.hit(&up, bias(), Fixed::max_value()), None);
}

#[test]
fn the_closest_hit_does_not_depend_on_the_order_of_the_members() {
    let forward = Collection::new(things());
    let backward = Collection::new(reversed_things());
    let dirs = [
        (0.0, 0.0, -1.0),
        (0.5, 0.2, -1.0),
        (-0.6, 0.0, -1.0),
        (-0.4, 0.9, -1.0),
        (0.6, -0.4, -1.0),
        (0.0, 1.0, 0.0),
    ];
    let expected = [Some(163840i64), Some(207603), Some(271480), Some(129888), Some(142573), None];
    for (d, e) in dirs.iter().zip(expected.iter()) {
        let ray = Ray::new(v(0.0, 0.0, 0.0), v(d.0, d.1, d.2));
        let a = forward.hit(&ray, bias(), Fixed::max_value());
        let b = backward.hit(&ray, bias(), Fixed::max_value());
        assert_eq!(a, b);
        assert_eq!(a.map(|h| h.t.raw), *e);
    }
}

#[test]
fn the_box_of_a_collection_surrounds_its_members() {
    let world = Collection::new(things());
    assert_eq!(
        world.bounding_box(Fixed::zero(), Fixed::one()),
        Some(AABB::new(raw(-262144, -196608, -851968), raw(196608, 196608, -111411)))
    );
    assert_eq!(Collection::new(Vec::new()).bounding_box(Fixed::zero(), Fixed::one()), None);
}

#[test]
fn a_member_without_a_box_counts_as_absent() {
    let mut members = things();
    members.insert(3, Hittable::Ephemeral);
    members.push(Hittable::Ephemeral);
    let world = Collection::new(members);
    assert_eq!(
        world.bounding_box(Fixed::zero(), Fixed::one()),
        Collection::new(things()).bounding_box(Fixed::zero(), Fixed::one())
    );
    let a = AABB::new(v(0.0, 0.0, 0.0), v(1.0, 1.0, 1.0));
    assert_eq!(union_boxes(None, None), None);
    assert_eq!(union_boxes(Some(a), None), Some(a));
    assert_eq!(union_boxes(None, Some(a)), Some(a));
}

#[test]
fn a_node_caches_the_box_around_its_children() {
    let s = spheres();
    let node = BVHNode::new(
        Box::new(Hittable::Sphere(s[0])),
        Box::new(Hittable::Sphere(s[1])),
        Fixed::zero(),
        Fixed::one(),
    );
    assert_eq!(node.aabb, Some(AABB::new(v(-4.0, -1.0, -6.0), v(0.5, 1.0, -2.5))));
    // The cached box answers every window.
    assert_eq!(node.bounding_box(f(5.0), f(9.0)), node.aabb);
    let half = BVHNode::new(
        Box::new(Hittable::Ephemeral),
        Box::new(Hittable::Sphere(s[1])),
        Fixed::zero(),
        Fixed::one(),
    );
    assert_eq!(half.aabb, s[1].bounding_box(Fixed::zero(), Fixed::one()));
}

#[test]
fn a_node_returns_the_closer_of_its_children() {
    let near = Sphere::new(v(0.0, 0.0, -3.0), f(0.5), grey());
    let far = Sphere::new(v(0.0, 0.0, -10.0), f(3.0), grey());
    let ray = Ray::new(v(0.0, 0.0, 0.0), v(0.0, 0.0, -1.0));
    for (l, r) in [(near, far), (far, near)] {
        let node = BVHNode::new(
            Box::new(Hittable::Sphere(l)),
            Box::new(Hittable::Sphere(r)),
            Fixed::zero(),
            Fixed::one(),
        );
        assert_eq!(node.hit(&ray, bias(), Fixed::max_value()).unwrap().t, f(2.5));
        assert_eq!(node.hit(&ray, f(4.0), Fixed::max_value()).unwrap().t, f(7.0));
    }
}

#[test]
fn a_node_without_a_box_is_never_hit() {
    let near = Sphere::new(v(0.0, 0.0, -3.0), f(0.5), grey());
    let ray = Ray::new(v(0.0, 0.0, 0.0), v(0.0, 0.0, -1.0));
    let node = BVHNode {
        left: Box::new(Hittable::Sphere(near)),
        right: Box::new(Hittable::Ephemeral),
        time0: Fixed::zero(),
        time1: Fixed::one(),
        aabb: None,
    };
    assert_eq!(node.hit(&ray, bias(), Fixed::max_value()), None);
    let empty = BVHNode::new(
        Box::new(Hittable::Ephemeral),
        Box::new(Hittable::Ephemeral),
        Fixed::zero(),
        Fixed::one(),
    );
    assert_eq!(empty.aabb, None);
    assert_eq!(empty.hit(&ray, bias(), Fixed::max_value()), None);
}

#[test]
fn the_builder_gives_a_placeholder_for_no_thing() {
    let mut rng = rand::thread_rng();
    let root = bvh_split_hittables(&mut rng, Vec::new(), Fixed::zero(), Fixed::one());
    assert!(matches!(root, Hittable::Ephemeral));
}

#[test]
fn the_builder_returns_a_single_thing_as_it_is() {
    let mut rng = rand::thread_rng();
    let s = Sphere::new(v(1.0, 2.0, 3.0), f(0.5), grey());
    let root = bvh_split_hittables(&mut rng, vec![Hittable::Sphere(s)], Fixed::zero(), Fixed::one());
    match root {
        Hittable::Sphere(got) => {
            assert_eq!(got.center0.value, v(1.0, 2.0, 3.0));
            assert_eq!(got.radius, f(0.5));
        }
        _ => panic!("a single thing must come back unwrapped"),
    }
}

#[test]
fn the_builder_orders_the_things_along_the_axis() {
    // The first thing is larger than the second on every axis, so whatever
    // axis is drawn, ordering must put the second one on the left.
    for _ in 0..20 {
        let mut rng = rand::thread_rng();
        let high = Sphere::new(v(5.0, 6.0, 7.0), f(0.5), grey());
        let low = Sphere::new(v(-5.0, -6.0, -7.0), f(0.25), grey());
        let root = bvh_split_hittables(
            &mut rng,
            vec![Hittable::Sphere(high), Hittable::Sphere(low)],
            Fixed::zero(),
            Fixed::one(),
        );
        match root {
            Hittable::BVHNode(n) => {
                assert_eq!(n.time0, Fixed::zero());
                assert_eq!(n.time1, Fixed::one());
                match (*n.left, *n.right) {
                    (Hittable::Sphere(l), Hittable::Sphere(r)) => {
                        assert_eq!(l.radius, f(0.25));
                        assert_eq!(r.radius, f(0.5));
                    }
                    _ => panic!("two things give a node over both"),
                }
            }
            _ => panic!("two things give a node"),
        }
    }
}

#[test]
fn the_builder_splits_at_the_middle() {
    let mut rng = rand::thread_rng();
    let root = bvh_split_hittables(&mut rng, things(), Fixed::zero(), Fixed::one());
    fn count(h: &Hittable) -> usize {
        match h {
            Hittable::Sphere(_) => 1,
            Hittable::BVHNode(n) => count(&n.left) + count(&n.right),
            Hittable::Collection(c) => c.0.iter().map(count).sum(),
            Hittable::Ephemeral => 0,
        }
    }
    match &root {
        Hittable::BVHNode(n) => {
            assert_eq!(count(&n.left), 3);
            assert_eq!(count(&n.right), 4);
        }
        _ => panic!("seven things give a node"),
    }
    assert_eq!(count(&root), 7);
}

#[test]
fn the_box_of_a_hierarchy_is_the_box_around_all_its_things() {
    let expected = Collection::new(things()).bounding_box(Fixed::zero(), Fixed::one());
    for _ in 0..30 {
        let mut rng = rand::thread_rng();
        let root = bvh_split_hittables(&mut rng, things(), Fixed::zero(), Fixed::one());
        assert_eq!(root.bounding_box(Fixed::zero(), Fixed::one()), expected);
    }
    let mut rng = rand::thread_rng();
    let root = bvh_split_hittables(&mut rng, reversed_things(), Fixed::zero(), Fixed::one());
    assert_eq!(root.bounding_box(Fixed::zero(), Fixed::one()), expected);
}

#[test]
fn a_hierarchy_finds_the_same_closest_hit_as_a_scan() {
    let scan = Collection::new(things());
    for _ in 0..5 {
        let mut rng = rand::thread_rng();
        let root = bvh_split_hittables(&mut rng, things(), Fixed::zero(), Fixed::one());
        let mut hits = 0;
        for ix in -20i64..=20 {
            for iy in -20i64..=20 {
                let ray = Ray::new(Vec3::zero(), raw(ix * 3277, iy * 3277, -65536));
                let a = scan.hit(&ray, bias(), Fixed::max_value());
                let b = root.hit(&ray, bias(), Fixed::max_value());
                assert_eq!(a.map(|h| h.t), b.map(|h| h.t));
                assert_eq!(a, b);
                if a.is_some() {
                    hits += 1;
                }
            }
        }
        assert_eq!(hits, 359);
    }
}

#[test]
fn a_ray_that_runs_in_a_face_of_a_box_is_outside_it() {
    // The ray touches the sphere and runs in the face of its box: the
    // sphere reports the touch, the box does not, and so a hierarchy whose
    // box ends at that face misses what a scan finds.
    let touched = Sphere::new(v(0.0, 0.0, -1.0), f(0.5), grey());
    let other = Sphere::new(v(-3.0, 0.0, -5.0), f(0.5), grey());
    let ray = Ray::new(v(0.5, 0.0, 0.0), v(0.0, 0.0, -1.0));
    assert_eq!(touched.hit(&ray, bias(), Fixed::max_value()).unwrap().t, f(1.0));
    let bound = touched.bounding_box(Fixed::zero(), Fixed::one()).unwrap();
    assert!(!bound.hit(&ray, bias(), Fixed::max_value()));
    let scan = Collection::new(vec![Hittable::Sphere(touched), Hittable::Sphere(other)]);
    assert_eq!(scan.hit(&ray, bias(), Fixed::max_value()).unwrap().t, f(1.0));
    let mut rng = rand::thread_rng();
    let root = bvh_split_hittables(
        &mut rng,
        vec![Hittable::Sphere(touched), Hittable::Sphere(other)],
        Fixed::zero(),
        Fixed::one(),
    );
    assert_eq!(root.hit(&ray, bias(), Fixed::max_value()), None);
}

#[test]
fn the_things_are_split_at_the_middle_in_the_order_of_their_keys() {
    let (lower, upper) = split_on_axis(things(), Axis::Z, Fixed::zero(), Fixed::one());
    let key = |h: &Hittable| min_on_axis(Axis::Z, h, Fixed::zero(), Fixed::one()).raw;
    let lower_keys: Vec<i64> = lower.iter().map(key).collect();
    let upper_keys: Vec<i64> = upper.iter().map(key).collect();
    assert_eq!(lower_keys, vec![-851968, -589824, -393216]);
    assert_eq!(upper_keys, vec![-327680, -229376, -190054, -150733]);
    let (none, one) = split_on_axis(
        vec![Hittable::Ephemeral],
        Axis::X,
        Fixed::zero(),
        Fixed::one(),
    );
    assert_eq!((none.len(), one.len()), (0, 1));
}

#[test]
fn the_key_of_a_thing_is_the_lower_corner_of_its_box() {
    let s = Hittable::Sphere(Sphere::new(v(1.0, 2.0, 3.0), f(0.5), grey()));
    assert_eq!(min_on_axis(Axis::X, &s, Fixed::zero(), Fixed::one()), f(0.5));
    assert_eq!(min_on_axis(Axis::Y, &s, Fixed::zero(), Fixed::one()), f(1.5));
    assert_eq!(min_on_axis(Axis::Z, &s, Fixed::zero(), Fixed::one()), f(2.5));
    assert_eq!(min_on_axis(Axis::Y, &Hittable::Ephemeral, Fixed::zero(), Fixed::one()), f(0.0));
}

#[test]
fn axes_are_numbered_and_drawn() {
    assert_eq!(Axis::from_index(0), Axis::X);
    assert_eq!(Axis::from_index(1), Axis::Y);
    assert_eq!(Axis::from_index(2), Axis::Z);
    let mut rng = rand::thread_rng();
    let mut seen = [false; 3];
    for _ in 0..300 {
        match Axis::random(&mut rng) {
            Axis::X => seen[0] = true,
            Axis::Y => seen[1] = true,
            Axis::Z => seen[2] = true,
        }
    }
    assert_eq!(seen, [true, true, true]);
}

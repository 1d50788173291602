//! Intersection of rays with boxes, primitives, lists and trees.

use std::sync::Arc;

use lumiere::aabb::AABB;
use lumiere::bvh::BVHNode;
use lumiere::interval::Interval;
use lumiere::material::{Lambertian, Material};
use lumiere::object::{Hittable, HittableList, Quad, Sphere};
use lumiere::ray::Ray;
use lumiere::rng::Rng;
use lumiere::vec3::Vec3;

fn fx(x: f64) -> i64 {
    (x * 65536.0).round() as i64
}

fn red_matte() -> Arc<Material> {
    Arc::new(Material::Lambertian(Lambertian::from_colour(Vec3::new(fx(1.), fx(0.2), fx(0.2)))))
}

#[test]
fn hit_bb_linear() {
    let p1 = Vec3::new(fx(3.), fx(0.), fx(0.));
    let p2 = Vec3::new(fx(4.), fx(1.), fx(0.));
    let bb = AABB::from_points(p1, p2);
    let r = Ray::new(Vec3::new(fx(0.), fx(0.5), fx(0.)), Vec3::new(fx(1.), fx(0.), fx(0.)), 0);
    assert!(bb.hit(&r, &Interval::universe()));
}

#[test]
fn miss_bb_linear() {
    let p1 = Vec3::new(fx(3.), fx(0.), fx(0.));
    let p2 = Vec3::new(fx(4.), fx(1.), fx(1.));
    let bb = AABB::from_points(p1, p2);
    let r = Ray::new(Vec3::new(fx(0.), fx(-0.5), fx(0.)), Vec3::new(fx(1.), fx(0.), fx(0.)), 0);
    assert!(!bb.hit(&r, &Interval::universe()));
}

#[test]
fn hit_bb_padded_interior() {
    // A flat box is padded to a minimum thickness; a ray through its
    // interior hits, one outside every slab misses.
    let bb = AABB::from_points(
        Vec3::new(fx(3.), fx(0.), fx(0.)),
        Vec3::new(fx(4.), fx(1.), fx(0.)),
    ).pad();
    let hit_ray = Ray::new(Vec3::new(fx(0.), fx(0.5), fx(0.)), Vec3::new(fx(1.), fx(0.), fx(0.)), 0);
    assert!(bb.hit(&hit_ray, &Interval::universe()));
    let miss_ray = Ray::new(
        Vec3::new(fx(0.), fx(-0.5), fx(0.)),
        Vec3::new(fx(1.), fx(0.), fx(0.)),
        0,
    );
    assert!(!bb.hit(&miss_ray, &Interval::universe()));
}

#[test]
fn pad_reaches_minimum_thickness_once() {
    // A flat axis is padded to at least the minimum thickness in one step,
    // and padding a padded box changes nothing.
    let flat = AABB::from_points(
        Vec3::new(fx(3.), fx(0.), fx(0.)),
        Vec3::new(fx(4.), fx(1.), fx(0.)),
    );
    let once = flat.pad();
    assert!(once.x.max - once.x.min >= 8);
    assert!(once.y.max - once.y.min >= 8);
    assert!(once.z.max - once.z.min >= 8);
    assert_eq!(once.z.min, -4);
    assert_eq!(once.z.max, 4);
    let twice = once.pad();
    assert_eq!(once, twice);
}

#[test]
fn sphere_analytic_hit() {
    // Unit sphere at the origin, ray from (0, 0, 2) toward it: the hit is
    // at parameter one, point (0, 0, 1), outward normal (0, 0, 1).
    let sphere = Sphere::new(Vec3::zeros(), fx(1.), red_matte());
    let r = Ray::new(Vec3::new(fx(0.), fx(0.), fx(2.)), Vec3::new(fx(0.), fx(0.), fx(-1.)), 0);
    let mut rng = Rng::new(7);
    let rec = sphere.hit(&r, &Interval::universe(), &mut rng).expect("the ray points at it");
    assert_eq!(rec.t, fx(1.));
    assert_eq!(rec.point, Vec3::new(fx(0.), fx(0.), fx(1.)));
    assert_eq!(rec.normal, Vec3::new(fx(0.), fx(0.), fx(1.)));
    assert!(rec.front_face);
}

fn unit_quad() -> Quad {
    Quad::new(
        Vec3::new(fx(-0.5), fx(-0.5), fx(1.)),
        Vec3::new(fx(1.), fx(0.), fx(0.)),
        Vec3::new(fx(0.), fx(1.), fx(0.)),
        red_matte(),
    )
}

#[test]
fn hit_quad_centre() {
    let quad = unit_quad();
    let r = Ray::new(Vec3::zeros(), Vec3::new(fx(0.), fx(0.), fx(1.)), 0);
    let mut rng = Rng::new(7);
    let hit_result = quad.hit(&r, &Interval::universe(), &mut rng);
    assert!(hit_result.is_some());
    let hit_result = hit_result.unwrap();
    let expected = Vec3::new(fx(0.), fx(0.), fx(1.));
    assert_eq!(hit_result.point, expected);
}

#[test]
fn hit_quad_off_centre() {
    let quad = unit_quad();
    let r = Ray::new(
        Vec3::new(fx(0.4), fx(0.4), fx(0.)),
        Vec3::new(fx(0.), fx(0.), fx(1.)),
        0,
    );
    let mut rng = Rng::new(7);
    let hit_result = quad.hit(&r, &Interval::universe(), &mut rng);
    assert!(hit_result.is_some());
    let hit_result = hit_result.unwrap();
    let expected = Vec3::new(fx(0.4), fx(0.4), fx(1.));
    assert_eq!(hit_result.point, expected);
}

#[test]
fn hit_quad_multiple() {
    let quad = unit_quad();
    let origin = Vec3::zeros();
    let mut rng = Rng::new(7);

    // Hit rays.
    for dir in [
        Vec3::new(fx(0.2), fx(0.), fx(1.)),
        Vec3::new(fx(-0.2), fx(0.), fx(1.)),
        Vec3::new(fx(0.), fx(0.2), fx(1.)),
        Vec3::new(fx(0.), fx(-0.2), fx(1.)),
        Vec3::new(fx(0.2), fx(0.2), fx(1.)),
        Vec3::new(fx(0.2), fx(-0.2), fx(1.)),
        Vec3::new(fx(-0.2), fx(0.2), fx(1.)),
        Vec3::new(fx(-0.2), fx(-0.2), fx(1.)),
    ] {
        let r = Ray::new(origin, dir, 0);
        assert!(quad.hit(&r, &Interval::universe(), &mut rng).is_some());
    }

    // Miss rays.
    for dir in [
        Vec3::new(fx(1.), fx(1.), fx(1.)),
        Vec3::new(fx(1.), fx(-1.), fx(1.)),
        Vec3::new(fx(-1.), fx(1.), fx(1.)),
        Vec3::new(fx(-1.), fx(1.), fx(1.)),
    ] {
        let r = Ray::new(origin, dir, 0);
        assert!(quad.hit(&r, &Interval::universe(), &mut rng).is_none());
    }
}

#[test]
fn hit_top() {
    let back_green = Arc::new(Material::Lambertian(Lambertian::from_colour(Vec3::new(
        fx(0.2),
        fx(1.),
        fx(0.2),
    ))));
    let green = Quad::new(
        Vec3::new(fx(-2.), fx(-2.), fx(0.)),
        Vec3::new(fx(4.), fx(0.), fx(0.)),
        Vec3::new(fx(0.), fx(4.), fx(0.)),
        back_green,
    );
    let r = Ray {
        origin: Vec3::new(fx(0.), fx(0.), fx(9.)),
        direction: Vec3::new(fx(0.), fx(0.5573489911065506), fx(-0.8302783280999875)),
        time: fx(0.22690750755679256),
    };
    let mut rng = Rng::new(7);
    assert!(green.hit(&r, &Interval::universe(), &mut rng).is_none());
}

#[test]
fn bvh_matches_list_scan() {
    // The tree reports the very hit a linear scan over the same objects
    // reports, whatever the split axes turned out to be.
    let centres = [
        (0.0, 0.0, -3.0),
        (2.0, 0.5, -5.0),
        (-2.0, -0.5, -4.0),
        (0.5, 1.5, -7.0),
        (-1.0, 2.0, -6.0),
    ];
    let mut list = HittableList::new();
    for (cx, cy, cz) in centres {
        list.add(Hittable::Sphere(Sphere::new(
            Vec3::new(fx(cx), fx(cy), fx(cz)),
            fx(0.9),
            red_matte(),
        )));
    }
    let mut flat = HittableList::new();
    for (cx, cy, cz) in centres {
        flat.add(Hittable::Sphere(Sphere::new(
            Vec3::new(fx(cx), fx(cy), fx(cz)),
            fx(0.9),
            red_matte(),
        )));
    }
    let mut axis_rng = lumiere::bvh::small_rng_from_entropy();
    let tree = BVHNode::new(list, &mut axis_rng);

    let dirs = [
        (0.0, 0.0, -1.0),
        (0.3, 0.1, -1.0),
        (-0.4, -0.1, -1.0),
        (0.1, 0.3, -1.0),
        (1.0, 0.0, 0.0),
    ];
    for (dx, dy, dz) in dirs {
        let r = Ray::new(Vec3::zeros(), Vec3::new(fx(dx), fx(dy), fx(dz)), 0);
        let mut rng1 = Rng::new(11);
        let mut rng2 = Rng::new(11);
        let from_tree = tree.hit(&r, &Interval::new(66, i64::MAX), &mut rng1);
        let from_scan = flat.hit(&r, &Interval::new(66, i64::MAX), &mut rng2);
        match (from_tree, from_scan) {
            (Some(a), Some(b)) => {
                assert_eq!(a.t, b.t);
                assert_eq!(a.point, b.point);
            },
            (None, None) => {},
            _ => panic!("tree and scan disagree"),
        }
    }
}

#[test]
fn box_has_six_sides() {
    let prism = lumiere::object::new_box(
        &Vec3::new(fx(-1.), fx(-1.), fx(-1.)),
        &Vec3::new(fx(1.), fx(1.), fx(1.)),
        red_matte(),
    );
    assert_eq!(prism.objects.len(), 6);
    // A ray from outside along the z axis strikes the near face.
    let r = Ray::new(Vec3::new(fx(0.), fx(0.), fx(5.)), Vec3::new(fx(0.), fx(0.), fx(-1.)), 0);
    let mut rng = Rng::new(7);
    let rec = prism.hit(&r, &Interval::new(66, i64::MAX), &mut rng).expect("front face");
    assert_eq!(rec.t, fx(4.));
}

#[test]
fn translate_shifts_hit_point() {
    let sphere = Hittable::Sphere(Sphere::new(Vec3::zeros(), fx(1.), red_matte()));
    let moved = Hittable::Translate(lumiere::object::Translate::new(
        Box::new(sphere),
        Vec3::new(fx(0.), fx(3.), fx(0.)),
    ));
    let r = Ray::new(Vec3::new(fx(0.), fx(3.), fx(2.)), Vec3::new(fx(0.), fx(0.), fx(-1.)), 0);
    let mut rng = Rng::new(7);
    let rec = moved.hit(&r, &Interval::universe(), &mut rng).expect("shifted sphere");
    assert_eq!(rec.point, Vec3::new(fx(0.), fx(3.), fx(1.)));
}

#[test]
fn moving_sphere_follows_the_time() {
    // The centre slides from the origin to (2, 0, 0) over the exposure: a
    // ray down the z axis at x = 2 only hits at the end of the exposure.
    let ms = lumiere::object::MovingSphere::new(
        "drifter".to_string(),
        Vec3::zeros(),
        Vec3::new(fx(2.), fx(0.), fx(0.)),
        fx(0.5),
        red_matte(),
    );
    assert_eq!(ms.name(), "drifter");
    let late = Ray {
        origin: Vec3::new(fx(2.), fx(0.), fx(2.)),
        direction: Vec3::new(fx(0.), fx(0.), fx(-1.)),
        time: fx(1.),
    };
    let early = Ray {
        origin: Vec3::new(fx(2.), fx(0.), fx(2.)),
        direction: Vec3::new(fx(0.), fx(0.), fx(-1.)),
        time: fx(0.),
    };
    let mut rng = Rng::new(7);
    assert!(ms.hit(&late, &Interval::universe(), &mut rng).is_some());
    assert!(ms.hit(&early, &Interval::universe(), &mut rng).is_none());
}

#[test]
fn rotate_y_turns_the_object() {
    // A sphere at (2, 0, 0), rotated a quarter turn about the y axis,
    // stands at (0, 0, -2): a ray down the z axis from (0, 0, 5) meets its
    // near surface after about six and a half units.
    let sphere = Hittable::Sphere(Sphere::new(
        Vec3::new(fx(2.), fx(0.), fx(0.)),
        fx(0.5),
        red_matte(),
    ));
    let turned = Hittable::RotateY(lumiere::object::RotateY::new(Box::new(sphere), fx(90.)));
    let r = Ray::new(Vec3::new(fx(0.), fx(0.), fx(5.)), Vec3::new(fx(0.), fx(0.), fx(-1.)), 0);
    let mut rng = Rng::new(7);
    let rec = turned.hit(&r, &Interval::new(66, i64::MAX), &mut rng).expect("turned into view");
    assert!((rec.t - fx(6.5)).abs() < 200);
    assert!(rec.point.z < 0);
}

#[test]
fn hand_built_tree_prefers_the_closer_hit() {
    // Two spheres behind one another under one hand-assembled node: the
    // traversal reports the closer one, like a scan would.
    let near = Hittable::Sphere(Sphere::new(Vec3::new(fx(0.), fx(0.), fx(-3.)), fx(0.5), red_matte()));
    let far = Hittable::Sphere(Sphere::new(Vec3::new(fx(0.), fx(0.), fx(-6.)), fx(0.5), red_matte()));
    let bbox = AABB::from_boxes(near.bounding_box(), far.bounding_box());
    let node = BVHNode::from_parts(Some(Box::new(far)), Some(Box::new(near)), bbox);
    let r = Ray::new(Vec3::zeros(), Vec3::new(fx(0.), fx(0.), fx(-1.)), 0);
    let mut rng = Rng::new(7);
    let rec = node.hit(&r, &Interval::new(66, i64::MAX), &mut rng).expect("both in the way");
    assert_eq!(rec.t, fx(2.5));
}

#[test]
fn interval_basics() {
    let a = Interval::new(fx(1.), fx(3.));
    assert!(a.contains(fx(2.)));
    assert!(!a.contains(fx(4.)));
    assert_eq!(a.size(), fx(2.));
    let b = a.expand(fx(2.));
    assert_eq!(b.min, fx(0.));
    assert_eq!(b.max, fx(4.));
    let c = Interval::from_intervals(&a, &Interval::new(fx(-1.), fx(2.)));
    assert_eq!(c.min, fx(-1.));
    assert_eq!(c.max, fx(3.));
    let d = a.add(fx(1.));
    assert_eq!(d.min, fx(2.));
    assert_eq!(d.max, fx(4.));
}

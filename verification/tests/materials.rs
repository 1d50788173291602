//! Materials, textures and their energy bounds.

use std::sync::Arc;

use lumiere::material::{
    Behaviour, Dielectric, DiffuseLight, Isotropic, Lambertian, Material, Metal,
};
use lumiere::object::{HitRecord, Hittable, Sphere};
use lumiere::interval::Interval;
use lumiere::ray::Ray;
use lumiere::rng::Rng;
use lumiere::texture::{CheckerTexture, ImageTexture, NoiseTexture, SolidColour, Texture};
use lumiere::vec3::Vec3;

fn fx(x: f64) -> i64 {
    (x * 65536.0).round() as i64
}

fn record_for(mat: Arc<Material>) -> HitRecord {
    HitRecord {
        point: Vec3::new(fx(0.), fx(0.), fx(1.)),
        normal: Vec3::new(fx(0.), fx(0.), fx(1.)),
        t: fx(1.),
        u: fx(0.5),
        v: fx(0.5),
        front_face: true,
        mat,
    }
}

fn assert_unit_colour(c: Vec3) {
    assert!(0 <= c.x && c.x <= fx(1.));
    assert!(0 <= c.y && c.y <= fx(1.));
    assert!(0 <= c.z && c.z <= fx(1.));
}

#[test]
fn attenuation_stays_in_unit_range() {
    // Every well-formed material keeps each attenuation channel in [0, 1],
    // whatever the random draws did.
    let incoming = Ray::new(
        Vec3::new(fx(0.), fx(0.), fx(3.)),
        Vec3::new(fx(0.1), fx(-0.2), fx(-1.)),
        0,
    );
    let mats: Vec<Material> = vec![
        Material::Lambertian(Lambertian::from_colour(Vec3::new(fx(0.8), fx(0.4), fx(0.2)))),
        Material::Metal(Metal::new(Vec3::new(fx(0.9), fx(0.9), fx(0.1)), fx(0.3))),
        Material::Dielectric(Dielectric::new(fx(1.5))),
        Material::DiffuseLight(DiffuseLight::from_colour(Vec3::new(fx(7.), fx(7.), fx(7.)))),
        Material::Isotropic(Isotropic::from_colour(Vec3::new(fx(0.5), fx(0.5), fx(0.5)))),
    ];
    for (k, m) in mats.iter().enumerate() {
        let arc = Arc::new(Material::Lambertian(Lambertian::from_colour(Vec3::zeros())));
        let rec = record_for(arc);
        for seed in 0..16u64 {
            let mut rng = Rng::new(seed.wrapping_add(k as u64 * 97));
            let res = m.scatter(&incoming, &rec, &mut rng);
            assert_unit_colour(res.attenuation);
        }
    }
}

#[test]
fn metal_without_fuzz_mirrors_exactly() {
    // Zero fuzz leaves the scattered direction exactly at the mirror
    // reflection of the incoming unit direction about the normal.
    let metal = Material::Metal(Metal::new(Vec3::new(fx(0.8), fx(0.8), fx(0.8)), 0));
    let incoming = Ray::new(
        Vec3::new(fx(0.), fx(0.), fx(3.)),
        Vec3::new(fx(0.), fx(0.), fx(-1.)),
        0,
    );
    let arc = Arc::new(Material::Lambertian(Lambertian::from_colour(Vec3::zeros())));
    let rec = record_for(arc);
    let mut rng = Rng::new(3);
    let res = metal.scatter(&incoming, &rec, &mut rng);
    assert!(matches!(res.behaviour, Behaviour::Scatter));
    // Normal incidence on the z plane reflects straight back.
    assert_eq!(res.scattered.direction, Vec3::new(fx(0.), fx(0.), fx(1.)));
    let expected = incoming.direction.unit().reflect(&rec.normal).unit();
    assert_eq!(res.scattered.direction, expected);
}

#[test]
fn metal_clamps_fuzz_into_unit_range() {
    let hot = Metal::new(Vec3::new(fx(0.5), fx(0.5), fx(0.5)), fx(5.));
    assert_eq!(hot.fuzziness, fx(1.));
    let cold = Metal::new(Vec3::new(fx(0.5), fx(0.5), fx(0.5)), fx(-3.));
    assert_eq!(cold.fuzziness, 0);
    let mid = Metal::new(Vec3::new(fx(0.5), fx(0.5), fx(0.5)), fx(0.25));
    assert_eq!(mid.fuzziness, fx(0.25));
}

#[test]
fn total_internal_reflection_draws_nothing() {
    // From inside glass at a grazing angle, refraction is geometrically
    // impossible; the reflectance draw is short-circuited, so the outcome
    // is the mirror reflection whatever the random stream held.
    let glass = Material::Dielectric(Dielectric::new(fx(1.5)));
    let incoming = Ray::new(
        Vec3::new(fx(0.), fx(2.), fx(0.)),
        Vec3::new(fx(1.), fx(-1.), fx(0.)),
        0,
    );
    let arc = Arc::new(Material::Lambertian(Lambertian::from_colour(Vec3::zeros())));
    let rec = HitRecord {
        point: Vec3::new(fx(0.), fx(1.), fx(0.)),
        normal: Vec3::new(fx(0.), fx(1.), fx(0.)),
        t: fx(1.),
        u: 0,
        v: 0,
        front_face: false,
        mat: arc,
    };
    let expected = incoming.direction.unit().reflect(&rec.normal.unit());
    let mut seen = None;
    for seed in 0..8u64 {
        let mut rng = Rng::new(seed);
        let res = glass.scatter(&incoming, &rec, &mut rng);
        assert!(matches!(res.behaviour, Behaviour::Scatter));
        assert_eq!(res.scattered.direction, expected.unit());
        match &seen {
            None => seen = Some(res.scattered.direction),
            Some(d) => assert_eq!(*d, res.scattered.direction),
        }
    }
}

#[test]
fn dielectric_unit_index_does_not_bend() {
    // With an index of refraction of one the refracted ray keeps the
    // incoming direction, here at normal incidence.
    let glass = Material::Dielectric(Dielectric::new(fx(1.)));
    let incoming = Ray::new(
        Vec3::new(fx(0.), fx(0.), fx(3.)),
        Vec3::new(fx(0.), fx(0.), fx(-1.)),
        0,
    );
    let arc = Arc::new(Material::Lambertian(Lambertian::from_colour(Vec3::zeros())));
    let rec = record_for(arc);
    let mut rng = Rng::new(3);
    let res = glass.scatter(&incoming, &rec, &mut rng);
    assert!(matches!(res.behaviour, Behaviour::Scatter));
    assert_eq!(res.scattered.direction, incoming.direction);
    assert_eq!(res.attenuation, Vec3::new(fx(1.), fx(1.), fx(1.)));
}

#[test]
fn light_absorbs_and_emits() {
    let light = Material::DiffuseLight(DiffuseLight::from_colour(Vec3::new(
        fx(4.),
        fx(4.),
        fx(4.),
    )));
    let arc = Arc::new(Material::Lambertian(Lambertian::from_colour(Vec3::zeros())));
    let rec = record_for(arc);
    let incoming = Ray::new(Vec3::zeros(), Vec3::new(fx(0.), fx(0.), fx(-1.)), 0);
    let mut rng = Rng::new(3);
    let res = light.scatter(&incoming, &rec, &mut rng);
    assert!(matches!(res.behaviour, Behaviour::Absorb));
    let glow = light.emitted(fx(0.5), fx(0.5), &Vec3::zeros());
    assert_eq!(glow, Vec3::new(fx(4.), fx(4.), fx(4.)));
    // Everything else emits black.
    let matte = Material::Lambertian(Lambertian::from_colour(Vec3::new(fx(0.5), 0, 0)));
    assert_eq!(matte.emitted(0, 0, &Vec3::zeros()), Vec3::zeros());
}

#[test]
fn lambertian_always_scatters() {
    let matte = Material::Lambertian(Lambertian::from_colour(Vec3::new(fx(0.7), fx(0.6), fx(0.5))));
    let arc = Arc::new(Material::Lambertian(Lambertian::from_colour(Vec3::zeros())));
    let rec = record_for(arc);
    let incoming = Ray::new(Vec3::zeros(), Vec3::new(fx(0.), fx(0.), fx(-1.)), 0);
    for seed in 0..8u64 {
        let mut rng = Rng::new(seed);
        let res = matte.scatter(&incoming, &rec, &mut rng);
        assert!(matches!(res.behaviour, Behaviour::Scatter));
        assert_eq!(res.attenuation, Vec3::new(fx(0.7), fx(0.6), fx(0.5)));
        assert_eq!(res.scattered.time, incoming.time);
    }
}

#[test]
fn solid_colour_ignores_inputs() {
    let tex = SolidColour::new(Vec3::new(fx(0.1), fx(0.2), fx(0.3)));
    let a = tex.get_value(0, 0, &Vec3::zeros());
    let b = tex.get_value(fx(1.), fx(0.3), &Vec3::new(fx(9.), fx(-2.), fx(5.)));
    assert_eq!(a, b);
    assert_eq!(a, Vec3::new(fx(0.1), fx(0.2), fx(0.3)));
}

#[test]
fn checker_alternates_between_cubes() {
    let tex = CheckerTexture::from_colours(
        fx(1.),
        Vec3::new(fx(1.), fx(1.), fx(1.)),
        Vec3::new(fx(0.), fx(0.), fx(0.)),
    );
    let even = tex.get_value(0, 0, &Vec3::new(fx(0.5), fx(0.5), fx(0.5)));
    let odd = tex.get_value(0, 0, &Vec3::new(fx(1.5), fx(0.5), fx(0.5)));
    assert_eq!(even, Vec3::new(fx(1.), fx(1.), fx(1.)));
    assert_eq!(odd, Vec3::zeros());
    // Two steps along an axis land back on the first colour.
    let even_again = tex.get_value(0, 0, &Vec3::new(fx(2.5), fx(0.5), fx(0.5)));
    assert_eq!(even_again, even);
}

#[test]
fn image_texture_samples_pixels() {
    // A two-by-one image: a red left pixel, a green right pixel.
    let buf = vec![255, 0, 0, 0, 255, 0];
    let tex = ImageTexture::new(buf, 2, 1, 3).expect("dimensions describe the buffer");
    let left = tex.get_value(0, fx(0.5), &Vec3::zeros());
    let right = tex.get_value(fx(0.9), fx(0.5), &Vec3::zeros());
    assert_eq!(left, Vec3::new(fx(1.), 0, 0));
    assert_eq!(right, Vec3::new(0, fx(1.), 0));
    // Dimensions that disagree with the buffer are rejected.
    assert!(ImageTexture::new(vec![0, 0, 0], 2, 2, 3).is_none());
}

#[test]
fn noise_texture_stays_in_unit_range() {
    let tex = NoiseTexture::with_scale(fx(2.));
    for k in 0..32i64 {
        let p = Vec3::new(fx(0.37) * k, fx(-0.21) * k, fx(0.11) * k);
        let c = tex.get_value(0, 0, &p);
        assert_unit_colour(c);
        assert_eq!(c.x, c.y);
        assert_eq!(c.y, c.z);
    }
}

#[test]
fn medium_scatters_isotropically_inside() {
    // A dense medium inside a sphere: rays through it scatter somewhere
    // along the chord, and the record carries the phase function.
    let boundary = Hittable::Sphere(Sphere::new(
        Vec3::zeros(),
        fx(1.),
        Arc::new(Material::Lambertian(Lambertian::from_colour(Vec3::zeros()))),
    ));
    let fog = Hittable::ConstantMedium(lumiere::object::ConstantMedium::from_colour(
        Box::new(boundary),
        fx(50.),
        Vec3::new(fx(0.5), fx(0.5), fx(0.5)),
    ));
    let r = Ray::new(Vec3::new(fx(0.), fx(0.), fx(3.)), Vec3::new(fx(0.), fx(0.), fx(-1.)), 0);
    let mut hits = 0;
    for seed in 0..32u64 {
        let mut rng = Rng::new(seed);
        if let Some(rec) = fog.hit(&r, &Interval::new(66, i64::MAX), &mut rng) {
            hits += 1;
            // The scattering point lies on the chord through the sphere.
            assert!(fx(2.) <= rec.t && rec.t <= fx(4.) + 66);
        }
    }
    // At this density almost every ray scatters inside.
    assert!(hits >= 24);
}

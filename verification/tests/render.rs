//! The integrator: colour quantization, tracing and whole renders.

use std::sync::Arc;

use lumiere::camera::CameraBuilder;
use lumiere::colour::write_colour;
use lumiere::material::{Lambertian, Material};
use lumiere::object::{Hittable, HittableList, Sphere};
use lumiere::ray::Ray;
use lumiere::rng::Rng;
use lumiere::scene::Scene;
use lumiere::vec3::Vec3;

fn fx(x: f64) -> i64 {
    (x * 65536.0).round() as i64
}

fn single_sphere_scene(seed: u64) -> Scene {
    let mut world = HittableList::new();
    world.add(Hittable::Sphere(Sphere::new(
        Vec3::new(fx(0.), fx(0.), fx(-2.)),
        fx(1.),
        Arc::new(Material::Lambertian(Lambertian::from_colour(Vec3::new(
            fx(0.6),
            fx(0.3),
            fx(0.2),
        )))),
    )));
    let camera = CameraBuilder::new()
        .origin(Vec3::zeros())
        .look_at(Vec3::new(fx(0.), fx(0.), fx(-2.)))
        .aspect_ratio(fx(1.))
        .fov(fx(60.))
        .build();
    Scene::new(
        world,
        camera,
        8,
        1,
        2,
        2,
        Vec3::new(fx(0.2), fx(0.3), fx(0.6)),
    ).with_seed(seed)
}

#[test]
fn write_colour_quantizes() {
    let full = write_colour(&Vec3::new(fx(1.), fx(0.5), fx(0.)));
    assert_eq!(full, (255, 127, 0));
    // Negative light floors at zero; overbright channels keep their value.
    let wild = write_colour(&Vec3::new(fx(-0.25), fx(2.), fx(0.25)));
    assert_eq!(wild.0, 0);
    assert_eq!(wild.1, 511);
    assert_eq!(wild.2, 63);
}

#[test]
fn sky_gradient_on_miss() {
    // With no geometry the legacy tracer returns the vertical gradient.
    let world = Hittable::List(HittableList::new());
    let mut rng = Rng::new(5);
    let up = Ray::new(Vec3::zeros(), Vec3::new(fx(0.), fx(1.), fx(0.)), 0);
    let high = lumiere::ray_colour(&up, &world, 4, &mut rng);
    let down = Ray::new(Vec3::zeros(), Vec3::new(fx(0.), fx(-1.), fx(0.)), 0);
    let low = lumiere::ray_colour(&down, &world, 4, &mut rng);
    // Straight up is the sky colour, straight down is white.
    assert_eq!(high, Vec3::new(fx(0.5), fx(0.7), fx(1.)));
    assert_eq!(low, Vec3::new(fx(1.), fx(1.), fx(1.)));
    // Depth zero is black regardless.
    let spent = lumiere::ray_colour(&up, &world, 0, &mut rng);
    assert_eq!(spent, Vec3::zeros());
}

#[test]
fn render_fills_row_major_buffer() {
    let scene = single_sphere_scene(1);
    let mut buf: Vec<u8> = Vec::new();
    scene.render(&mut buf);
    assert_eq!(buf.len(), 12);
    // Rows are rendered independently and laid out top row first.
    let top = scene.render_row(0);
    let bottom = scene.render_row(1);
    assert_eq!(&buf[0..6], top.as_slice());
    assert_eq!(&buf[6..12], bottom.as_slice());
}

#[test]
fn render_twice_is_byte_identical() {
    // The injected seeded source makes a render a pure function of the
    // scene, so the same scene renders to the same bytes, twice over.
    let scene = single_sphere_scene(42);
    let mut first: Vec<u8> = Vec::new();
    scene.render(&mut first);
    let again = single_sphere_scene(42);
    let mut second: Vec<u8> = Vec::new();
    again.render(&mut second);
    assert_eq!(first, second);
}

#[test]
fn end_to_end_reference_render() {
    // A single diffuse sphere, one sample per pixel, a fixed seed, a
    // two-by-two image: the exact bytes of a recorded reference render.
    let scene = single_sphere_scene(7);
    let mut buf: Vec<u8> = Vec::new();
    scene.render(&mut buf);
    let expected: Vec<u8> = vec![88, 76, 88, 114, 140, 198, 114, 140, 198, 114, 140, 198];
    assert_eq!(buf, expected);
}

#[test]
fn camera_rays_stay_deterministic() {
    let camera = CameraBuilder::new().origin(Vec3::zeros()).look_at(
        Vec3::new(fx(0.), fx(0.), fx(-1.)),
    ).build();
    let mut a = Rng::new(9);
    let mut b = Rng::new(9);
    let r1 = camera.get_ray(fx(0.5), fx(0.5), &mut a);
    let r2 = camera.get_ray(fx(0.5), fx(0.5), &mut b);
    assert_eq!(r1, r2);
}

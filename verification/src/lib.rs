//! An offline Monte-Carlo path tracer with a verified core.
//!
//! Geometry, materials and the integrator all work on fixed-point scalars
//! (`i64` values carrying 16 fractional bits), so every numeric step has an
//! exact mathematical description and the renderer is a deterministic
//! function of the scene and its seed.

use vstd::prelude::*;

pub mod aabb;
pub mod bvh;
pub mod camera;
pub mod colour;
pub mod fixed;
pub mod interval;
pub mod material;
pub mod noise;
pub mod object;
pub mod ray;
pub mod texture;
pub mod rng;
pub mod scene;
pub mod trig;
pub mod vec3;

verus! {

/// A location in space.
pub type Point3 = crate::vec3::Vec3;

/// A colour: red, green and blue channels, `ONE` meaning full intensity.
pub type Colour = crate::vec3::Vec3;

/// The colour carried back along a ray under a sky-gradient background:
/// half the attenuated recursion on scatter, black on absorb or at the
/// depth limit, and a white-to-blue vertical gradient on a miss.
pub open spec fn ray_colour_sky_spec(r: ray::Ray, world: object::Hittable, depth: nat, s: u64) -> (
    Colour,
    u64,
)
    decreases depth,
{
    if depth == 0 {
        (vec3::Vec3 { x: 0i64, y: 0i64, z: 0i64 }, s)
    } else {
        let q = object::hit_spec(
            world,
            r,
            interval::Interval { min: scene::TRACE_MIN, max: fixed::FX_MAX },
            s,
        );
        match q.0 {
            Some(hitrec) => {
                let sc = material::scatter_spec(*hitrec.mat, r, hitrec, q.1);
                match sc.0.behaviour {
                    material::Behaviour::Scatter => {
                        let rest = ray_colour_sky_spec(
                            r_of(sc.0),
                            world,
                            (depth - 1) as nat,
                            sc.1,
                        );
                        (
                            vec3::vscale(
                                vec3::vmul(sc.0.attenuation, rest.0),
                                (fixed::ONE / 2) as int,
                            ),
                            rest.1,
                        )
                    },
                    material::Behaviour::Absorb => (vec3::Vec3 { x: 0i64, y: 0i64, z: 0i64 }, sc.1),
                }
            },
            None => {
                let unit = vec3::vunit(r.direction);
                let t = fixed::fxmul((fixed::ONE / 2) as int, fixed::fxadd(unit.y as int, fixed::ONE as int));
                (
                    vec3::vadd(
                        vec3::vscale(
                            vec3::Vec3 { x: fixed::ONE, y: fixed::ONE, z: fixed::ONE },
                            fixed::fxsub(fixed::ONE as int, t),
                        ),
                        vec3::vscale(vec3::Vec3 { x: 32768i64, y: 45875i64, z: fixed::ONE }, t),
                    ),
                    q.1,
                )
            },
        }
    }
}

/// The scattered ray of a scatter result.
pub open spec fn r_of(sc: material::MaterialScatterResult) -> ray::Ray {
    sc.scattered
}

/// The colour carried back along a ray under a sky-gradient background.
pub fn ray_colour(
    r: &ray::Ray,
    world: &object::Hittable,
    depth: usize,
    rng: &mut rng::Rng,
) -> (res: Colour)
    ensures
        ({
            let q = ray_colour_sky_spec(*r, *world, depth as nat, old(rng)@);
            res == q.0 && final (rng)@ == q.1
        }),
    decreases depth,
{
    if depth == 0 {
        return vec3::Vec3::zeros();
    }
    match world.hit(r, &interval::Interval::new(scene::TRACE_MIN, fixed::FX_MAX), rng) {
        Some(hitrec) => {
            let scatter_result = hitrec.mat.scatter(r, &hitrec, rng);
            match scatter_result.behaviour {
                material::Behaviour::Scatter => {
                    let rest = ray_colour(&scatter_result.scattered, world, depth - 1, rng);
                    scatter_result.attenuation.mul(rest).scale(fixed::ONE / 2)
                },
                material::Behaviour::Absorb => vec3::Vec3::zeros(),
            }
        },
        None => {
            let unit = r.direction.unit();
            let t = fixed::fx_mul(fixed::ONE / 2, fixed::fx_add(unit.y, fixed::ONE));
            vec3::Vec3::new(fixed::ONE, fixed::ONE, fixed::ONE).scale(
                fixed::fx_sub(fixed::ONE, t),
            ).add(vec3::Vec3::new(32768, 45875, fixed::ONE).scale(t))
        },
    }
}

} // verus!

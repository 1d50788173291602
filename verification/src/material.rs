//! Materials: how a surface answers an incoming ray.
//!
//! Each material consumes the incoming ray, the hit record and a random
//! source, and yields a behaviour (scatter or absorb), an attenuation
//! colour and a scattered ray carrying the incoming ray's time.

use std::sync::Arc;

use vstd::prelude::*;

use crate::fixed::{fx_div, fx_min, fx_mul, fx_sqrt, fx_sub, fxadd, fxdiv, fxmul, fxsqrt, fxsub, ONE};
use crate::object::HitRecord;
use crate::ray::{ray_new, Ray};
use crate::rng::{rng_next, rng_unit, Rng};
use crate::texture::{texture_get_value, texture_value, wf_texture, SolidColour, Texture};
use crate::vec3::{
    rand_sphere_spec, vadd, vdot, vnear_zero, vneg, vrefract, vreflect, vscale, vunit, Vec3,
};
use crate::{Colour, Point3};

verus! {

/// What a scattering event did to the ray's path.
#[derive(Clone, Copy, Debug, PartialEq, Eq, Structural)]
pub enum Behaviour {
    Scatter,
    Absorb,
}

/// The outcome of one scattering event.
pub struct MaterialScatterResult {
    pub behaviour: Behaviour,
    pub attenuation: Colour,
    pub scattered: Ray,
}

impl MaterialScatterResult {
    /// Bundle a behaviour, an attenuation and a scattered ray.
    pub fn new(behaviour: Behaviour, attenuation: Colour, scattered: Ray) -> (r: Self)
        ensures
            r == (MaterialScatterResult { behaviour, attenuation, scattered }),
    {
        MaterialScatterResult { behaviour, attenuation, scattered }
    }
}

/// Diffuse reflection: scatter near the normal, tinted by the albedo.
pub struct Lambertian {
    pub albedo: Arc<Texture>,
}

/// Specular reflection, optionally fuzzed.
pub struct Metal {
    pub albedo: Arc<Texture>,
    pub fuzziness: i64,
}

/// A transparent medium refracting by Snell's law, reflecting by Schlick's
/// approximation.
pub struct Dielectric {
    pub attenuation: Arc<Texture>,
    pub ir: i64,
}

/// A surface that only emits.
pub struct DiffuseLight {
    pub emit: Arc<Texture>,
}

/// Uniform scattering in every direction, as inside a medium.
pub struct Isotropic {
    pub albedo: Arc<Texture>,
}

/// The closed set of materials.
pub enum Material {
    Lambertian(Lambertian),
    Metal(Metal),
    Dielectric(Dielectric),
    DiffuseLight(DiffuseLight),
    Isotropic(Isotropic),
}

/// Schlick's reflectance approximation.
pub open spec fn schlick(cosine: int, ref_idx: int) -> int {
    let q = fxdiv(fxsub(ONE as int, ref_idx), fxadd(ONE as int, ref_idx));
    let r0 = fxmul(q, q);
    let t = fxsub(ONE as int, cosine);
    let t5 = fxmul(fxmul(fxmul(fxmul(t, t), t), t), t);
    fxadd(r0, fxmul(fxsub(ONE as int, r0), t5))
}

/// What scattering from state `s` yields: the result and the state left.
pub open spec fn scatter_spec(m: Material, r: Ray, rec: HitRecord, s: u64) -> (
    MaterialScatterResult,
    u64,
) {
    match m {
        Material::Lambertian(l) => {
            let (sv, s1) = rand_sphere_spec(s, 64);
            let dir0 = vadd(rec.normal, vunit(sv));
            let dir = if vnear_zero(dir0) {
                rec.normal
            } else {
                dir0
            };
            (
                MaterialScatterResult {
                    behaviour: Behaviour::Scatter,
                    attenuation: texture_value(*l.albedo, rec.u as int, rec.v as int, rec.point),
                    scattered: ray_new(rec.point, dir, r.time as int),
                },
                s1,
            )
        },
        Material::Metal(mt) => {
            let reflected = vreflect(vunit(r.direction), rec.normal);
            let (sv, s1) = rand_sphere_spec(s, 64);
            let scattered = ray_new(
                rec.point,
                vadd(reflected, vscale(sv, mt.fuzziness as int)),
                r.time as int,
            );
            let behaviour = if vdot(scattered.direction, rec.normal) > 0 {
                Behaviour::Scatter
            } else {
                Behaviour::Absorb
            };
            (
                MaterialScatterResult {
                    behaviour,
                    attenuation: texture_value(*mt.albedo, rec.u as int, rec.v as int, rec.point),
                    scattered,
                },
                s1,
            )
        },
        Material::Dielectric(d) => {
            let refraction_ratio = if rec.front_face {
                fxdiv(ONE as int, d.ir as int)
            } else {
                d.ir as int
            };
            let unit_direction = vunit(r.direction);
            let cos_theta = if vdot(vneg(unit_direction), rec.normal) <= ONE {
                vdot(vneg(unit_direction), rec.normal)
            } else {
                ONE as int
            };
            let sin_theta = fxsqrt(fxsub(ONE as int, fxmul(cos_theta, cos_theta)));
            let cannot_refract = fxmul(refraction_ratio, sin_theta) > ONE;
            let reflectance = schlick(cos_theta, refraction_ratio);
            // Total internal reflection short-circuits the reflectance
            // draw, so no random state is consumed for that branch.
            let s1 = if cannot_refract {
                s
            } else {
                rng_next(s)
            };
            let direction = if cannot_refract || reflectance > rng_unit(s) {
                vreflect(unit_direction, vunit(rec.normal))
            } else {
                vrefract(unit_direction, vunit(rec.normal), refraction_ratio)
            };
            (
                MaterialScatterResult {
                    behaviour: Behaviour::Scatter,
                    attenuation: texture_value(
                        *d.attenuation,
                        rec.u as int,
                        rec.v as int,
                        rec.point,
                    ),
                    scattered: ray_new(rec.point, direction, r.time as int),
                },
                s1,
            )
        },
        Material::DiffuseLight(_) => {
            (
                MaterialScatterResult {
                    behaviour: Behaviour::Absorb,
                    attenuation: Vec3 { x: 0i64, y: 0i64, z: 0i64 },
                    scattered: ray_new(
                        Vec3 { x: 0i64, y: 0i64, z: 0i64 },
                        Vec3 { x: 0i64, y: 0i64, z: 0i64 },
                        0,
                    ),
                },
                s,
            )
        },
        Material::Isotropic(i) => {
            let (sv, s1) = rand_sphere_spec(s, 64);
            (
                MaterialScatterResult {
                    behaviour: Behaviour::Scatter,
                    attenuation: texture_value(*i.albedo, rec.u as int, rec.v as int, rec.point),
                    scattered: ray_new(rec.point, vunit(sv), r.time as int),
                },
                s1,
            )
        },
    }
}

/// What a material emits at a surface point: black, except for lights.
pub open spec fn emitted_spec(m: Material, u: int, v: int, p: Point3) -> Colour {
    match m {
        Material::DiffuseLight(d) => texture_value(*d.emit, u, v, p),
        _ => Vec3 { x: 0i64, y: 0i64, z: 0i64 },
    }
}

/// Well-formedness: every colour source a material scatters with is
/// well-formed, so attenuations stay inside `[0, 1]`.
pub open spec fn wf_material(m: Material) -> bool {
    match m {
        Material::Lambertian(l) => wf_texture(*l.albedo),
        Material::Metal(mt) => wf_texture(*mt.albedo),
        Material::Dielectric(d) => wf_texture(*d.attenuation),
        Material::DiffuseLight(_) => true,
        Material::Isotropic(i) => wf_texture(*i.albedo),
    }
}

impl Material {
    /// Scatter the incoming ray at the recorded hit. For a well-formed
    /// material every attenuation channel lies in `[0, 1]`.
    pub fn scatter(&self, r: &Ray, hitrec: &HitRecord, rng: &mut Rng) -> (res:
        MaterialScatterResult)
        ensures
            (res, final (rng)@) == scatter_spec(*self, *r, *hitrec, old(rng)@),
            wf_material(*self) ==> 0 <= res.attenuation.x <= ONE && 0 <= res.attenuation.y <= ONE
                && 0 <= res.attenuation.z <= ONE,
    {
        let res = match self {
            Material::Lambertian(l) => {
                let sv = Vec3::random_in_unit_sphere(rng);
                let mut scatter_direction = hitrec.normal.add(sv.unit());
                if scatter_direction.near_zero() {
                    scatter_direction = hitrec.normal;
                }
                MaterialScatterResult::new(
                    Behaviour::Scatter,
                    texture_get_value(&l.albedo, hitrec.u, hitrec.v, &hitrec.point),
                    Ray::new(hitrec.point, scatter_direction, r.time),
                )
            },
            Material::Metal(mt) => {
                let reflected = r.direction.unit().reflect(&hitrec.normal);
                let sv = Vec3::random_in_unit_sphere(rng);
                let scattered = Ray::new(
                    hitrec.point,
                    reflected.add(sv.scale(mt.fuzziness)),
                    r.time,
                );
                let behaviour = if scattered.direction.dot(hitrec.normal) > 0 {
                    Behaviour::Scatter
                } else {
                    Behaviour::Absorb
                };
                MaterialScatterResult::new(
                    behaviour,
                    texture_get_value(&mt.albedo, hitrec.u, hitrec.v, &hitrec.point),
                    scattered,
                )
            },
            Material::Dielectric(d) => {
                let refraction_ratio = if hitrec.front_face {
                    fx_div(ONE, d.ir)
                } else {
                    d.ir
                };
                let unit_direction = r.direction.unit();
                let cos_theta = fx_min(unit_direction.neg().dot(hitrec.normal), ONE);
                let sin_theta = fx_sqrt(fx_sub(ONE, fx_mul(cos_theta, cos_theta)));
                let cannot_refract = fx_mul(refraction_ratio, sin_theta) > ONE;
                let reflectance = Self::reflectance(cos_theta, refraction_ratio);
                let direction = if cannot_refract {
                    // Refraction is geometrically impossible: reflect
                    // without consuming a reflectance draw.
                    unit_direction.reflect(&hitrec.normal.unit())
                } else if reflectance > rng.next_unit() {
                    unit_direction.reflect(&hitrec.normal.unit())
                } else {
                    unit_direction.refract(&hitrec.normal.unit(), refraction_ratio)
                };
                MaterialScatterResult::new(
                    Behaviour::Scatter,
                    texture_get_value(&d.attenuation, hitrec.u, hitrec.v, &hitrec.point),
                    Ray::new(hitrec.point, direction, r.time),
                )
            },
            Material::DiffuseLight(_) => MaterialScatterResult::new(
                Behaviour::Absorb,
                Vec3::zeros(),
                Ray::new(Vec3::zeros(), Vec3::zeros(), 0),
            ),
            Material::Isotropic(i) => {
                let sv = Vec3::random_in_unit_sphere(rng);
                MaterialScatterResult::new(
                    Behaviour::Scatter,
                    texture_get_value(&i.albedo, hitrec.u, hitrec.v, &hitrec.point),
                    Ray::new(hitrec.point, sv.unit(), r.time),
                )
            },
        };
        proof {
            if wf_material(*self) {
                match self {
                    Material::Lambertian(l) => crate::texture::lemma_texture_value_bounded(
                        &l.albedo,
                        hitrec.u as int,
                        hitrec.v as int,
                        hitrec.point,
                    ),
                    Material::Metal(mt) => crate::texture::lemma_texture_value_bounded(
                        &mt.albedo,
                        hitrec.u as int,
                        hitrec.v as int,
                        hitrec.point,
                    ),
                    Material::Dielectric(d) => crate::texture::lemma_texture_value_bounded(
                        &d.attenuation,
                        hitrec.u as int,
                        hitrec.v as int,
                        hitrec.point,
                    ),
                    Material::DiffuseLight(_) => (),
                    Material::Isotropic(i) => crate::texture::lemma_texture_value_bounded(
                        &i.albedo,
                        hitrec.u as int,
                        hitrec.v as int,
                        hitrec.point,
                    ),
                }
            }
        }
        res
    }

    /// Schlick's reflectance approximation.
    fn reflectance(cosine: i64, ref_idx: i64) -> (r: i64)
        ensures
            r as int == schlick(cosine as int, ref_idx as int),
    {
        let q = fx_div(fx_sub(ONE, ref_idx), crate::fixed::fx_add(ONE, ref_idx));
        let r0 = fx_mul(q, q);
        let t = fx_sub(ONE, cosine);
        let t5 = fx_mul(fx_mul(fx_mul(fx_mul(t, t), t), t), t);
        crate::fixed::fx_add(r0, fx_mul(fx_sub(ONE, r0), t5))
    }

    /// What the material emits at a surface point: black, except for lights.
    pub fn emitted(&self, u: i64, v: i64, p: &Point3) -> (r: Colour)
        ensures
            r == emitted_spec(*self, u as int, v as int, *p),
    {
        match self {
            Material::DiffuseLight(d) => texture_get_value(&d.emit, u, v, p),
            _ => Vec3::zeros(),
        }
    }
}

impl Lambertian {
    /// A diffuse material over a texture.
    pub fn new(albedo: Arc<Texture>) -> (r: Self)
        ensures
            r == (Lambertian { albedo }),
    {
        Lambertian { albedo }
    }

    /// A diffuse material of one colour.
    pub fn from_colour(albedo: Colour) -> (r: Self)
        ensures
            r == (Lambertian {
                albedo: Arc::new(Texture::Solid(SolidColour { value: albedo })),
            }),
    {
        Lambertian { albedo: Arc::new(Texture::Solid(SolidColour::new(albedo))) }
    }
}

impl Metal {
    /// A specular material of one colour; fuzz is clamped into `[0, 1]`.
    pub fn new(albedo: Colour, fuzziness: i64) -> (r: Self)
        ensures
            r == (Metal {
                albedo: Arc::new(Texture::Solid(SolidColour { value: albedo })),
                fuzziness: if fuzziness > ONE {
                    ONE
                } else if fuzziness < 0 {
                    0i64
                } else {
                    fuzziness
                },
            }),
            0 <= r.fuzziness <= ONE,
    {
        let f = if fuzziness > ONE {
            ONE
        } else if fuzziness < 0 {
            0
        } else {
            fuzziness
        };
        Metal { albedo: Arc::new(Texture::Solid(SolidColour::new(albedo))), fuzziness: f }
    }
}

impl Dielectric {
    /// A clear medium with the given index of refraction.
    pub fn new(ir: i64) -> (r: Self)
        ensures
            r == (Dielectric {
                attenuation: Arc::new(
                    Texture::Solid(SolidColour { value: Vec3 { x: ONE, y: ONE, z: ONE } }),
                ),
                ir,
            }),
    {
        Dielectric {
            attenuation: Arc::new(Texture::Solid(SolidColour::new(Vec3::new(ONE, ONE, ONE)))),
            ir,
        }
    }
}

impl DiffuseLight {
    /// A light over a texture.
    pub fn new(emit: Arc<Texture>) -> (r: Self)
        ensures
            r == (DiffuseLight { emit }),
    {
        DiffuseLight { emit }
    }

    /// A light of one colour.
    pub fn from_colour(emit: Colour) -> (r: Self)
        ensures
            r == (DiffuseLight { emit: Arc::new(Texture::Solid(SolidColour { value: emit })) }),
    {
        DiffuseLight { emit: Arc::new(Texture::Solid(SolidColour::new(emit))) }
    }
}

impl Isotropic {
    /// A uniform scatterer over a texture.
    pub fn new(albedo: Arc<Texture>) -> (r: Self)
        ensures
            r == (Isotropic { albedo }),
    {
        Isotropic { albedo }
    }

    /// A uniform scatterer of one colour.
    pub fn from_colour(albedo: Colour) -> (r: Self)
        ensures
            r == (Isotropic {
                albedo: Arc::new(Texture::Solid(SolidColour { value: albedo })),
            }),
    {
        Isotropic { albedo: Arc::new(Texture::Solid(SolidColour::new(albedo))) }
    }
}

/// A metal with no fuzz scatters exactly along the mirror reflection of
/// the incoming direction about the surface normal.
pub proof fn lemma_metal_zero_fuzz_mirror(mt: Metal, r: Ray, rec: HitRecord, s: u64)
    requires
        mt.fuzziness == 0,
    ensures
        scatter_spec(Material::Metal(mt), r, rec, s).0.scattered == ray_new(
            rec.point,
            vreflect(vunit(r.direction), rec.normal),
            r.time as int,
        ),
{
    let (sv, s1) = rand_sphere_spec(s, 64);
    let reflected = vreflect(vunit(r.direction), rec.normal);
    assert(vscale(sv, 0) == (Vec3 { x: 0i64, y: 0i64, z: 0i64 }));
    assert(vadd(reflected, Vec3 { x: 0i64, y: 0i64, z: 0i64 }) == reflected);
}

} // verus!

//! Hittable geometry: everything a ray can strike.
//!
//! The geometry set is closed, so it is a single enum: primitives (sphere,
//! moving sphere, quad), a participating medium, the two affine wrappers,
//! the flat list container and the bounding-volume tree node. Intersection
//! is one recursive function over the enum, mirrored exactly by the
//! specification `hit_spec`.

use std::sync::Arc;

use vstd::prelude::*;

use crate::aabb::{aabb_from_points, aabb_hit, aabb_pad, aabb_shift, aabb_union, AABB};
use crate::bvh::BVHNode;
use crate::fixed::{
    fx_add, fx_div, fx_max, fx_min, fx_mul, fx_neg, fx_sqrt, fx_sub, fxadd, fxdiv, fxmul, fxneg,
    fxsqrt, fxsub, FX_MAX, FX_MIN, ONE,
};
use crate::interval::{ivl_contains, Interval};
use crate::material::{Isotropic, Material};
use crate::ray::{ray_at, ray_new, Ray};
use crate::rng::{rng_next, rng_unit, Rng};
use crate::texture::{arc_clone, SolidColour, Texture};
use crate::trig::{fx_acos, fx_atan2, fxacos, fxatan2, FX_PI, FX_TAU};
use crate::vec3::{vadd, vcross, vdiv, vdot, vlen, vlen_sq, vneg, vscale, vsub, vunit, Vec3};
use crate::{Colour, Point3};

verus! {

/// The step past a medium's entry hit when probing for the exit hit.
pub const MEDIUM_STEP: i64 = 7;

/// One intersection: where, how the surface faces, the ray parameter, the
/// texture coordinates and the material struck. Produced per query and
/// never stored.
pub struct HitRecord {
    pub point: Point3,
    pub normal: Vec3,
    pub t: i64,
    pub u: i64,
    pub v: i64,
    pub front_face: bool,
    pub mat: Arc<Material>,
}

/// The record with its normal turned against the ray: `front_face` says
/// whether the ray arrived from the side the outward normal points to.
pub open spec fn face_normal_spec(rec: HitRecord, r: Ray, outward_normal: Vec3) -> HitRecord {
    let ff = vdot(r.direction, outward_normal) < 0;
    HitRecord {
        front_face: ff,
        normal: if ff {
            outward_normal
        } else {
            vneg(outward_normal)
        },
        ..rec
    }
}

impl HitRecord {
    /// A record of a hit, initially marked as struck from the back.
    pub fn new(point: Point3, normal: Vec3, t: i64, u: i64, v: i64, mat: Arc<Material>) -> (r:
        Self)
        ensures
            r == (HitRecord { point, normal, t, u, v, front_face: false, mat }),
    {
        HitRecord { point, normal, t, u, v, front_face: false, mat }
    }

    /// Turn the stored normal against the ray and record which side it
    /// arrived from.
    pub fn set_face_normal(&mut self, r: &Ray, outward_normal: Vec3)
        ensures
            *final (self) == face_normal_spec(*old(self), *r, outward_normal),
    {
        self.front_face = r.direction.dot(outward_normal) < 0;
        self.normal = if self.front_face {
            outward_normal
        } else {
            outward_normal.neg()
        };
    }
}

/// A sphere, static in time.
pub struct Sphere {
    pub centre: Point3,
    pub radius: i64,
    pub mat: Arc<Material>,
    pub aabb: AABB,
}

/// A sphere whose centre moves linearly over the exposure.
pub struct MovingSphere {
    pub name: String,
    pub centre_0: Point3,
    pub centre_1: Point3,
    pub centre_vec: Vec3,
    pub radius: i64,
    pub mat: Arc<Material>,
    pub aabb: AABB,
}

/// A parallelogram: a corner and two edge vectors, with its plane data
/// precomputed.
pub struct Quad {
    pub q: Point3,
    pub u: Vec3,
    pub v: Vec3,
    pub mat: Arc<Material>,
    pub aabb: AABB,
    pub normal: Vec3,
    pub d: i64,
    pub w: Vec3,
}

/// A homogeneous participating medium bounded by another hittable.
pub struct ConstantMedium {
    pub phase_function: Arc<Material>,
    pub boundary: Box<Hittable>,
    pub neg_inv_density: i64,
}

/// A hittable shifted by an offset.
pub struct Translate {
    pub object: Box<Hittable>,
    pub offset: Vec3,
    pub bbox: AABB,
}

/// A hittable rotated about the y axis.
pub struct RotateY {
    pub object: Box<Hittable>,
    pub sin_theta: i64,
    pub cos_theta: i64,
    pub bbox: AABB,
}

/// A flat container scanned linearly.
pub struct HittableList {
    pub objects: Vec<Hittable>,
    pub bbox: AABB,
}

/// The closed set of hittable geometry.
pub enum Hittable {
    Sphere(Sphere),
    MovingSphere(MovingSphere),
    Quad(Quad),
    ConstantMedium(ConstantMedium),
    Translate(Translate),
    RotateY(RotateY),
    List(HittableList),
    Bvh(BVHNode),
}

/// The equirectangular texture coordinates of a point on the unit sphere.
pub open spec fn sphere_uv(p: Point3) -> (int, int) {
    let theta = fxacos(fxneg(p.y as int));
    let phi = fxadd(fxatan2(fxneg(p.z as int), p.x as int), FX_PI as int);
    (fxdiv(phi, FX_TAU as int), fxdiv(theta, FX_PI as int))
}

/// Where a ray meets a sphere of the given centre and radius: the nearer
/// quadratic root inside the interval, else the farther, else nothing.
pub open spec fn sphere_hit_at(
    centre: Point3,
    radius: int,
    mat: Arc<Material>,
    r: Ray,
    ray_t: Interval,
) -> Option<HitRecord> {
    let oc = vsub(r.origin, centre);
    let a = vlen_sq(r.direction);
    let half_b = vdot(oc, r.direction);
    let c = fxsub(vlen_sq(oc), fxmul(radius, radius));
    let discriminant = fxsub(fxmul(half_b, half_b), fxmul(a, c));
    if discriminant < 0 {
        None
    } else {
        let sq = fxsqrt(discriminant);
        let root1 = fxdiv(fxsub(fxneg(half_b), sq), a);
        let root2 = fxdiv(fxadd(fxneg(half_b), sq), a);
        let root = if ivl_contains(ray_t, root1) {
            root1
        } else {
            root2
        };
        if !ivl_contains(ray_t, root) {
            None
        } else {
            let intersection = ray_at(r, root as int);
            let outward_normal = vdiv(vsub(intersection, centre), radius);
            let uv = sphere_uv(outward_normal);
            Some(
                face_normal_spec(
                    HitRecord {
                        point: intersection,
                        normal: outward_normal,
                        t: root as i64,
                        u: uv.0 as i64,
                        v: uv.1 as i64,
                        front_face: false,
                        mat,
                    },
                    r,
                    outward_normal,
                ),
            )
        }
    }
}

/// Where a ray meets a quad: plane intersection, then the planar basis test.
pub open spec fn quad_hit_spec(qd: Quad, r: Ray, ray_t: Interval) -> Option<HitRecord> {
    let denom = vdot(qd.normal, vunit(r.direction));
    if denom == 0 {
        // Parallel within one scalar quantum.
        None
    } else {
        let t = fxdiv(fxsub(qd.d as int, vdot(qd.normal, r.origin)), denom);
        if !ivl_contains(ray_t, t) {
            None
        } else {
            let intersection = ray_at(r, t);
            let planar_hitpoint_vec = vsub(intersection, qd.q);
            let alpha = vdot(qd.w, vcross(planar_hitpoint_vec, qd.v));
            let beta = vdot(qd.w, vcross(qd.u, planar_hitpoint_vec));
            if alpha < 0 || alpha > ONE || beta < 0 || beta > ONE {
                None
            } else {
                Some(
                    face_normal_spec(
                        HitRecord {
                            point: intersection,
                            normal: qd.normal,
                            t: t as i64,
                            u: alpha as i64,
                            v: beta as i64,
                            front_face: false,
                            mat: qd.mat,
                        },
                        r,
                        qd.normal,
                    ),
                )
            }
        }
    }
}

/// The interpolated centre of a moving sphere at a time.
pub open spec fn moving_centre(ms: MovingSphere, time: int) -> Point3 {
    vadd(ms.centre_0, vscale(ms.centre_vec, time))
}

/// Where a ray meets each member of the geometry set, and the random state
/// it leaves behind. Deterministic geometry passes the state through; the
/// participating medium draws from it.
pub open spec fn hit_spec(h: Hittable, r: Ray, ray_t: Interval, s: u64) -> (
    Option<HitRecord>,
    u64,
)
    decreases h, 1int, 0int,
{
    match h {
        Hittable::Sphere(sp) => (sphere_hit_at(sp.centre, sp.radius as int, sp.mat, r, ray_t), s),
        Hittable::MovingSphere(ms) => (
            sphere_hit_at(
                moving_centre(ms, r.time as int),
                ms.radius as int,
                ms.mat,
                r,
                ray_t,
            ),
            s,
        ),
        Hittable::Quad(qd) => (quad_hit_spec(qd, r, ray_t), s),
        Hittable::ConstantMedium(cm) => {
            let first = hit_spec(
                *cm.boundary,
                r,
                Interval { min: FX_MIN, max: FX_MAX },
                s,
            );
            match first.0 {
                None => (None, first.1),
                Some(h1) => {
                    let second = hit_spec(
                        *cm.boundary,
                        r,
                        Interval { min: fxadd(h1.t as int, MEDIUM_STEP as int) as i64, max: FX_MAX },
                        first.1,
                    );
                    match second.0 {
                        None => (None, second.1),
                        Some(h2) => medium_sample(
                            cm.phase_function,
                            cm.neg_inv_density as int,
                            r,
                            ray_t,
                            h1.t as int,
                            h2.t as int,
                            second.1,
                        ),
                    }
                },
            }
        },
        Hittable::Translate(tr) => {
            let offset_r = ray_new(vsub(r.origin, tr.offset), r.direction, r.time as int);
            let inner = hit_spec(*tr.object, offset_r, ray_t, s);
            match inner.0 {
                None => (None, inner.1),
                Some(rec) => (
                    Some(HitRecord { point: vadd(rec.point, tr.offset), ..rec }),
                    inner.1,
                ),
            }
        },
        Hittable::RotateY(ro) => {
            let origin = rotate_y_in(ro.sin_theta as int, ro.cos_theta as int, r.origin);
            let direction = rotate_y_in(ro.sin_theta as int, ro.cos_theta as int, r.direction);
            let rotated = ray_new(origin, direction, r.time as int);
            let inner = hit_spec(*ro.object, rotated, ray_t, s);
            match inner.0 {
                None => (None, inner.1),
                Some(rec) => (
                    Some(
                        HitRecord {
                            point: rotate_y_out(ro.sin_theta as int, ro.cos_theta as int, rec.point),
                            normal: rotate_y_out(
                                ro.sin_theta as int,
                                ro.cos_theta as int,
                                rec.normal,
                            ),
                            ..rec
                        },
                    ),
                    inner.1,
                ),
            }
        },
        Hittable::List(l) => list_hit_spec(l.objects@, 0, r, ray_t.min, ray_t.max, None, s),
        Hittable::Bvh(node) => {
            if !aabb_hit(node.bbox, r, ray_t) {
                (None, s)
            } else {
                let left = match node.left {
                    Some(lft) => hit_spec(*lft, r, ray_t, s),
                    None => (None, s),
                };
                let new_max = match left.0 {
                    Some(rec) => rec.t,
                    None => ray_t.max,
                };
                let right = match node.right {
                    Some(rgt) => hit_spec(
                        *rgt,
                        r,
                        Interval { min: ray_t.min, max: new_max },
                        left.1,
                    ),
                    None => (None, left.1),
                };
                match right.0 {
                    Some(_) => right,
                    None => (left.0, right.1),
                }
            }
        },
    }
}

/// A point transformed from world space into the rotated object's space.
pub open spec fn rotate_y_in(sin_theta: int, cos_theta: int, p: Vec3) -> Vec3 {
    Vec3 {
        x: fxsub(fxmul(cos_theta, p.x as int), fxmul(sin_theta, p.z as int)) as i64,
        y: p.y,
        z: fxadd(fxmul(sin_theta, p.x as int), fxmul(cos_theta, p.z as int)) as i64,
    }
}

/// A point transformed back from the rotated object's space to world space.
pub open spec fn rotate_y_out(sin_theta: int, cos_theta: int, p: Vec3) -> Vec3 {
    Vec3 {
        x: fxadd(fxmul(cos_theta, p.x as int), fxmul(sin_theta, p.z as int)) as i64,
        y: p.y,
        z: fxsub(fxmul(cos_theta, p.z as int), fxmul(sin_theta, p.x as int)) as i64,
    }
}

/// Whether a free flight through the chord `[t1, t2]` of the medium ends in
/// a scattering event, and where.
pub open spec fn medium_sample(
    phase: Arc<Material>,
    neg_inv_density: int,
    r: Ray,
    ray_t: Interval,
    entry: int,
    exit: int,
    s: u64,
) -> (Option<HitRecord>, u64) {
    let t1 = if entry < ray_t.min {
        ray_t.min as int
    } else {
        entry
    };
    let t2 = if exit > ray_t.max {
        ray_t.max as int
    } else {
        exit
    };
    if t1 >= t2 {
        (None, s)
    } else {
        let t1c = if t1 < 0 {
            0
        } else {
            t1
        };
        let ray_length = vlen(r.direction);
        let distance_inside_boundary = fxmul(fxsub(t2, t1c), ray_length);
        let u = ONE - rng_unit(s);
        let s1 = rng_next(s);
        let hit_distance = fxmul(neg_inv_density, crate::trig::fxln_unit(u as int));
        if hit_distance > distance_inside_boundary {
            (None, s1)
        } else {
            let t = fxadd(t1c, fxdiv(hit_distance, ray_length));
            (
                Some(
                    HitRecord {
                        point: ray_at(r, t),
                        normal: Vec3 { x: ONE, y: 0i64, z: 0i64 },
                        t: t as i64,
                        u: 0i64,
                        v: 0i64,
                        front_face: false,
                        mat: phase,
                    },
                ),
                s1,
            )
        }
    }
}

/// A linear scan from index `i`, narrowing the closing bound to the best
/// hit found so far.
pub open spec fn list_hit_spec(
    objs: Seq<Hittable>,
    i: int,
    r: Ray,
    tmin: i64,
    closest: i64,
    best: Option<HitRecord>,
    s: u64,
) -> (Option<HitRecord>, u64)
    decreases objs, 0int, objs.len() - i,
{
    if i < 0 || i >= objs.len() {
        (best, s)
    } else {
        let step = hit_spec(objs[i], r, Interval { min: tmin, max: closest }, s);
        match step.0 {
            None => list_hit_spec(objs, i + 1, r, tmin, closest, best, step.1),
            Some(rec) => list_hit_spec(objs, i + 1, r, tmin, rec.t, Some(rec), step.1),
        }
    }
}

/// The bounding box of each member of the geometry set.
pub open spec fn bbox_spec(h: Hittable) -> AABB
    decreases h,
{
    match h {
        Hittable::Sphere(sp) => sp.aabb,
        Hittable::MovingSphere(ms) => ms.aabb,
        Hittable::Quad(qd) => qd.aabb,
        Hittable::ConstantMedium(cm) => bbox_spec(*cm.boundary),
        Hittable::Translate(tr) => tr.bbox,
        Hittable::RotateY(ro) => ro.bbox,
        Hittable::List(l) => l.bbox,
        Hittable::Bvh(node) => node.bbox,
    }
}

impl Hittable {
    /// Where the ray first meets this geometry inside the interval.
    pub fn hit(&self, r: &Ray, ray_t: &Interval, rng: &mut Rng) -> (res: Option<HitRecord>)
        ensures
            (res, final (rng)@) == hit_spec(*self, *r, *ray_t, old(rng)@),
        decreases *self, 1int, 0int,
    {
        match self {
            Hittable::Sphere(sp) => sp.hit(r, ray_t, rng),
            Hittable::MovingSphere(ms) => ms.hit(r, ray_t, rng),
            Hittable::Quad(qd) => qd.hit(r, ray_t, rng),
            Hittable::ConstantMedium(cm) => {
                let first = cm.boundary.hit(r, &Interval::universe(), rng);
                match first {
                    None => None,
                    Some(h1) => {
                        let second = cm.boundary.hit(
                            r,
                            &Interval::new(fx_add(h1.t, MEDIUM_STEP), FX_MAX),
                            rng,
                        );
                        match second {
                            None => None,
                            Some(h2) => medium_sample_x(
                                &cm.phase_function,
                                cm.neg_inv_density,
                                r,
                                ray_t,
                                h1.t,
                                h2.t,
                                rng,
                            ),
                        }
                    },
                }
            },
            Hittable::Translate(tr) => {
                let offset_r = Ray::new(r.origin.sub(tr.offset), r.direction, r.time);
                let inner = tr.object.hit(&offset_r, ray_t, rng);
                match inner {
                    None => None,
                    Some(rec) => Some(
                        HitRecord {
                            point: rec.point.add(tr.offset),
                            normal: rec.normal,
                            t: rec.t,
                            u: rec.u,
                            v: rec.v,
                            front_face: rec.front_face,
                            mat: rec.mat,
                        },
                    ),
                }
            },
            Hittable::RotateY(ro) => {
                let origin = Vec3::new(
                    fx_sub(fx_mul(ro.cos_theta, r.origin.x), fx_mul(ro.sin_theta, r.origin.z)),
                    r.origin.y,
                    fx_add(fx_mul(ro.sin_theta, r.origin.x), fx_mul(ro.cos_theta, r.origin.z)),
                );
                let direction = Vec3::new(
                    fx_sub(
                        fx_mul(ro.cos_theta, r.direction.x),
                        fx_mul(ro.sin_theta, r.direction.z),
                    ),
                    r.direction.y,
                    fx_add(
                        fx_mul(ro.sin_theta, r.direction.x),
                        fx_mul(ro.cos_theta, r.direction.z),
                    ),
                );
                let rotated = Ray::new(origin, direction, r.time);
                let inner = ro.object.hit(&rotated, ray_t, rng);
                match inner {
                    None => None,
                    Some(rec) => {
                        let point = Vec3::new(
                            fx_add(fx_mul(ro.cos_theta, rec.point.x), fx_mul(ro.sin_theta, rec.point.z)),
                            rec.point.y,
                            fx_sub(fx_mul(ro.cos_theta, rec.point.z), fx_mul(ro.sin_theta, rec.point.x)),
                        );
                        let normal = Vec3::new(
                            fx_add(
                                fx_mul(ro.cos_theta, rec.normal.x),
                                fx_mul(ro.sin_theta, rec.normal.z),
                            ),
                            rec.normal.y,
                            fx_sub(
                                fx_mul(ro.cos_theta, rec.normal.z),
                                fx_mul(ro.sin_theta, rec.normal.x),
                            ),
                        );
                        Some(
                            HitRecord {
                                point,
                                normal,
                                t: rec.t,
                                u: rec.u,
                                v: rec.v,
                                front_face: rec.front_face,
                                mat: rec.mat,
                            },
                        )
                    },
                }
            },
            Hittable::List(l) => l.hit(r, ray_t, rng),
            Hittable::Bvh(node) => node.hit(r, ray_t, rng),
        }
    }

    /// The precomputed bounding box.
    pub fn bounding_box(&self) -> (res: &AABB)
        ensures
            *res == bbox_spec(*self),
        decreases *self,
    {
        match self {
            Hittable::Sphere(sp) => &sp.aabb,
            Hittable::MovingSphere(ms) => &ms.aabb,
            Hittable::Quad(qd) => &qd.aabb,
            Hittable::ConstantMedium(cm) => cm.boundary.bounding_box(),
            Hittable::Translate(tr) => &tr.bbox,
            Hittable::RotateY(ro) => &ro.bbox,
            Hittable::List(l) => &l.bbox,
            Hittable::Bvh(node) => &node.bbox,
        }
    }
}

/// The free-flight sampling step of the medium, verified apart so that its
/// contract can be read on its own.
fn medium_sample_x(
    phase: &Arc<Material>,
    neg_inv_density: i64,
    r: &Ray,
    ray_t: &Interval,
    entry: i64,
    exit: i64,
    rng: &mut Rng,
) -> (res: Option<HitRecord>)
    ensures
        (res, final (rng)@) == medium_sample(
            *phase,
            neg_inv_density as int,
            *r,
            *ray_t,
            entry as int,
            exit as int,
            old(rng)@,
        ),
{
    let t1 = fx_max(entry, ray_t.min);
    let t2 = fx_min(exit, ray_t.max);
    if t1 >= t2 {
        return None;
    }
    let t1c = fx_max(t1, 0);
    let ray_length = r.direction.length();
    let distance_inside_boundary = fx_mul(fx_sub(t2, t1c), ray_length);
    let u = ONE - rng.next_unit();
    let hit_distance = fx_mul(neg_inv_density, crate::trig::fx_ln_unit(u));
    if hit_distance > distance_inside_boundary {
        return None;
    }
    let t = fx_add(t1c, fx_div(hit_distance, ray_length));
    Some(
        HitRecord::new(
            r.at(t),
            Vec3::new(ONE, 0, 0),
            t,
            0,
            0,
            arc_clone(phase),
        ),
    )
}

impl Sphere {
    /// A sphere from its centre, radius and material.
    pub fn new(centre: Point3, radius: i64, mat: Arc<Material>) -> (r: Self)
        ensures
            r == (Sphere {
                centre,
                radius,
                mat,
                aabb: aabb_from_points(
                    vsub(centre, Vec3 { x: radius, y: radius, z: radius }),
                    vadd(centre, Vec3 { x: radius, y: radius, z: radius }),
                ),
            }),
    {
        let rvec = Vec3::new(radius, radius, radius);
        let aabb = AABB::from_points(centre.sub(rvec), centre.add(rvec));
        Sphere { centre, radius, mat, aabb }
    }

    /// Where the ray first meets the sphere inside the interval.
    pub fn hit(&self, r: &Ray, ray_t: &Interval, rng: &mut Rng) -> (res: Option<HitRecord>)
        ensures
            (res, final (rng)@) == hit_spec(
                Hittable::Sphere(clone_sphere(*self)),
                *r,
                *ray_t,
                old(rng)@,
            ),
    {
        sphere_hit_exec(&self.centre, self.radius, &self.mat, r, ray_t)
    }
}

/// A sphere's identity; spheres share their material, so this costs nothing.
pub open spec fn clone_sphere(s: Sphere) -> Sphere {
    s
}

/// The shared quadratic-root intersection of static and moving spheres.
fn sphere_hit_exec(
    centre: &Point3,
    radius: i64,
    mat: &Arc<Material>,
    r: &Ray,
    ray_t: &Interval,
) -> (res: Option<HitRecord>)
    ensures
        res == sphere_hit_at(*centre, radius as int, *mat, *r, *ray_t),
{
    let oc = r.origin.sub(*centre);
    let a = r.direction.length_squared();
    let half_b = oc.dot(r.direction);
    let c = fx_sub(oc.length_squared(), fx_mul(radius, radius));
    let discriminant = fx_sub(fx_mul(half_b, half_b), fx_mul(a, c));
    if discriminant < 0 {
        return None;
    }
    let sq = fx_sqrt(discriminant);
    let root1 = fx_div(fx_sub(fx_neg(half_b), sq), a);
    let root2 = fx_div(fx_add(fx_neg(half_b), sq), a);
    let root = if ray_t.contains(root1) {
        root1
    } else {
        root2
    };
    if !ray_t.contains(root) {
        return None;
    }
    let intersection = r.at(root);
    let outward_normal = intersection.sub(*centre).div_s(radius);
    let (u, v) = sphere_uv_exec(&outward_normal);
    let mut hitrec = HitRecord::new(intersection, outward_normal, root, u, v, arc_clone(mat));
    hitrec.set_face_normal(r, outward_normal);
    Some(hitrec)
}

/// The equirectangular texture coordinates of a point on the unit sphere.
fn sphere_uv_exec(p: &Point3) -> (r: (i64, i64))
    ensures
        (r.0 as int, r.1 as int) == sphere_uv(*p),
{
    let theta = fx_acos(fx_neg(p.y));
    let phi = fx_add(fx_atan2(fx_neg(p.z), p.x), FX_PI);
    (fx_div(phi, FX_TAU), fx_div(theta, FX_PI))
}

impl MovingSphere {
    /// A sphere moving from `centre_0` to `centre_1` over the exposure.
    pub fn new(
        name: String,
        centre_0: Point3,
        centre_1: Point3,
        radius: i64,
        mat: Arc<Material>,
    ) -> (r: Self)
        ensures
            r.name == name,
            r.centre_0 == centre_0,
            r.centre_1 == centre_1,
            r.centre_vec == vsub(centre_1, centre_0),
            r.radius == radius,
            r.mat == mat,
            r.aabb == aabb_union(
                aabb_from_points(
                    vsub(centre_0, Vec3 { x: radius, y: radius, z: radius }),
                    vadd(centre_0, Vec3 { x: radius, y: radius, z: radius }),
                ),
                aabb_from_points(
                    vsub(centre_1, Vec3 { x: radius, y: radius, z: radius }),
                    vadd(centre_1, Vec3 { x: radius, y: radius, z: radius }),
                ),
            ),
    {
        let rvec = Vec3::new(radius, radius, radius);
        let box0 = AABB::from_points(centre_0.sub(rvec), centre_0.add(rvec));
        let box1 = AABB::from_points(centre_1.sub(rvec), centre_1.add(rvec));
        MovingSphere {
            name,
            centre_0,
            centre_1,
            centre_vec: centre_1.sub(centre_0),
            radius,
            mat,
            aabb: AABB::from_boxes(&box0, &box1),
        }
    }

    /// The interpolated centre at a time.
    fn centre(&self, time: i64) -> (r: Point3)
        ensures
            r == moving_centre(*self, time as int),
    {
        self.centre_0.add(self.centre_vec.scale(time))
    }

    /// Where the ray first meets the sphere, at the ray's own time.
    pub fn hit(&self, r: &Ray, ray_t: &Interval, rng: &mut Rng) -> (res: Option<HitRecord>)
        ensures
            (res, final (rng)@) == hit_spec(
                Hittable::MovingSphere(clone_moving(*self)),
                *r,
                *ray_t,
                old(rng)@,
            ),
    {
        let centre = self.centre(r.time);
        sphere_hit_exec(&centre, self.radius, &self.mat, r, ray_t)
    }

    /// The sphere's label.
    pub fn name(&self) -> (r: String)
        ensures
            r@ == self.name@,
    {
        self.name.clone()
    }
}

/// A moving sphere's identity, for contracts that mention the whole value.
pub open spec fn clone_moving(s: MovingSphere) -> MovingSphere {
    s
}

impl Quad {
    /// A parallelogram from a corner and two edge vectors.
    pub fn new(q: Point3, u: Vec3, v: Vec3, mat: Arc<Material>) -> (r: Self)
        ensures
            r == quad_make(q, u, v, mat),
    {
        let aabb = AABB::from_points(q, q.add(u).add(v)).pad();
        let n = u.cross(v);
        let normal = n.unit();
        let d = normal.dot(q);
        let w = n.div_s(n.length_squared());
        Quad { q, u, v, mat, aabb, normal, d, w }
    }

    /// Where the ray meets the quad's plane, if inside the quad.
    pub fn hit(&self, r: &Ray, ray_t: &Interval, rng: &mut Rng) -> (res: Option<HitRecord>)
        ensures
            (res, final (rng)@) == hit_spec(
                Hittable::Quad(clone_quad(*self)),
                *r,
                *ray_t,
                old(rng)@,
            ),
    {
        let denom = self.normal.dot(r.direction.unit());
        if denom == 0 {
            // Parallel within one scalar quantum.
            return None;
        }
        let t = fx_div(fx_sub(self.d, self.normal.dot(r.origin)), denom);
        if !ray_t.contains(t) {
            return None;
        }
        let intersection = r.at(t);
        let planar_hitpoint_vec = intersection.sub(self.q);
        let alpha = self.w.dot(planar_hitpoint_vec.cross(self.v));
        let beta = self.w.dot(self.u.cross(planar_hitpoint_vec));
        if alpha < 0 || alpha > ONE || beta < 0 || beta > ONE {
            return None;
        }
        let mut hitrec = HitRecord::new(
            intersection,
            self.normal,
            t,
            alpha,
            beta,
            arc_clone(&self.mat),
        );
        hitrec.set_face_normal(r, self.normal);
        Some(hitrec)
    }
}

/// The quad `Quad::new` builds, with its plane data precomputed.
pub open spec fn quad_make(q: Point3, u: Vec3, v: Vec3, mat: Arc<Material>) -> Quad {
    let n = vcross(u, v);
    Quad {
        q,
        u,
        v,
        mat,
        aabb: aabb_pad(aabb_from_points(q, vadd(vadd(q, u), v))),
        normal: vunit(n),
        d: vdot(vunit(n), q) as i64,
        w: vdiv(n, vlen_sq(n)),
    }
}

/// A quad's identity, for contracts that mention the whole value.
pub open spec fn clone_quad(s: Quad) -> Quad {
    s
}

impl ConstantMedium {
    /// A homogeneous medium inside a boundary, scattering with the given
    /// density through an isotropic phase texture.
    pub fn new(boundary: Box<Hittable>, density: i64, texture: Arc<Texture>) -> (r: Self)
        ensures
            r.boundary == boundary,
            r.neg_inv_density == fxneg(fxdiv(ONE as int, density as int)),
            r.phase_function == Arc::new(
                Material::Isotropic(Isotropic { albedo: texture }),
            ),
    {
        ConstantMedium {
            phase_function: Arc::new(Material::Isotropic(Isotropic::new(texture))),
            boundary,
            neg_inv_density: fx_neg(fx_div(ONE, density)),
        }
    }

    /// A homogeneous medium of one colour.
    pub fn from_colour(boundary: Box<Hittable>, density: i64, colour: Colour) -> (r: Self)
        ensures
            r.boundary == boundary,
            r.neg_inv_density == fxneg(fxdiv(ONE as int, density as int)),
            r.phase_function == Arc::new(
                Material::Isotropic(
                    Isotropic {
                        albedo: Arc::new(Texture::Solid(SolidColour { value: colour })),
                    },
                ),
            ),
    {
        ConstantMedium {
            phase_function: Arc::new(Material::Isotropic(Isotropic::from_colour(colour))),
            boundary,
            neg_inv_density: fx_neg(fx_div(ONE, density)),
        }
    }
}

impl Translate {
    /// A hittable shifted by an offset.
    pub fn new(object: Box<Hittable>, offset: Vec3) -> (r: Self)
        ensures
            r.object == object,
            r.offset == offset,
            r.bbox == aabb_shift(bbox_spec(*object), offset),
    {
        let bbox = object.bounding_box().add(offset);
        Translate { object, offset, bbox }
    }
}

impl HittableList {
    /// An empty container.
    pub fn new() -> (r: Self)
        ensures
            r.objects@ == Seq::<Hittable>::empty(),
            r.bbox == (AABB {
                x: Interval { min: FX_MAX, max: FX_MIN },
                y: Interval { min: FX_MAX, max: FX_MIN },
                z: Interval { min: FX_MAX, max: FX_MIN },
            }),
    {
        HittableList { objects: Vec::new(), bbox: AABB::empty() }
    }

    /// Empty the container; the running box is left as it was, as adding
    /// ever again only grows it.
    pub fn clear(&mut self)
        ensures
            final (self).objects@ == Seq::<Hittable>::empty(),
            final (self).bbox == old(self).bbox,
    {
        self.objects.clear();
    }

    /// Add an object, growing the running union box around it.
    pub fn add(&mut self, object: Hittable)
        ensures
            final (self).objects@ == old(self).objects@.push(object),
            final (self).bbox == aabb_union(old(self).bbox, bbox_spec(object)),
    {
        self.bbox = AABB::from_boxes(&self.bbox, object.bounding_box());
        self.objects.push(object);
    }

    /// The closest hit over all objects: a linear scan that narrows the
    /// closing bound to the best hit found so far.
    pub fn hit(&self, r: &Ray, ray_t: &Interval, rng: &mut Rng) -> (res: Option<HitRecord>)
        ensures
            (res, final (rng)@) == list_hit_spec(
                self.objects@,
                0,
                *r,
                ray_t.min,
                ray_t.max,
                None,
                old(rng)@,
            ),
        decreases self.objects@, 0int, 0int,
    {
        let mut closest_so_far = ray_t.max;
        let mut hitrec: Option<HitRecord> = None;
        let mut i: usize = 0;
        let ghost orig = *rng;
        while i < self.objects.len()
            invariant
                i <= self.objects.len(),
                list_hit_spec(self.objects@, 0, *r, ray_t.min, ray_t.max, None, orig@)
                    == list_hit_spec(
                    self.objects@,
                    i as int,
                    *r,
                    ray_t.min,
                    closest_so_far,
                    hitrec,
                    rng@,
                ),
            decreases self.objects@, 0int, self.objects.len() - i,
        {
            let new_interval = Interval::new(ray_t.min, closest_so_far);
            let step = self.objects[i].hit(r, &new_interval, rng);
            match step {
                Some(temp_hitrec) => {
                    closest_so_far = temp_hitrec.t;
                    hitrec = Some(temp_hitrec);
                },
                None => {},
            }
            i = i + 1;
        }
        hitrec
    }

    /// The container's label.
    pub fn name(&self) -> String {
        "world".to_string()
    }

    /// The running union box of everything added.
    pub fn bounding_box(&self) -> (res: &AABB)
        ensures
            *res == self.bbox,
    {
        &self.bbox
    }
}

impl std::default::Default for HittableList {
    /// An empty container.
    fn default() -> (r: Self)
        ensures
            r.objects@ == Seq::<Hittable>::empty(),
            r.bbox == (AABB {
                x: Interval { min: FX_MAX, max: FX_MIN },
                y: Interval { min: FX_MAX, max: FX_MIN },
                z: Interval { min: FX_MAX, max: FX_MIN },
            }),
    {
        HittableList::new()
    }
}

impl RotateY {
    /// A hittable rotated about the y axis by an angle in degrees. The box
    /// is the hull of the rotated corners of the child's box.
    pub fn new(object: Box<Hittable>, angle: i64) -> (r: Self)
        ensures
            r.object == object,
            r.sin_theta == crate::trig::fxsin(fxmul(angle as int, 1144)),
            r.cos_theta == crate::trig::fxcos(fxmul(angle as int, 1144)),
            r.bbox == rotated_box(
                crate::trig::fxsin(fxmul(angle as int, 1144)) as i64,
                crate::trig::fxcos(fxmul(angle as int, 1144)) as i64,
                bbox_spec(*object),
            ),
    {
        // One degree in radians, as a scalar: pi / 180.
        let rads = fx_mul(angle, 1144);
        let sin_theta = crate::trig::fx_sin(rads);
        let cos_theta = crate::trig::fx_cos(rads);
        let bbox = rotated_box_exec(sin_theta, cos_theta, object.bounding_box());
        RotateY { object, sin_theta, cos_theta, bbox }
    }
}

/// The axis-aligned hull of a box's eight corners after rotation about y.
pub open spec fn rotated_box(sin_theta: i64, cos_theta: i64, b: AABB) -> AABB {
    let c000 = rotate_y_out(sin_theta as int, cos_theta as int, corner_of(b, false, false, false));
    let c001 = rotate_y_out(sin_theta as int, cos_theta as int, corner_of(b, false, false, true));
    let c010 = rotate_y_out(sin_theta as int, cos_theta as int, corner_of(b, false, true, false));
    let c011 = rotate_y_out(sin_theta as int, cos_theta as int, corner_of(b, false, true, true));
    let c100 = rotate_y_out(sin_theta as int, cos_theta as int, corner_of(b, true, false, false));
    let c101 = rotate_y_out(sin_theta as int, cos_theta as int, corner_of(b, true, false, true));
    let c110 = rotate_y_out(sin_theta as int, cos_theta as int, corner_of(b, true, true, false));
    let c111 = rotate_y_out(sin_theta as int, cos_theta as int, corner_of(b, true, true, true));
    aabb_union(
        aabb_union(
            aabb_union(aabb_from_points(c000, c001), aabb_from_points(c010, c011)),
            aabb_union(aabb_from_points(c100, c101), aabb_from_points(c110, c111)),
        ),
        aabb_from_points(c000, c000),
    )
}

/// One corner of a box, picking the maximum on each flagged axis.
pub open spec fn corner_of(b: AABB, xhi: bool, yhi: bool, zhi: bool) -> Point3 {
    Vec3 {
        x: if xhi {
            b.x.max
        } else {
            b.x.min
        },
        y: if yhi {
            b.y.max
        } else {
            b.y.min
        },
        z: if zhi {
            b.z.max
        } else {
            b.z.min
        },
    }
}

/// The axis-aligned hull of a box's eight corners after rotation about y.
fn rotated_box_exec(sin_theta: i64, cos_theta: i64, b: &AABB) -> (r: AABB)
    ensures
        r == rotated_box(sin_theta, cos_theta, *b),
{
    let c000 = rotate_out_exec(sin_theta, cos_theta, corner_exec(b, false, false, false));
    let c001 = rotate_out_exec(sin_theta, cos_theta, corner_exec(b, false, false, true));
    let c010 = rotate_out_exec(sin_theta, cos_theta, corner_exec(b, false, true, false));
    let c011 = rotate_out_exec(sin_theta, cos_theta, corner_exec(b, false, true, true));
    let c100 = rotate_out_exec(sin_theta, cos_theta, corner_exec(b, true, false, false));
    let c101 = rotate_out_exec(sin_theta, cos_theta, corner_exec(b, true, false, true));
    let c110 = rotate_out_exec(sin_theta, cos_theta, corner_exec(b, true, true, false));
    let c111 = rotate_out_exec(sin_theta, cos_theta, corner_exec(b, true, true, true));
    AABB::from_boxes(
        &AABB::from_boxes(
            &AABB::from_boxes(
                &AABB::from_points(c000, c001),
                &AABB::from_points(c010, c011),
            ),
            &AABB::from_boxes(
                &AABB::from_points(c100, c101),
                &AABB::from_points(c110, c111),
            ),
        ),
        &AABB::from_points(c000, c000),
    )
}

/// One corner of a box, picking the maximum on each flagged axis.
fn corner_exec(b: &AABB, xhi: bool, yhi: bool, zhi: bool) -> (r: Point3)
    ensures
        r == corner_of(*b, xhi, yhi, zhi),
{
    Vec3 {
        x: if xhi {
            b.x.max
        } else {
            b.x.min
        },
        y: if yhi {
            b.y.max
        } else {
            b.y.min
        },
        z: if zhi {
            b.z.max
        } else {
            b.z.min
        },
    }
}

/// A point transformed back from the rotated object's space to world space.
fn rotate_out_exec(sin_theta: i64, cos_theta: i64, p: Vec3) -> (r: Vec3)
    ensures
        r == rotate_y_out(sin_theta as int, cos_theta as int, p),
{
    Vec3 {
        x: fx_add(fx_mul(cos_theta, p.x), fx_mul(sin_theta, p.z)),
        y: p.y,
        z: fx_sub(fx_mul(cos_theta, p.z), fx_mul(sin_theta, p.x)),
    }
}

/// The six quads of the axis-aligned box with opposite corners `a` and `b`,
/// all sharing one material.
pub open spec fn box_sides(a: Point3, b: Point3, mat: Arc<Material>) -> Seq<Hittable> {
    let min = Vec3 {
        x: if a.x <= b.x {
            a.x
        } else {
            b.x
        },
        y: if a.y <= b.y {
            a.y
        } else {
            b.y
        },
        z: if a.z <= b.z {
            a.z
        } else {
            b.z
        },
    };
    let max = Vec3 {
        x: if a.x >= b.x {
            a.x
        } else {
            b.x
        },
        y: if a.y >= b.y {
            a.y
        } else {
            b.y
        },
        z: if a.z >= b.z {
            a.z
        } else {
            b.z
        },
    };
    let dx = Vec3 { x: fxsub(max.x as int, min.x as int) as i64, y: 0i64, z: 0i64 };
    let dy = Vec3 { x: 0i64, y: fxsub(max.y as int, min.y as int) as i64, z: 0i64 };
    let dz = Vec3 { x: 0i64, y: 0i64, z: fxsub(max.z as int, min.z as int) as i64 };
    seq![
        Hittable::Quad(quad_make(Vec3 { x: min.x, y: min.y, z: max.z }, dx, dy, mat)),
        Hittable::Quad(quad_make(Vec3 { x: max.x, y: min.y, z: max.z }, vneg(dz), dy, mat)),
        Hittable::Quad(quad_make(Vec3 { x: max.x, y: min.y, z: min.z }, vneg(dx), dy, mat)),
        Hittable::Quad(quad_make(Vec3 { x: min.x, y: min.y, z: min.z }, dz, dy, mat)),
        Hittable::Quad(quad_make(Vec3 { x: min.x, y: max.y, z: max.z }, dx, vneg(dz), mat)),
        Hittable::Quad(quad_make(Vec3 { x: min.x, y: min.y, z: min.z }, dx, dz, mat)),
    ]
}

/// The hull of the six faces' padded boxes, as the container accumulates
/// it while the faces are added.
pub open spec fn box_sides_hull(a: Point3, b: Point3, mat: Arc<Material>) -> AABB {
    let s = box_sides(a, b, mat);
    let none = AABB {
        x: Interval { min: FX_MAX, max: FX_MIN },
        y: Interval { min: FX_MAX, max: FX_MIN },
        z: Interval { min: FX_MAX, max: FX_MIN },
    };
    aabb_union(
        aabb_union(
            aabb_union(
                aabb_union(
                    aabb_union(aabb_union(none, bbox_spec(s[0])), bbox_spec(s[1])),
                    bbox_spec(s[2]),
                ),
                bbox_spec(s[3]),
            ),
            bbox_spec(s[4]),
        ),
        bbox_spec(s[5]),
    )
}

/// A rectangular prism assembled from six quads sharing one material.
#[verifier::rlimit(60)]
#[verifier::spinoff_prover]
pub fn new_box(a: &Point3, b: &Point3, mat: Arc<Material>) -> (r: HittableList)
    ensures
        r.objects@ == box_sides(*a, *b, mat),
        r.bbox == box_sides_hull(*a, *b, mat),
{
    let mut sides = HittableList::new();
    let min = Vec3::new(fx_min(a.x, b.x), fx_min(a.y, b.y), fx_min(a.z, b.z));
    let max = Vec3::new(fx_max(a.x, b.x), fx_max(a.y, b.y), fx_max(a.z, b.z));
    let dx = Vec3::new(fx_sub(max.x, min.x), 0, 0);
    let dy = Vec3::new(0, fx_sub(max.y, min.y), 0);
    let dz = Vec3::new(0, 0, fx_sub(max.z, min.z));
    // Front.
    sides.add(
        Hittable::Quad(Quad::new(Vec3::new(min.x, min.y, max.z), dx, dy, arc_clone(&mat))),
    );
    // Right.
    sides.add(
        Hittable::Quad(Quad::new(Vec3::new(max.x, min.y, max.z), dz.neg(), dy, arc_clone(&mat))),
    );
    // Back.
    sides.add(
        Hittable::Quad(Quad::new(Vec3::new(max.x, min.y, min.z), dx.neg(), dy, arc_clone(&mat))),
    );
    // Left.
    sides.add(
        Hittable::Quad(Quad::new(Vec3::new(min.x, min.y, min.z), dz, dy, arc_clone(&mat))),
    );
    // Top.
    sides.add(
        Hittable::Quad(Quad::new(Vec3::new(min.x, max.y, max.z), dx, dz.neg(), arc_clone(&mat))),
    );
    // Bottom.
    sides.add(Hittable::Quad(Quad::new(Vec3::new(min.x, min.y, min.z), dx, dz, mat)));
    proof {
        assert(sides.objects@ =~= box_sides(*a, *b, mat));
        assert(sides.bbox == box_sides_hull(*a, *b, mat));
    }
    sides
}

} // verus!

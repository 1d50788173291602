//! The camera: viewport geometry and per-sample ray generation.

use vstd::prelude::*;

use crate::fixed::{fx_div, fx_mul, fxdiv, fxmul, ONE};
use crate::ray::{ray_new, Ray};
use crate::rng::{rng_next, rng_unit, Rng};
use crate::trig::{fxtan, fx_tan, FX_DEG};
use crate::vec3::{
    rand_disk_spec, vadd, vcross, vdiv, vneg, vscale, vsub, vunit, Vec3,
};
use crate::Point3;

verus! {

/// Camera configuration, consumed by `build`.
#[derive(Clone, Copy, Debug, PartialEq, Eq, Structural)]
pub struct CameraBuilder {
    pub origin: Point3,
    pub aspect_ratio: i64,
    pub aperture: i64,
    pub focus_dist: i64,
    pub fov: i64,
    pub look_dir: Option<Vec3>,
    pub look_at: Vec3,
    pub v_up: Vec3,
}

/// A camera ready to cast rays.
#[derive(Clone, Copy, Debug, PartialEq, Eq, Structural)]
pub struct Camera {
    pub origin: Point3,
    pub upper_left_corner: Point3,
    pub horizontal: Vec3,
    pub vertical: Vec3,
    pub lens_radius: i64,
    pub u: Vec3,
    pub v: Vec3,
    pub w: Vec3,
}

/// The camera a builder configuration produces.
pub open spec fn camera_of(b: CameraBuilder) -> Camera {
    let theta = fxmul(b.fov as int, FX_DEG as int);
    let h = fxtan(fxdiv(theta, 2 * ONE));
    let viewport_height = fxmul(2 * ONE, h);
    let viewport_width = fxmul(b.aspect_ratio as int, viewport_height);
    let look_dir = match b.look_dir {
        Some(look_dir) => look_dir,
        None => vsub(b.look_at, b.origin),
    };
    let w = vneg(vunit(look_dir));
    let u = vcross(b.v_up, w);
    let v = vcross(w, u);
    let horizontal = vscale(vscale(u, viewport_width), b.focus_dist as int);
    let vertical = vscale(vscale(v, viewport_height), b.focus_dist as int);
    let upper_left_corner = vsub(
        vadd(vsub(b.origin, vdiv(horizontal, 2 * ONE)), vdiv(vertical, 2 * ONE)),
        vscale(w, b.focus_dist as int),
    );
    Camera {
        origin: b.origin,
        upper_left_corner,
        horizontal,
        vertical,
        lens_radius: fxdiv(b.aperture as int, 2 * ONE) as i64,
        u,
        v,
        w,
    }
}

/// The ray cast at normalised pixel coordinates `(s, t)` from state `st`:
/// a lens-disk jitter of the origin, then a random exposure time.
pub open spec fn get_ray_spec(c: Camera, s: int, t: int, st: u64) -> (Ray, u64) {
    let (dv, st1) = rand_disk_spec(st, 64);
    let rd = vscale(dv, c.lens_radius as int);
    let offset = vadd(vscale(c.u, rd.x as int), vscale(c.v, rd.y as int));
    let time = rng_unit(st1);
    let st2 = rng_next(st1);
    let direction = vsub(
        vsub(
            vsub(vadd(c.upper_left_corner, vscale(c.horizontal, s)), vscale(c.vertical, t)),
            c.origin,
        ),
        offset,
    );
    (ray_new(vadd(c.origin, offset), direction, time as int), st2)
}

impl CameraBuilder {
    /// The default configuration: a wide view from the origin toward the
    /// negative focus axis.
    pub fn new() -> (r: Self)
        ensures
            r == (CameraBuilder {
                origin: Vec3 { x: 0i64, y: 0i64, z: (-ONE) as i64 },
                aspect_ratio: fxdiv(16 * ONE, 9 * ONE) as i64,
                aperture: 0i64,
                focus_dist: (10 * ONE) as i64,
                fov: (40 * ONE) as i64,
                look_dir: None::<Vec3>,
                look_at: vunit(Vec3 { x: 0i64, y: 0i64, z: 0i64 }),
                v_up: Vec3 { x: 0i64, y: ONE, z: 0i64 },
            }),
    {
        CameraBuilder {
            origin: Vec3::new(0, 0, -ONE),
            aspect_ratio: fx_div(16 * ONE, 9 * ONE),
            aperture: 0,
            focus_dist: 10 * ONE,
            fov: 40 * ONE,
            look_dir: None,
            look_at: Vec3::zeros().unit(),
            v_up: Vec3::new(0, ONE, 0),
        }
    }

    /// The camera's position.
    pub fn origin(self, origin: Point3) -> (r: Self)
        ensures
            r == (CameraBuilder { origin, ..self }),
    {
        CameraBuilder { origin, ..self }
    }

    /// Aim along a direction.
    pub fn look_dir(self, look_dir: Vec3) -> (r: Self)
        ensures
            r == (CameraBuilder { look_dir: Some(look_dir), ..self }),
    {
        CameraBuilder { look_dir: Some(look_dir), ..self }
    }

    /// Aim at a point.
    pub fn look_at(self, look_at: Vec3) -> (r: Self)
        ensures
            r == (CameraBuilder { look_at, ..self }),
    {
        CameraBuilder { look_at, ..self }
    }

    /// Which way is up.
    pub fn v_up(self, v_up: Vec3) -> (r: Self)
        ensures
            r == (CameraBuilder { v_up, ..self }),
    {
        CameraBuilder { v_up, ..self }
    }

    /// Width over height of the viewport.
    pub fn aspect_ratio(self, aspect_ratio: i64) -> (r: Self)
        ensures
            r == (CameraBuilder { aspect_ratio, ..self }),
    {
        CameraBuilder { aspect_ratio, ..self }
    }

    /// The lens opening; zero means no defocus blur.
    pub fn aperture(self, aperture: i64) -> (r: Self)
        ensures
            r == (CameraBuilder { aperture, ..self }),
    {
        CameraBuilder { aperture, ..self }
    }

    /// The distance at which the image is sharp.
    pub fn focus_dist(self, focus_dist: i64) -> (r: Self)
        ensures
            r == (CameraBuilder { focus_dist, ..self }),
    {
        CameraBuilder { focus_dist, ..self }
    }

    /// Sets the vertical field of view of the camera in degrees.
    pub fn fov(self, fov: i64) -> (r: Self)
        ensures
            r == (CameraBuilder { fov, ..self }),
    {
        CameraBuilder { fov, ..self }
    }

    /// The camera this configuration describes.
    pub fn build(&self) -> (r: Camera)
        ensures
            r == camera_of(*self),
    {
        let theta = fx_mul(self.fov, FX_DEG);
        let h = fx_tan(fx_div(theta, 2 * ONE));
        let viewport_height = fx_mul(2 * ONE, h);
        let viewport_width = fx_mul(self.aspect_ratio, viewport_height);
        let look_dir = match self.look_dir {
            Some(look_dir) => look_dir,
            None => self.look_at.sub(self.origin),
        };
        let w = look_dir.unit().neg();
        let u = self.v_up.cross(w);
        let v = w.cross(u);
        let horizontal = u.scale(viewport_width).scale(self.focus_dist);
        let vertical = v.scale(viewport_height).scale(self.focus_dist);
        let upper_left_corner = self.origin.sub(horizontal.div_s(2 * ONE)).add(
            vertical.div_s(2 * ONE),
        ).sub(w.scale(self.focus_dist));
        Camera {
            origin: self.origin,
            upper_left_corner,
            horizontal,
            vertical,
            lens_radius: fx_div(self.aperture, 2 * ONE),
            u,
            v,
            w,
        }
    }
}

impl std::default::Default for CameraBuilder {
    /// The same configuration a fresh builder starts from.
    fn default() -> (r: Self)
        ensures
            r == (CameraBuilder {
                origin: Vec3 { x: 0i64, y: 0i64, z: (-ONE) as i64 },
                aspect_ratio: fxdiv(16 * ONE, 9 * ONE) as i64,
                aperture: 0i64,
                focus_dist: (10 * ONE) as i64,
                fov: (40 * ONE) as i64,
                look_dir: None::<Vec3>,
                look_at: vunit(Vec3 { x: 0i64, y: 0i64, z: 0i64 }),
                v_up: Vec3 { x: 0i64, y: ONE, z: 0i64 },
            }),
    {
        CameraBuilder::new()
    }
}

impl Camera {
    /// Gets the ray of the camera with given normalised pixel coordinates
    /// `(s, t)`: `(0, 0)` is the top left corner, `(1, 1)` the bottom
    /// right.
    pub fn get_ray(&self, s: i64, t: i64, rng: &mut Rng) -> (r: Ray)
        ensures
            (r, final (rng)@) == get_ray_spec(*self, s as int, t as int, old(rng)@),
    {
        let rd = Vec3::random_in_unit_disk(rng).scale(self.lens_radius);
        let offset = self.u.scale(rd.x).add(self.v.scale(rd.y));
        let time = rng.next_unit();
        let direction = self.upper_left_corner.add(self.horizontal.scale(s)).sub(
            self.vertical.scale(t),
        ).sub(self.origin).sub(offset);
        Ray::new(self.origin.add(offset), direction, time)
    }

    /// A fresh default configuration.
    pub fn builder() -> (r: CameraBuilder)
        ensures
            r == (CameraBuilder {
                origin: Vec3 { x: 0i64, y: 0i64, z: (-ONE) as i64 },
                aspect_ratio: fxdiv(16 * ONE, 9 * ONE) as i64,
                aperture: 0i64,
                focus_dist: (10 * ONE) as i64,
                fov: (40 * ONE) as i64,
                look_dir: None::<Vec3>,
                look_at: vunit(Vec3 { x: 0i64, y: 0i64, z: 0i64 }),
                v_up: Vec3 { x: 0i64, y: ONE, z: 0i64 },
            }),
    {
        CameraBuilder::new()
    }
}

} // verus!

//! Three-component vectors over the fixed-point scalars, used for points,
//! directions and colours alike.

use vstd::prelude::*;

use crate::fixed::{
    clip, fx_abs, fx_add, fx_div, fx_min, fx_mul, fx_neg, fx_sqrt, fx_sub, fxadd, fxdiv, fxmul,
    fxneg, fxsqrt, fxsub, sabs, ONE,
};
use crate::rng::{rng_next, rng_range, Rng};

verus! {

/// A vector of three fixed-point scalars.
#[derive(Clone, Copy, Debug, PartialEq, Eq, Structural)]
pub struct Vec3 {
    pub x: i64,
    pub y: i64,
    pub z: i64,
}

/// Component-wise sum.
pub open spec fn vadd(a: Vec3, b: Vec3) -> Vec3 {
    Vec3 {
        x: fxadd(a.x as int, b.x as int) as i64,
        y: fxadd(a.y as int, b.y as int) as i64,
        z: fxadd(a.z as int, b.z as int) as i64,
    }
}

/// Component-wise difference.
pub open spec fn vsub(a: Vec3, b: Vec3) -> Vec3 {
    Vec3 {
        x: fxsub(a.x as int, b.x as int) as i64,
        y: fxsub(a.y as int, b.y as int) as i64,
        z: fxsub(a.z as int, b.z as int) as i64,
    }
}

/// Component-wise negation.
pub open spec fn vneg(a: Vec3) -> Vec3 {
    Vec3 {
        x: fxneg(a.x as int) as i64,
        y: fxneg(a.y as int) as i64,
        z: fxneg(a.z as int) as i64,
    }
}

/// Component-wise (Hadamard) product, as colour attenuation uses.
pub open spec fn vmul(a: Vec3, b: Vec3) -> Vec3 {
    Vec3 {
        x: fxmul(a.x as int, b.x as int) as i64,
        y: fxmul(a.y as int, b.y as int) as i64,
        z: fxmul(a.z as int, b.z as int) as i64,
    }
}

/// Product with a scalar.
pub open spec fn vscale(a: Vec3, s: int) -> Vec3 {
    Vec3 {
        x: fxmul(a.x as int, s) as i64,
        y: fxmul(a.y as int, s) as i64,
        z: fxmul(a.z as int, s) as i64,
    }
}

/// Component-wise quotient.
pub open spec fn vdiv_each(a: Vec3, b: Vec3) -> Vec3 {
    Vec3 {
        x: fxdiv(a.x as int, b.x as int) as i64,
        y: fxdiv(a.y as int, b.y as int) as i64,
        z: fxdiv(a.z as int, b.z as int) as i64,
    }
}

/// Quotient by a scalar.
pub open spec fn vdiv(a: Vec3, s: int) -> Vec3 {
    Vec3 {
        x: fxdiv(a.x as int, s) as i64,
        y: fxdiv(a.y as int, s) as i64,
        z: fxdiv(a.z as int, s) as i64,
    }
}

/// Inner product.
pub open spec fn vdot(a: Vec3, b: Vec3) -> int {
    fxadd(
        fxadd(fxmul(a.x as int, b.x as int), fxmul(a.y as int, b.y as int)),
        fxmul(a.z as int, b.z as int),
    )
}

/// Cross product.
pub open spec fn vcross(a: Vec3, b: Vec3) -> Vec3 {
    Vec3 {
        x: fxsub(fxmul(a.y as int, b.z as int), fxmul(a.z as int, b.y as int)) as i64,
        y: fxsub(fxmul(a.z as int, b.x as int), fxmul(a.x as int, b.z as int)) as i64,
        z: fxsub(fxmul(a.x as int, b.y as int), fxmul(a.y as int, b.x as int)) as i64,
    }
}

/// Squared Euclidean length.
pub open spec fn vlen_sq(a: Vec3) -> int {
    vdot(a, a)
}

/// Euclidean length.
pub open spec fn vlen(a: Vec3) -> int {
    fxsqrt(vlen_sq(a))
}

/// The vector rescaled to unit length (saturating when the length is zero).
pub open spec fn vunit(a: Vec3) -> Vec3 {
    vdiv(a, vlen(a))
}

/// Whether the vector is shorter than one scalar quantum in squared length.
pub open spec fn vnear_zero(a: Vec3) -> bool {
    vlen_sq(a) == 0
}

/// Mirror reflection of `v` about the plane with normal `n`.
pub open spec fn vreflect(v: Vec3, n: Vec3) -> Vec3 {
    vsub(v, vscale(vscale(n, vdot(v, n)), 2 * ONE))
}

/// Refraction of the unit vector `v` through a surface with unit normal `n`,
/// with `eta` the ratio of refractive indices.
pub open spec fn vrefract(v: Vec3, n: Vec3, eta: int) -> Vec3 {
    let cos_theta = if vdot(vneg(v), n) <= ONE {
        vdot(vneg(v), n)
    } else {
        ONE as int
    };
    let r_perp = vscale(vadd(v, vscale(n, cos_theta)), eta);
    let r_par = vscale(n, fxneg(fxsqrt(clip(sabs(fxsub(ONE as int, vlen_sq(r_perp)))))));
    vadd(r_perp, r_par)
}

impl Vec3 {
    /// A vector from its three components.
    pub fn new(x: i64, y: i64, z: i64) -> (r: Self)
        ensures
            r == (Vec3 { x, y, z }),
    {
        Vec3 { x, y, z }
    }

    /// The zero vector.
    pub fn zeros() -> (r: Self)
        ensures
            r == (Vec3 { x: 0i64, y: 0i64, z: 0i64 }),
    {
        Vec3 { x: 0, y: 0, z: 0 }
    }

    /// Component by index: 0 is x, 1 is y, 2 is z.
    pub fn index(&self, i: usize) -> (r: i64)
        requires
            i < 3,
        ensures
            r == if i == 0 {
                self.x
            } else if i == 1 {
                self.y
            } else {
                self.z
            },
    {
        if i == 0 {
            self.x
        } else if i == 1 {
            self.y
        } else {
            self.z
        }
    }

    /// Component-wise sum.
    pub fn add(&self, other: Self) -> (r: Self)
        ensures
            r == vadd(*self, other),
    {
        Vec3 {
            x: fx_add(self.x, other.x),
            y: fx_add(self.y, other.y),
            z: fx_add(self.z, other.z),
        }
    }

    /// Component-wise difference.
    pub fn sub(&self, other: Self) -> (r: Self)
        ensures
            r == vsub(*self, other),
    {
        Vec3 {
            x: fx_sub(self.x, other.x),
            y: fx_sub(self.y, other.y),
            z: fx_sub(self.z, other.z),
        }
    }

    /// Component-wise negation.
    pub fn neg(&self) -> (r: Self)
        ensures
            r == vneg(*self),
    {
        Vec3 { x: fx_neg(self.x), y: fx_neg(self.y), z: fx_neg(self.z) }
    }

    /// Component-wise (Hadamard) product.
    pub fn mul(&self, other: Self) -> (r: Self)
        ensures
            r == vmul(*self, other),
    {
        Vec3 {
            x: fx_mul(self.x, other.x),
            y: fx_mul(self.y, other.y),
            z: fx_mul(self.z, other.z),
        }
    }

    /// Product with a scalar.
    pub fn scale(&self, s: i64) -> (r: Self)
        ensures
            r == vscale(*self, s as int),
    {
        Vec3 { x: fx_mul(self.x, s), y: fx_mul(self.y, s), z: fx_mul(self.z, s) }
    }

    /// Component-wise quotient.
    pub fn div(&self, other: Self) -> (r: Self)
        ensures
            r == vdiv_each(*self, other),
    {
        Vec3 {
            x: fx_div(self.x, other.x),
            y: fx_div(self.y, other.y),
            z: fx_div(self.z, other.z),
        }
    }

    /// Quotient by a scalar.
    pub fn div_s(&self, s: i64) -> (r: Self)
        ensures
            r == vdiv(*self, s as int),
    {
        Vec3 { x: fx_div(self.x, s), y: fx_div(self.y, s), z: fx_div(self.z, s) }
    }

    /// Inner product.
    pub fn dot(&self, other: Self) -> (r: i64)
        ensures
            r as int == vdot(*self, other),
    {
        fx_add(
            fx_add(fx_mul(self.x, other.x), fx_mul(self.y, other.y)),
            fx_mul(self.z, other.z),
        )
    }

    /// Cross product.
    pub fn cross(&self, other: Self) -> (r: Self)
        ensures
            r == vcross(*self, other),
    {
        Vec3 {
            x: fx_sub(fx_mul(self.y, other.z), fx_mul(self.z, other.y)),
            y: fx_sub(fx_mul(self.z, other.x), fx_mul(self.x, other.z)),
            z: fx_sub(fx_mul(self.x, other.y), fx_mul(self.y, other.x)),
        }
    }

    /// Squared Euclidean length.
    pub fn length_squared(&self) -> (r: i64)
        ensures
            r as int == vlen_sq(*self),
    {
        self.dot(*self)
    }

    /// Euclidean length.
    pub fn length(&self) -> (r: i64)
        ensures
            r as int == vlen(*self),
    {
        fx_sqrt(self.length_squared())
    }

    /// The vector rescaled to unit length.
    pub fn unit(&self) -> (r: Self)
        ensures
            r == vunit(*self),
    {
        let len = self.length();
        self.div_s(len)
    }

    /// Whether the vector is shorter than one scalar quantum in squared
    /// length; such a scatter direction is treated as degenerate.
    pub fn near_zero(&self) -> (r: bool)
        ensures
            r == vnear_zero(*self),
    {
        self.length_squared() == 0
    }

    /// Reflects a vector based on a surface normal.
    pub fn reflect(&self, normal: &Self) -> (r: Self)
        ensures
            r == vreflect(*self, *normal),
    {
        let d = self.dot(*normal);
        self.sub(normal.scale(d).scale(2 * ONE))
    }

    /// Refracts a vector based on a surface normal and a ratio of etas.
    /// Both vectors must be unit vectors.
    pub fn refract(&self, normal: &Self, etai_over_etat: i64) -> (r: Self)
        ensures
            r == vrefract(*self, *normal, etai_over_etat as int),
    {
        let cos_theta = fx_min(self.neg().dot(*normal), ONE);
        let r_out_perp = self.add(normal.scale(cos_theta)).scale(etai_over_etat);
        let r_out_parallel = normal.scale(
            fx_neg(fx_sqrt(fx_abs(fx_sub(ONE, r_out_perp.length_squared())))),
        );
        r_out_perp.add(r_out_parallel)
    }

    /// Whether the two vectors agree within a small relative tolerance on
    /// every component.
    pub fn is_close(&self, other: &Self) -> (r: bool)
        ensures
            r == vclose(*self, *other),
    {
        close_scalar(self.x, other.x) && close_scalar(self.y, other.y)
            && close_scalar(self.z, other.z)
    }
}

/// Whether two scalars agree within a small relative tolerance.
pub open spec fn sclose(a: int, b: int) -> bool {
    sabs(a - b) < sabs(a) / 65536 + 2
}

/// Whether two vectors agree within a small relative tolerance everywhere.
pub open spec fn vclose(a: Vec3, b: Vec3) -> bool {
    sclose(a.x as int, b.x as int) && sclose(a.y as int, b.y as int) && sclose(
        a.z as int,
        b.z as int,
    )
}

/// Whether two scalars agree within a small relative tolerance.
fn close_scalar(a: i64, b: i64) -> (r: bool)
    ensures
        r == sclose(a as int, b as int),
{
    let d = (a as i128) - (b as i128);
    let dm = if d < 0 {
        (-d) as u128
    } else {
        d as u128
    };
    let am = if a < 0 {
        (-(a as i128)) as u128
    } else {
        a as u128
    };
    dm < am / 65536 + 2
}

impl Vec3 {
    /// Each component independently uniform in `[lo, hi)`.
    pub fn random_in_range(rng: &mut Rng, lo: i64, hi: i64) -> (r: Self)
        requires
            lo < hi,
        ensures
            r == rand_vec_spec(old(rng)@, lo, (hi - 1) as i64),
            final (rng)@ == rng_next(rng_next(rng_next(old(rng)@))),
    {
        Self::random_in_range_inclusive(rng, lo, hi - 1)
    }

    /// Each component independently uniform in `[lo, hi]`.
    pub fn random_in_range_inclusive(rng: &mut Rng, lo: i64, hi: i64) -> (r: Self)
        requires
            lo <= hi,
        ensures
            r == rand_vec_spec(old(rng)@, lo, hi),
            final (rng)@ == rng_next(rng_next(rng_next(old(rng)@))),
    {
        let x = rng.next_range(lo, hi);
        let y = rng.next_range(lo, hi);
        let z = rng.next_range(lo, hi);
        Vec3 { x, y, z }
    }

    /// A vector inside the unit sphere, by rejection sampling with a bounded
    /// number of draws; after that the positive x axis stands in.
    pub fn random_in_unit_sphere(rng: &mut Rng) -> (r: Self)
        ensures
            ({
                let (v, s) = rand_sphere_spec(old(rng)@, 64);
                r == v && final (rng)@ == s
            }),
    {
        sphere_rec(rng, 64)
    }

    /// A vector inside the unit disk of the x-y plane, by rejection sampling
    /// with a bounded number of draws; after that the positive x axis stands
    /// in.
    pub fn random_in_unit_disk(rng: &mut Rng) -> (r: Self)
        ensures
            ({
                let (v, s) = rand_disk_spec(old(rng)@, 64);
                r == v && final (rng)@ == s
            }),
    {
        disk_rec(rng, 64)
    }
}

/// The vector drawn by three uniform draws from state `s`.
pub open spec fn rand_vec_spec(s: u64, lo: i64, hi: i64) -> Vec3 {
    Vec3 {
        x: rng_range(s, lo, hi),
        y: rng_range(rng_next(s), lo, hi),
        z: rng_range(rng_next(rng_next(s)), lo, hi),
    }
}

/// Rejection sampling inside the unit sphere, with bounded fuel.
pub open spec fn rand_sphere_spec(s: u64, fuel: nat) -> (Vec3, u64)
    decreases fuel,
{
    if fuel == 0 {
        (Vec3 { x: ONE, y: 0i64, z: 0i64 }, s)
    } else {
        let v = rand_vec_spec(s, (-ONE) as i64, ONE);
        let s3 = rng_next(rng_next(rng_next(s)));
        if vlen_sq(v) <= ONE {
            (v, s3)
        } else {
            rand_sphere_spec(s3, (fuel - 1) as nat)
        }
    }
}

/// Rejection sampling inside the unit disk, with bounded fuel.
pub open spec fn rand_disk_spec(s: u64, fuel: nat) -> (Vec3, u64)
    decreases fuel,
{
    if fuel == 0 {
        (Vec3 { x: ONE, y: 0i64, z: 0i64 }, s)
    } else {
        let v = Vec3 { x: rng_range(s, (-ONE) as i64, ONE), y: rng_range(rng_next(s), (-ONE) as i64, ONE), z: 0i64 };
        let s2 = rng_next(rng_next(s));
        if vlen_sq(v) <= ONE {
            (v, s2)
        } else {
            rand_disk_spec(s2, (fuel - 1) as nat)
        }
    }
}

fn sphere_rec(rng: &mut Rng, fuel: u64) -> (r: Vec3)
    ensures
        ({
            let (v, s) = rand_sphere_spec(old(rng)@, fuel as nat);
            r == v && final (rng)@ == s
        }),
    decreases fuel,
{
    if fuel == 0 {
        Vec3 { x: ONE, y: 0, z: 0 }
    } else {
        let v = Vec3::random_in_range_inclusive(rng, -ONE, ONE);
        if v.length_squared() <= ONE {
            v
        } else {
            sphere_rec(rng, fuel - 1)
        }
    }
}

fn disk_rec(rng: &mut Rng, fuel: u64) -> (r: Vec3)
    ensures
        ({
            let (v, s) = rand_disk_spec(old(rng)@, fuel as nat);
            r == v && final (rng)@ == s
        }),
    decreases fuel,
{
    if fuel == 0 {
        Vec3 { x: ONE, y: 0, z: 0 }
    } else {
        let x = rng.next_range(-ONE, ONE);
        let y = rng.next_range(-ONE, ONE);
        let v = Vec3 { x, y, z: 0 };
        if v.length_squared() <= ONE {
            v
        } else {
            disk_rec(rng, fuel - 1)
        }
    }
}

} // verus!

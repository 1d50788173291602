//! Axis-aligned bounding boxes and the ray-slab intersection test.

use vstd::prelude::*;

use crate::fixed::{fx_div, fx_max, fx_min, fx_sub, fxdiv, fxsub, FX_MAX, FX_MIN, ONE};
use crate::interval::{ivl_expand, ivl_shift, ivl_union, Interval};
use crate::ray::Ray;
use crate::Point3;

verus! {

/// Minimum slab thickness: boxes thinner than this on an axis are padded,
/// so axis-aligned flat geometry still gets a usable box. The value is
/// even, so halving it for the symmetric padding is exact and a padded
/// axis reaches the minimum in one step.
pub const PAD_DELTA: i64 = 8;

/// An axis-aligned box: one closed interval per axis.
#[derive(Clone, Copy, Debug, PartialEq, Eq, Structural)]
pub struct AABB {
    pub x: Interval,
    pub y: Interval,
    pub z: Interval,
}

/// The box-hull of two points.
pub open spec fn aabb_from_points(a: Point3, b: Point3) -> AABB {
    AABB {
        x: Interval {
            min: if a.x <= b.x {
                a.x
            } else {
                b.x
            },
            max: if a.x >= b.x {
                a.x
            } else {
                b.x
            },
        },
        y: Interval {
            min: if a.y <= b.y {
                a.y
            } else {
                b.y
            },
            max: if a.y >= b.y {
                a.y
            } else {
                b.y
            },
        },
        z: Interval {
            min: if a.z <= b.z {
                a.z
            } else {
                b.z
            },
            max: if a.z >= b.z {
                a.z
            } else {
                b.z
            },
        },
    }
}

/// The box-hull of two boxes.
pub open spec fn aabb_union(a: AABB, b: AABB) -> AABB {
    AABB { x: ivl_union(a.x, b.x), y: ivl_union(a.y, b.y), z: ivl_union(a.z, b.z) }
}

/// The box with every axis thinner than `PAD_DELTA` expanded to it.
pub open spec fn aabb_pad(b: AABB) -> AABB {
    AABB {
        x: if fxsub(b.x.max as int, b.x.min as int) >= PAD_DELTA {
            b.x
        } else {
            ivl_expand(b.x, PAD_DELTA as int)
        },
        y: if fxsub(b.y.max as int, b.y.min as int) >= PAD_DELTA {
            b.y
        } else {
            ivl_expand(b.y, PAD_DELTA as int)
        },
        z: if fxsub(b.z.max as int, b.z.min as int) >= PAD_DELTA {
            b.z
        } else {
            ivl_expand(b.z, PAD_DELTA as int)
        },
    }
}

/// The box shifted by an offset.
pub open spec fn aabb_shift(b: AABB, offset: crate::vec3::Vec3) -> AABB {
    AABB {
        x: ivl_shift(b.x, offset.x as int),
        y: ivl_shift(b.y, offset.y as int),
        z: ivl_shift(b.z, offset.z as int),
    }
}

/// One axis of the slab test: intersect the running parameter range with
/// the range where the ray is between the two slab planes. Division by a
/// zero direction component saturates, which resolves to "always inside"
/// or "never inside" without a special case, as the floating-point
/// infinities would; an origin exactly on a slab plane of such an axis
/// leaves that bound unconstrained, as the floating-point combination of
/// an indeterminate quotient with `min`/`max` does.
pub open spec fn slab_axis(mn: int, mx: int, o: int, d: int, lo: int, hi: int) -> (int, int) {
    let p = slab_pair(mn, mx, o, d);
    (
        if p.0 > lo {
            p.0
        } else {
            lo
        },
        if p.1 < hi {
            p.1
        } else {
            hi
        },
    )
}

/// The entry and exit parameters of one slab, ordered by the direction's
/// sign.
pub open spec fn slab_pair(mn: int, mx: int, o: int, d: int) -> (int, int) {
    let t0 = if d == 0 && mn == o {
        FX_MIN as int
    } else {
        fxdiv(fxsub(mn, o), d)
    };
    let t1 = if d == 0 && mx == o {
        FX_MAX as int
    } else {
        fxdiv(fxsub(mx, o), d)
    };
    if d < 0 {
        (t1, t0)
    } else {
        (t0, t1)
    }
}

/// Whether the ray passes through the box within the parameter range.
pub open spec fn aabb_hit(b: AABB, r: Ray, t: Interval) -> bool {
    let p0 = slab_axis(
        b.x.min as int,
        b.x.max as int,
        r.origin.x as int,
        r.direction.x as int,
        t.min as int,
        t.max as int,
    );
    if p0.1 <= p0.0 {
        false
    } else {
        let p1 = slab_axis(
            b.y.min as int,
            b.y.max as int,
            r.origin.y as int,
            r.direction.y as int,
            p0.0,
            p0.1,
        );
        if p1.1 <= p1.0 {
            false
        } else {
            let p2 = slab_axis(
                b.z.min as int,
                b.z.max as int,
                r.origin.z as int,
                r.direction.z as int,
                p1.0,
                p1.1,
            );
            p2.1 > p2.0
        }
    }
}

/// The entry and exit parameters of one slab, already ordered by the
/// direction's sign.
fn slab_bounds(mn: i64, mx: i64, o: i64, d: i64) -> (r: (i64, i64))
    ensures
        (r.0 as int, r.1 as int) == slab_pair(mn as int, mx as int, o as int, d as int),
{
    let t0 = if d == 0 && mn == o {
        FX_MIN
    } else {
        fx_div(fx_sub(mn, o), d)
    };
    let t1 = if d == 0 && mx == o {
        FX_MAX
    } else {
        fx_div(fx_sub(mx, o), d)
    };
    if d < 0 {
        (t1, t0)
    } else {
        (t0, t1)
    }
}

/// Whether the first box contains the second, axis by axis.
pub open spec fn aabb_contains(outer: AABB, inner: AABB) -> bool {
    outer.x.min <= inner.x.min && inner.x.max <= outer.x.max && outer.y.min <= inner.y.min
        && inner.y.max <= outer.y.max && outer.z.min <= inner.z.min && inner.z.max
        <= outer.z.max
}

/// The union-hull contains both of its arguments.
pub proof fn lemma_union_contains(a: AABB, b: AABB)
    ensures
        aabb_contains(aabb_union(a, b), a),
        aabb_contains(aabb_union(a, b), b),
{
}

/// Widening a slab only widens the parameter window it admits.
proof fn lemma_slab_pair_widens(mn1: int, mx1: int, mn2: int, mx2: int, o: int, d: int)
    requires
        mn2 <= mn1,
        mx1 <= mx2,
    ensures
        slab_pair(mn2, mx2, o, d).0 <= slab_pair(mn1, mx1, o, d).0,
        slab_pair(mn1, mx1, o, d).1 <= slab_pair(mn2, mx2, o, d).1,
{
    if d == 0 {
        // Entry parameters collapse to the signed sentinels; a lower
        // minimum can only lower the entry, a higher maximum only raise
        // the exit.
        assert(slab_pair(mn2, mx2, o, d).0 == if mn2 > o {
            FX_MAX as int
        } else {
            FX_MIN as int
        });
        assert(slab_pair(mn1, mx1, o, d).0 == if mn1 > o {
            FX_MAX as int
        } else {
            FX_MIN as int
        });
        assert(slab_pair(mn1, mx1, o, d).1 == if mx1 < o {
            FX_MIN as int
        } else {
            FX_MAX as int
        });
        assert(slab_pair(mn2, mx2, o, d).1 == if mx2 < o {
            FX_MIN as int
        } else {
            FX_MAX as int
        });
    } else {
        crate::fixed::lemma_fxdiv_mono(fxsub(mn2, o), fxsub(mn1, o), d);
        crate::fixed::lemma_fxdiv_mono(fxsub(mx1, o), fxsub(mx2, o), d);
    }
}

/// A ray that strikes a box strikes every box containing it, over the same
/// parameter interval.
pub proof fn lemma_aabb_hit_contains(outer: AABB, inner: AABB, r: Ray, t: Interval)
    requires
        aabb_contains(outer, inner),
        aabb_hit(inner, r, t),
    ensures
        aabb_hit(outer, r, t),
{
    lemma_slab_pair_widens(
        inner.x.min as int,
        inner.x.max as int,
        outer.x.min as int,
        outer.x.max as int,
        r.origin.x as int,
        r.direction.x as int,
    );
    lemma_slab_pair_widens(
        inner.y.min as int,
        inner.y.max as int,
        outer.y.min as int,
        outer.y.max as int,
        r.origin.y as int,
        r.direction.y as int,
    );
    lemma_slab_pair_widens(
        inner.z.min as int,
        inner.z.max as int,
        outer.z.min as int,
        outer.z.max as int,
        r.origin.z as int,
        r.direction.z as int,
    );
}

/// Padding gives every axis at least the minimum thickness, and padding a
/// padded box changes nothing, for boxes whose axes are ordered and sit
/// clear of the representable extremes.
pub proof fn lemma_pad_floor_and_idempotent(b: AABB)
    requires
        b.x.min <= b.x.max,
        b.y.min <= b.y.max,
        b.z.min <= b.z.max,
        crate::fixed::FX_MIN + PAD_DELTA <= b.x.min && b.x.max <= crate::fixed::FX_MAX
            - PAD_DELTA,
        crate::fixed::FX_MIN + PAD_DELTA <= b.y.min && b.y.max <= crate::fixed::FX_MAX
            - PAD_DELTA,
        crate::fixed::FX_MIN + PAD_DELTA <= b.z.min && b.z.max <= crate::fixed::FX_MAX
            - PAD_DELTA,
    ensures
        fxsub(aabb_pad(b).x.max as int, aabb_pad(b).x.min as int) >= PAD_DELTA,
        fxsub(aabb_pad(b).y.max as int, aabb_pad(b).y.min as int) >= PAD_DELTA,
        fxsub(aabb_pad(b).z.max as int, aabb_pad(b).z.min as int) >= PAD_DELTA,
        aabb_pad(aabb_pad(b)) == aabb_pad(b),
{
    assert(PAD_DELTA == 8 && ONE == 65536);
    assert(crate::fixed::sabs(8int * 65536) == 524288 && crate::fixed::sabs(2int * 65536)
        == 131072);
    assert(524288int / 131072int == 4) by (nonlinear_arith);
    assert(crate::fixed::tdiv(8int * 65536, 2int * 65536) == 4);
    assert(fxdiv(8int, (2 * ONE) as int) == 4);
}

impl AABB {
    /// A box from its three axis intervals.
    pub fn new(x: Interval, y: Interval, z: Interval) -> (r: Self)
        ensures
            r == (AABB { x, y, z }),
    {
        AABB { x, y, z }
    }

    /// The box that contains nothing.
    pub fn empty() -> (r: Self)
        ensures
            r == (AABB {
                x: Interval { min: crate::fixed::FX_MAX, max: crate::fixed::FX_MIN },
                y: Interval { min: crate::fixed::FX_MAX, max: crate::fixed::FX_MIN },
                z: Interval { min: crate::fixed::FX_MAX, max: crate::fixed::FX_MIN },
            }),
    {
        AABB { x: Interval::empty(), y: Interval::empty(), z: Interval::empty() }
    }

    /// The box-hull of two points.
    pub fn from_points(a: Point3, b: Point3) -> (r: Self)
        ensures
            r == aabb_from_points(a, b),
    {
        AABB {
            x: Interval { min: fx_min(a.x, b.x), max: fx_max(a.x, b.x) },
            y: Interval { min: fx_min(a.y, b.y), max: fx_max(a.y, b.y) },
            z: Interval { min: fx_min(a.z, b.z), max: fx_max(a.z, b.z) },
        }
    }

    /// The box-hull of two boxes.
    pub fn from_boxes(a: &Self, b: &Self) -> (r: Self)
        ensures
            r == aabb_union(*a, *b),
    {
        AABB {
            x: Interval::from_intervals(&a.x, &b.x),
            y: Interval::from_intervals(&a.y, &b.y),
            z: Interval::from_intervals(&a.z, &b.z),
        }
    }

    /// The axis interval with the given index: 0 is x, 1 is y, 2 is z.
    pub fn axis(&self, n: usize) -> (r: &Interval)
        requires
            n < 3,
        ensures
            *r == if n == 0 {
                self.x
            } else if n == 1 {
                self.y
            } else {
                self.z
            },
    {
        if n == 0 {
            &self.x
        } else if n == 1 {
            &self.y
        } else {
            &self.z
        }
    }

    /// Whether the ray passes through the box within the parameter range.
    pub fn hit(&self, r: &Ray, ray_t: &Interval) -> (res: bool)
        ensures
            res == aabb_hit(*self, *r, *ray_t),
    {
        let (u0, u1) = slab_bounds(self.x.min, self.x.max, r.origin.x, r.direction.x);
        let lo0 = fx_max(u0, ray_t.min);
        let hi0 = fx_min(u1, ray_t.max);
        if hi0 <= lo0 {
            return false;
        }
        let (v0, v1) = slab_bounds(self.y.min, self.y.max, r.origin.y, r.direction.y);
        let lo1 = fx_max(v0, lo0);
        let hi1 = fx_min(v1, hi0);
        if hi1 <= lo1 {
            return false;
        }
        let (w0, w1) = slab_bounds(self.z.min, self.z.max, r.origin.z, r.direction.z);
        let lo2 = fx_max(w0, lo1);
        let hi2 = fx_min(w1, hi1);
        hi2 > lo2
    }

    /// The box with every axis thinner than `PAD_DELTA` expanded to it.
    pub fn pad(&self) -> (r: Self)
        ensures
            r == aabb_pad(*self),
    {
        let new_x = if self.x.size() >= PAD_DELTA {
            self.x
        } else {
            self.x.expand(PAD_DELTA)
        };
        let new_y = if self.y.size() >= PAD_DELTA {
            self.y
        } else {
            self.y.expand(PAD_DELTA)
        };
        let new_z = if self.z.size() >= PAD_DELTA {
            self.z
        } else {
            self.z.expand(PAD_DELTA)
        };
        AABB { x: new_x, y: new_y, z: new_z }
    }

    /// The box shifted by an offset.
    pub fn add(&self, offset: crate::vec3::Vec3) -> (r: Self)
        ensures
            r == aabb_shift(*self, offset),
    {
        AABB {
            x: self.x.add(offset.x),
            y: self.y.add(offset.y),
            z: self.z.add(offset.z),
        }
    }
}

} // verus!

//! Closed scalar ranges.

use vstd::prelude::*;

use crate::fixed::{fx_add, fx_div, fx_max, fx_min, fx_sub, fxadd, fxdiv, fxsub, FX_MAX, FX_MIN, ONE};

verus! {

/// A closed range `[min, max]` of scalars. A range with `min > max`
/// contains nothing.
#[derive(Clone, Copy, Debug, PartialEq, Eq, Structural)]
pub struct Interval {
    pub min: i64,
    pub max: i64,
}

/// The union-hull of two intervals.
pub open spec fn ivl_union(a: Interval, b: Interval) -> Interval {
    Interval {
        min: if a.min <= b.min {
            a.min
        } else {
            b.min
        },
        max: if a.max >= b.max {
            a.max
        } else {
            b.max
        },
    }
}

/// Whether `x` lies inside the interval.
pub open spec fn ivl_contains(a: Interval, x: int) -> bool {
    a.min <= x <= a.max
}

/// The interval grown symmetrically by half of `delta` on each side.
pub open spec fn ivl_expand(a: Interval, delta: int) -> Interval {
    let padding = fxdiv(delta, 2 * ONE);
    Interval {
        min: fxsub(a.min as int, padding) as i64,
        max: fxadd(a.max as int, padding) as i64,
    }
}

/// The interval shifted by an offset.
pub open spec fn ivl_shift(a: Interval, rhs: int) -> Interval {
    Interval { min: fxadd(a.min as int, rhs) as i64, max: fxadd(a.max as int, rhs) as i64 }
}

impl Interval {
    /// A new interval with the specified minimum and maximum.
    /// The minimum must be less than the maximum for it to contain anything.
    pub fn new(min: i64, max: i64) -> (r: Self)
        ensures
            r == (Interval { min, max }),
    {
        Interval { min, max }
    }

    /// The interval that contains nothing.
    pub fn empty() -> (r: Self)
        ensures
            r == (Interval { min: FX_MAX, max: FX_MIN }),
    {
        Interval { min: FX_MAX, max: FX_MIN }
    }

    /// The interval that contains every scalar.
    pub fn universe() -> (r: Self)
        ensures
            r == (Interval { min: FX_MIN, max: FX_MAX }),
    {
        Interval { min: FX_MIN, max: FX_MAX }
    }

    /// The union-hull of two intervals.
    pub fn from_intervals(a: &Self, b: &Self) -> (r: Self)
        ensures
            r == ivl_union(*a, *b),
    {
        Interval { min: fx_min(a.min, b.min), max: fx_max(a.max, b.max) }
    }

    /// Whether a given value is between the minimum and maximum values
    /// of the interval.
    pub fn contains(&self, x: i64) -> (r: bool)
        ensures
            r == ivl_contains(*self, x as int),
    {
        x >= self.min && x <= self.max
    }

    /// The interval grown symmetrically by half of `delta` on each side.
    pub fn expand(&self, delta: i64) -> (r: Self)
        ensures
            r == ivl_expand(*self, delta as int),
    {
        let padding = fx_div(delta, 2 * ONE);
        Interval { min: fx_sub(self.min, padding), max: fx_add(self.max, padding) }
    }

    /// The width of the interval.
    pub fn size(&self) -> (r: i64)
        ensures
            r as int == fxsub(self.max as int, self.min as int),
    {
        fx_sub(self.max, self.min)
    }

    /// The interval shifted by an offset.
    pub fn add(&self, rhs: i64) -> (r: Self)
        ensures
            r == ivl_shift(*self, rhs as int),
    {
        Interval { min: fx_add(self.min, rhs), max: fx_add(self.max, rhs) }
    }
}

} // verus!

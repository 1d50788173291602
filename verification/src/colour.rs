//! Quantizing colours to eight-bit channel values.

use vstd::prelude::*;

use crate::fixed::{sabs, tdiv, ONE};
use crate::Colour;

verus! {

/// One channel scaled to `[0, 255]`: negative values floor at zero, the
/// scale stays just under 256 so full intensity maps to 255.
pub open spec fn channel_value(x: int) -> int {
    if x < 0 {
        0
    } else {
        tdiv(x * 255999, 1000 * ONE)
    }
}

/// The three channel values of a colour, each scaled to `[0, 255]` for an
/// intensity in `[0, 1]`; brighter inputs keep their larger values, as a
/// text image writer can carry them.
pub fn write_colour(colour: &Colour) -> (r: (u64, u64, u64))
    ensures
        r.0 == channel_value(colour.x as int),
        r.1 == channel_value(colour.y as int),
        r.2 == channel_value(colour.z as int),
{
    (channel_x(colour.x), channel_x(colour.y), channel_x(colour.z))
}

/// One channel scaled to `[0, 255]`.
fn channel_x(x: i64) -> (r: u64)
    ensures
        r == channel_value(x as int),
{
    if x < 0 {
        return 0;
    }
    let wide: u128 = (x as u128) * 255999;
    let q: u128 = wide / 65536000;
    proof {
        assert(sabs(x as int * 255999) == x as int * 255999 && sabs(x as int * 255999) / (1000
            * ONE) == wide / 65536000 && x as int * 255999 <= 0xFFFF_FFFF_FFFF_FFFFu64 as int
            * 255999) by (nonlinear_arith)
            requires
                0 <= x,
                wide == x as int * 255999,
                x <= i64::MAX,
        ;
    }
    q as u64
}

} // verus!

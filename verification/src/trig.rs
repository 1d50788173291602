//! Trigonometric and logarithmic scalar helpers.
//!
//! Each function is an explicit polynomial approximation over the
//! fixed-point scalars — range reduction first, then a truncated series
//! whose error stays within a few scalar quanta — so each has an exact
//! mathematical description and callers inherit exact contracts.

use vstd::prelude::*;

use crate::fixed::{
    fx_abs, fx_add, fx_div, fx_emod, fx_mul, fx_neg, fx_sqrt, fx_sub, fxadd, fxdiv, fxmul, fxneg,
    fxsqrt, fxsub, ONE,
};

verus! {

/// Pi, as a fixed-point scalar.
pub const FX_PI: i64 = 205887;

/// Two pi, as a fixed-point scalar.
pub const FX_TAU: i64 = 411774;

/// Half pi, as a fixed-point scalar.
pub const FX_HALF_PI: i64 = 102943;

/// A quarter pi, as a fixed-point scalar.
pub const FX_QUARTER_PI: i64 = 51471;

/// The tangent of an eighth turn, the series cut-over point.
pub const FX_TAN_PI_8: i64 = 27146;

/// The natural logarithm of two, as a fixed-point scalar.
pub const FX_LN2: i64 = 45426;

/// One degree in radians, as a fixed-point scalar: pi over 180.
pub const FX_DEG: i64 = 1144;

/// Sine on the first quadrant: four odd series terms.
pub open spec fn sin_core(x: int) -> int {
    let x2 = fxmul(x, x);
    let x3 = fxmul(x2, x);
    let x5 = fxmul(x3, x2);
    let x7 = fxmul(x5, x2);
    let x9 = fxmul(x7, x2);
    fxadd(
        fxsub(fxadd(fxsub(x, fxdiv(x3, 6 * ONE)), fxdiv(x5, 120 * ONE)), fxdiv(x7, 5040 * ONE)),
        fxdiv(x9, 362880 * ONE),
    )
}

/// Cosine on the first quadrant: five even series terms.
pub open spec fn cos_core(x: int) -> int {
    let x2 = fxmul(x, x);
    let x4 = fxmul(x2, x2);
    let x6 = fxmul(x4, x2);
    let x8 = fxmul(x6, x2);
    fxadd(
        fxsub(
            fxadd(fxsub(ONE as int, fxdiv(x2, 2 * ONE)), fxdiv(x4, 24 * ONE)),
            fxdiv(x6, 720 * ONE),
        ),
        fxdiv(x8, 40320 * ONE),
    )
}

/// Sine of a scalar angle in radians.
pub open spec fn fxsin(x: int) -> int {
    let m = x % (FX_TAU as int);
    if m < FX_PI {
        if m <= FX_HALF_PI {
            sin_core(m)
        } else {
            sin_core(FX_PI - m)
        }
    } else {
        let m2 = m - FX_PI;
        if m2 <= FX_HALF_PI {
            fxneg(sin_core(m2))
        } else {
            fxneg(sin_core(FX_PI - m2))
        }
    }
}

/// Cosine of a scalar angle in radians.
pub open spec fn fxcos(x: int) -> int {
    let m = x % (FX_TAU as int);
    if m < FX_PI {
        if m <= FX_HALF_PI {
            cos_core(m)
        } else {
            fxneg(cos_core(FX_PI - m))
        }
    } else {
        let m2 = m - FX_PI;
        if m2 <= FX_HALF_PI {
            fxneg(cos_core(m2))
        } else {
            cos_core(FX_PI - m2)
        }
    }
}

/// Tangent of a scalar angle in radians.
pub open spec fn fxtan(x: int) -> int {
    fxdiv(fxsin(x), fxcos(x))
}

/// Arctangent by five odd series terms, for small arguments.
pub open spec fn atan_series(u: int) -> int {
    let u2 = fxmul(u, u);
    let u3 = fxmul(u2, u);
    let u5 = fxmul(u3, u2);
    let u7 = fxmul(u5, u2);
    let u9 = fxmul(u7, u2);
    fxadd(
        fxsub(fxadd(fxsub(u, fxdiv(u3, 3 * ONE)), fxdiv(u5, 5 * ONE)), fxdiv(u7, 7 * ONE)),
        fxdiv(u9, 9 * ONE),
    )
}

/// Arctangent on `[0, 1]`, folding large arguments around an eighth turn.
pub open spec fn atan01(t: int) -> int {
    if t <= FX_TAN_PI_8 {
        atan_series(t)
    } else {
        fxadd(FX_QUARTER_PI as int, atan_series(fxdiv(fxsub(t, ONE as int), fxadd(t, ONE as int))))
    }
}

/// Four-quadrant arctangent of `y/x`, in `(-pi, pi]`.
pub open spec fn fxatan2(y: int, x: int) -> int {
    if x == 0 && y == 0 {
        0
    } else {
        let ax = crate::fixed::clip(crate::fixed::sabs(x));
        let ay = crate::fixed::clip(crate::fixed::sabs(y));
        let base = if ay <= ax {
            atan01(fxdiv(ay, ax))
        } else {
            fxsub(FX_HALF_PI as int, atan01(fxdiv(ax, ay)))
        };
        if x >= 0 {
            if y >= 0 {
                base
            } else {
                fxneg(base)
            }
        } else {
            if y >= 0 {
                fxsub(FX_PI as int, base)
            } else {
                fxsub(base, FX_PI as int)
            }
        }
    }
}

/// Arccosine of a scalar in `[-1, 1]`, in `[0, pi]`.
pub open spec fn fxacos(y: int) -> int {
    fxatan2(fxsqrt(fxsub(ONE as int, fxmul(y, y))), y)
}

/// Sine of a scalar angle in radians.
pub fn fx_sin(x: i64) -> (r: i64)
    ensures
        r as int == fxsin(x as int),
{
    let m = fx_emod(x, FX_TAU);
    if m < FX_PI {
        if m <= FX_HALF_PI {
            sin_core_x(m)
        } else {
            sin_core_x(FX_PI - m)
        }
    } else {
        let m2 = m - FX_PI;
        if m2 <= FX_HALF_PI {
            fx_neg(sin_core_x(m2))
        } else {
            fx_neg(sin_core_x(FX_PI - m2))
        }
    }
}

/// Cosine of a scalar angle in radians.
pub fn fx_cos(x: i64) -> (r: i64)
    ensures
        r as int == fxcos(x as int),
{
    let m = fx_emod(x, FX_TAU);
    if m < FX_PI {
        if m <= FX_HALF_PI {
            cos_core_x(m)
        } else {
            fx_neg(cos_core_x(FX_PI - m))
        }
    } else {
        let m2 = m - FX_PI;
        if m2 <= FX_HALF_PI {
            fx_neg(cos_core_x(m2))
        } else {
            cos_core_x(FX_PI - m2)
        }
    }
}

/// Tangent of a scalar angle in radians.
pub fn fx_tan(x: i64) -> (r: i64)
    ensures
        r as int == fxtan(x as int),
{
    fx_div(fx_sin(x), fx_cos(x))
}

fn sin_core_x(x: i64) -> (r: i64)
    ensures
        r as int == sin_core(x as int),
{
    let x2 = fx_mul(x, x);
    let x3 = fx_mul(x2, x);
    let x5 = fx_mul(x3, x2);
    let x7 = fx_mul(x5, x2);
    let x9 = fx_mul(x7, x2);
    fx_add(
        fx_sub(
            fx_add(fx_sub(x, fx_div(x3, 6 * ONE)), fx_div(x5, 120 * ONE)),
            fx_div(x7, 5040 * ONE),
        ),
        fx_div(x9, 362880 * ONE),
    )
}

fn cos_core_x(x: i64) -> (r: i64)
    ensures
        r as int == cos_core(x as int),
{
    let x2 = fx_mul(x, x);
    let x4 = fx_mul(x2, x2);
    let x6 = fx_mul(x4, x2);
    let x8 = fx_mul(x6, x2);
    fx_add(
        fx_sub(
            fx_add(fx_sub(ONE, fx_div(x2, 2 * ONE)), fx_div(x4, 24 * ONE)),
            fx_div(x6, 720 * ONE),
        ),
        fx_div(x8, 40320 * ONE),
    )
}

fn atan_series_x(u: i64) -> (r: i64)
    ensures
        r as int == atan_series(u as int),
{
    let u2 = fx_mul(u, u);
    let u3 = fx_mul(u2, u);
    let u5 = fx_mul(u3, u2);
    let u7 = fx_mul(u5, u2);
    let u9 = fx_mul(u7, u2);
    fx_add(
        fx_sub(fx_add(fx_sub(u, fx_div(u3, 3 * ONE)), fx_div(u5, 5 * ONE)), fx_div(u7, 7 * ONE)),
        fx_div(u9, 9 * ONE),
    )
}

fn atan01_x(t: i64) -> (r: i64)
    ensures
        r as int == atan01(t as int),
{
    if t <= FX_TAN_PI_8 {
        atan_series_x(t)
    } else {
        fx_add(FX_QUARTER_PI, atan_series_x(fx_div(fx_sub(t, ONE), fx_add(t, ONE))))
    }
}

/// Four-quadrant arctangent of `y/x`, in `(-pi, pi]`.
pub fn fx_atan2(y: i64, x: i64) -> (r: i64)
    ensures
        r as int == fxatan2(y as int, x as int),
{
    if x == 0 && y == 0 {
        return 0;
    }
    let ax = fx_abs(x);
    let ay = fx_abs(y);
    let base = if ay <= ax {
        atan01_x(fx_div(ay, ax))
    } else {
        fx_sub(FX_HALF_PI, atan01_x(fx_div(ax, ay)))
    };
    if x >= 0 {
        if y >= 0 {
            base
        } else {
            fx_neg(base)
        }
    } else {
        if y >= 0 {
            fx_sub(FX_PI, base)
        } else {
            fx_sub(base, FX_PI)
        }
    }
}

/// Arccosine of a scalar in `[-1, 1]`, in `[0, pi]`.
pub fn fx_acos(y: i64) -> (r: i64)
    ensures
        r as int == fxacos(y as int),
{
    fx_atan2(fx_sqrt(fx_sub(ONE, fx_mul(y, y))), y)
}

/// The normal form of a positive scalar: doubled until it reaches `[1, 2)`,
/// together with the number of doublings.
pub open spec fn ln_norm(m: int, k: int) -> (int, int)
    decreases (if m < ONE {
        ONE - m
    } else {
        0int
    }),
{
    if m < 1 || m >= ONE {
        (m, k)
    } else {
        ln_norm(2 * m, k + 1)
    }
}

/// Natural logarithm of `u` as a fraction of one, for `u` in `(0, 1]`;
/// the result is at most zero.
pub open spec fn fxln_unit(u: int) -> int {
    let (m, k) = ln_norm(u, 0);
    let t = fxdiv(m - ONE, m + ONE);
    let t2 = fxmul(t, t);
    let t3 = fxmul(t2, t);
    let t5 = fxmul(t3, t2);
    let series = fxmul(2 * ONE, fxadd(fxadd(t, fxdiv(t3, 3 * ONE)), fxdiv(t5, 5 * ONE)));
    fxsub(series, k * FX_LN2)
}

/// Natural logarithm of `u` as a fraction of one, for `u` in `(0, 1]`.
pub fn fx_ln_unit(u: i64) -> (r: i64)
    requires
        1 <= u <= ONE,
    ensures
        r as int == fxln_unit(u as int),
{
    let mut m: i64 = u;
    let mut k: i64 = 0;
    proof {
        vstd::arithmetic::power2::lemma2_to64();
    }
    while m < ONE
        invariant
            1 <= m < 2 * ONE,
            0 <= k <= 16,
            m as int >= vstd::arithmetic::power2::pow2(k as nat),
            ln_norm(u as int, 0) == ln_norm(m as int, k as int),
        decreases (if m < ONE {
            ONE - m
        } else {
            0int
        }),
    {
        proof {
            vstd::arithmetic::power2::lemma2_to64();
            if k >= 16 {
                assert(m as int >= vstd::arithmetic::power2::pow2(16));
            }
            assert(vstd::arithmetic::power2::pow2((k + 1) as nat) == 2 * vstd::arithmetic::power2::pow2(
                k as nat,
            )) by {
                vstd::arithmetic::power2::lemma_pow2_adds(k as nat, 1);
                vstd::arithmetic::power2::lemma2_to64();
            }
        }
        m = 2 * m;
        k = k + 1;
    }
    proof {
        assert(ln_norm(m as int, k as int) == (m as int, k as int));
    }
    let t = fx_div(fx_sub(m, ONE), fx_add(m, ONE));
    let t2 = fx_mul(t, t);
    let t3 = fx_mul(t2, t);
    let t5 = fx_mul(t3, t2);
    let series = fx_mul(2 * ONE, fx_add(fx_add(t, fx_div(t3, 3 * ONE)), fx_div(t5, 5 * ONE)));
    fx_sub(series, k * FX_LN2)
}

} // verus!

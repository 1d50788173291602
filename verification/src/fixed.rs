//! Fixed-point scalar arithmetic.
//!
//! A scalar is an `i64` holding a real number scaled by `ONE` (2^16).
//! Every operation is total: results are clamped into
//! `[FX_MIN, FX_MAX]`, and division by zero yields the clamp bound with
//! the dividend's sign, so the bounds double as signed infinities the way
//! they do in the slab test of an axis-aligned bounding box.

use vstd::prelude::*;

verus! {

/// One, as a fixed-point scalar: values carry 16 fractional bits.
pub const ONE: i64 = 65536;

/// Largest scalar; saturating arithmetic pins results here, so it also
/// plays the role positive infinity plays for floating point.
pub const FX_MAX: i64 = 0x7fff_ffff_ffff_ffff;

/// Smallest scalar, the mirror image of `FX_MAX`, so negation is total.
pub const FX_MIN: i64 = -0x7fff_ffff_ffff_ffff;

/// Clamp a mathematical integer into the representable scalar range.
pub open spec fn clip(x: int) -> int {
    if x > FX_MAX as int {
        FX_MAX as int
    } else if x < FX_MIN as int {
        FX_MIN as int
    } else {
        x
    }
}

/// Absolute value over the mathematical integers.
pub open spec fn sabs(x: int) -> int {
    if x < 0 {
        -x
    } else {
        x
    }
}

/// Division truncating toward zero, the rounding every scalar op uses.
pub open spec fn tdiv(p: int, q: int) -> int
    recommends
        q != 0,
{
    let m = sabs(p) / sabs(q);
    if (p < 0) != (q < 0) {
        -m
    } else {
        m
    }
}

/// Saturating scalar addition.
pub open spec fn fxadd(a: int, b: int) -> int {
    clip(a + b)
}

/// Saturating scalar subtraction.
pub open spec fn fxsub(a: int, b: int) -> int {
    clip(a - b)
}

/// Saturating scalar negation.
pub open spec fn fxneg(a: int) -> int {
    clip(-a)
}

/// Scalar product: the wide product rescaled by `ONE`, truncated, clamped.
pub open spec fn fxmul(a: int, b: int) -> int {
    clip(tdiv(a * b, ONE as int))
}

/// Scalar quotient. A zero divisor returns the clamp bound carrying the
/// dividend's sign, standing in for the signed infinity that floating-point
/// division by zero would produce.
pub open spec fn fxdiv(a: int, b: int) -> int {
    if b == 0 {
        if a > 0 {
            FX_MAX as int
        } else if a < 0 {
            FX_MIN as int
        } else {
            0
        }
    } else {
        clip(tdiv(a * (ONE as int), b))
    }
}

/// Magnitude of a scalar, widened so that `i64::MIN` needs no special case.
fn abs_mag(a: i64) -> (r: u128)
    ensures
        r == sabs(a as int),
{
    if a < 0 {
        (-(a as i128)) as u128
    } else {
        a as u128
    }
}

/// Rebuild a clamped signed scalar from a magnitude and a sign.
fn clamp_mag(mag: u128, neg: bool) -> (r: i64)
    ensures
        r as int == clip(if neg { -(mag as int) } else { mag as int }),
{
    if mag >= 0x7fff_ffff_ffff_ffff {
        if neg {
            FX_MIN
        } else {
            FX_MAX
        }
    } else {
        let m = mag as i64;
        if neg {
            -m
        } else {
            m
        }
    }
}

proof fn lemma_abs_mul(a: int, b: int)
    ensures
        sabs(a * b) == sabs(a) * sabs(b),
        (a * b < 0) <==> ((a < 0) != (b < 0)) && a != 0 && b != 0,
{
    assert(sabs(a * b) == sabs(a) * sabs(b)) by (nonlinear_arith);
    assert((a * b < 0) <==> ((a < 0) != (b < 0)) && a != 0 && b != 0) by (nonlinear_arith);
}

/// Saturating scalar addition.
pub fn fx_add(a: i64, b: i64) -> (r: i64)
    ensures
        r as int == fxadd(a as int, b as int),
{
    let s: i128 = (a as i128) + (b as i128);
    if s > (FX_MAX as i128) {
        FX_MAX
    } else if s < (FX_MIN as i128) {
        FX_MIN
    } else {
        s as i64
    }
}

/// Saturating scalar subtraction.
pub fn fx_sub(a: i64, b: i64) -> (r: i64)
    ensures
        r as int == fxsub(a as int, b as int),
{
    let s: i128 = (a as i128) - (b as i128);
    if s > (FX_MAX as i128) {
        FX_MAX
    } else if s < (FX_MIN as i128) {
        FX_MIN
    } else {
        s as i64
    }
}

/// Saturating scalar negation.
pub fn fx_neg(a: i64) -> (r: i64)
    ensures
        r as int == fxneg(a as int),
{
    if a == i64::MIN {
        FX_MAX
    } else {
        -a
    }
}

/// Scalar product.
pub fn fx_mul(a: i64, b: i64) -> (r: i64)
    ensures
        r as int == fxmul(a as int, b as int),
{
    let am = abs_mag(a);
    let bm = abs_mag(b);
    proof {
        assert(am * bm <= 0x8000_0000_0000_0000u128 * 0x8000_0000_0000_0000u128)
            by (nonlinear_arith)
            requires
                am <= 0x8000_0000_0000_0000u128,
                bm <= 0x8000_0000_0000_0000u128,
        ;
    }
    let prod: u128 = am * bm;
    let mag: u128 = prod / 65536;
    let neg = (a < 0) != (b < 0);
    proof {
        lemma_abs_mul(a as int, b as int);
        assert(sabs(a as int * b as int) / (ONE as int) == mag);
    }
    clamp_mag(mag, neg)
}

/// Scalar quotient; a zero divisor saturates with the dividend's sign.
pub fn fx_div(a: i64, b: i64) -> (r: i64)
    ensures
        r as int == fxdiv(a as int, b as int),
{
    if b == 0 {
        if a > 0 {
            FX_MAX
        } else if a < 0 {
            FX_MIN
        } else {
            0
        }
    } else {
        let am = abs_mag(a);
        let bm = abs_mag(b);
        let num: u128 = am * 65536;
        let mag: u128 = num / bm;
        let neg = (a < 0) != (b < 0);
        proof {
            lemma_abs_mul(a as int, ONE as int);
            assert(sabs(a as int * ONE as int) / sabs(b as int) == mag);
        }
        clamp_mag(mag, neg)
    }
}

/// Clamping never grows a magnitude.
pub proof fn lemma_clip_abs(x: int)
    ensures
        sabs(clip(x)) <= sabs(x),
        clip(x) <= x || clip(x) == FX_MIN,
        clip(x) >= x || clip(x) == FX_MAX,
{
}

/// A product bound: magnitudes multiply, then shrink through the rescale.
pub proof fn lemma_fxmul_le(a: int, b: int, ca: int, cb: int)
    requires
        sabs(a) <= ca,
        sabs(b) <= cb,
    ensures
        sabs(fxmul(a, b)) <= (ca * cb) / (ONE as int),
{
    assert(sabs(a * b) <= ca * cb) by (nonlinear_arith)
        requires
            sabs(a) <= ca,
            sabs(b) <= cb,
    ;
    assert(sabs(a * b) / (ONE as int) <= (ca * cb) / (ONE as int)) by {
        vstd::arithmetic::div_mod::lemma_div_is_ordered(sabs(a * b), ca * cb, ONE as int);
    }
    assert(sabs(tdiv(a * b, ONE as int)) == sabs(a * b) / (ONE as int));
    lemma_clip_abs(tdiv(a * b, ONE as int));
}

/// A quotient bound: the dividend bound rescales through the divisor.
pub proof fn lemma_fxdiv_le(a: int, b: int, ca: int)
    requires
        sabs(a) <= ca,
        b > 0,
    ensures
        sabs(fxdiv(a, b)) <= (ca * ONE) / b,
        a >= 0 ==> fxdiv(a, b) >= 0,
{
    assert(sabs(a * ONE) <= ca * ONE) by (nonlinear_arith)
        requires
            sabs(a) <= ca,
    ;
    vstd::arithmetic::div_mod::lemma_div_is_ordered(sabs(a * ONE), ca * ONE, b);
    assert(sabs(tdiv(a * ONE, b)) == sabs(a * ONE) / b);
    lemma_clip_abs(tdiv(a * ONE, b));
    if a >= 0 {
        assert(a * ONE >= 0) by (nonlinear_arith)
            requires
                a >= 0,
        ;
    }
}

/// Truncating quotients preserve the order of their dividends: monotone
/// for a positive divisor, antitone for a negative one.
pub proof fn lemma_fxdiv_mono(a1: int, a2: int, b: int)
    requires
        a1 <= a2,
        b != 0,
    ensures
        b > 0 ==> fxdiv(a1, b) <= fxdiv(a2, b),
        b < 0 ==> fxdiv(a2, b) <= fxdiv(a1, b),
{
    let p1 = a1 * ONE;
    let p2 = a2 * ONE;
    vstd::arithmetic::mul::lemma_mul_inequality(a1, a2, ONE as int);
    lemma_tdiv_mono(p1, p2, b);
    if b > 0 {
        lemma_clip_mono(tdiv(p1, b), tdiv(p2, b));
    } else {
        lemma_clip_mono(tdiv(p2, b), tdiv(p1, b));
    }
}

/// Clamping preserves order.
pub proof fn lemma_clip_mono(x: int, y: int)
    requires
        x <= y,
    ensures
        clip(x) <= clip(y),
{
}

/// Truncating division by a fixed divisor preserves (or for a negative
/// divisor reverses) the order of the dividends.
pub proof fn lemma_tdiv_mono(p1: int, p2: int, q: int)
    requires
        p1 <= p2,
        q != 0,
    ensures
        q > 0 ==> tdiv(p1, q) <= tdiv(p2, q),
        q < 0 ==> tdiv(p2, q) <= tdiv(p1, q),
{
    let qa = sabs(q);
    if p1 >= 0 {
        vstd::arithmetic::div_mod::lemma_div_is_ordered(p1, p2, qa);
        vstd::arithmetic::div_mod::lemma_div_pos_is_pos(p1, qa);
        assert(sabs(p1) / qa <= sabs(p2) / qa);
    } else if p2 < 0 {
        vstd::arithmetic::div_mod::lemma_div_is_ordered(-p2, -p1, qa);
        vstd::arithmetic::div_mod::lemma_div_pos_is_pos(-p2, qa);
        assert(sabs(p2) / qa <= sabs(p1) / qa);
    } else {
        vstd::arithmetic::div_mod::lemma_div_pos_is_pos(p2, qa);
        vstd::arithmetic::div_mod::lemma_div_pos_is_pos(-p1, qa);
        assert(sabs(p1) / qa >= 0 && sabs(p2) / qa >= 0);
    }
}

/// Interpolation between two scalars stays between them.
pub proof fn lemma_lerp_bound(a: int, b: int, t: int)
    requires
        0 <= t <= ONE,
        FX_MIN <= a <= FX_MAX,
        FX_MIN <= b <= FX_MAX,
    ensures
        fxadd(a, fxmul(t, b - a)) <= if a >= b {
            a
        } else {
            b
        },
        fxadd(a, fxmul(t, b - a)) >= if a <= b {
            a
        } else {
            b
        },
{
    let d = b - a;
    if d >= 0 {
        assert(0 <= t * d <= ONE * d) by (nonlinear_arith)
            requires
                0 <= t <= ONE,
                d >= 0,
        ;
        assert(0 <= tdiv(t * d, ONE as int) <= d) by {
            vstd::arithmetic::div_mod::lemma_div_is_ordered(t * d, ONE * d, ONE as int);
            assert((ONE * d) / (ONE as int) == d) by (nonlinear_arith)
                requires
                    d >= 0,
            ;
        }
        lemma_clip_abs(tdiv(t * d, ONE as int));
    } else {
        assert(ONE * d <= t * d <= 0) by (nonlinear_arith)
            requires
                0 <= t <= ONE,
                d < 0,
        ;
        assert(d <= tdiv(t * d, ONE as int) <= 0) by {
            assert(sabs(t * d) <= sabs(ONE * d)) by (nonlinear_arith)
                requires
                    ONE * d <= t * d <= 0,
            ;
            vstd::arithmetic::div_mod::lemma_div_is_ordered(sabs(t * d), sabs(ONE * d), ONE as int);
            assert(sabs(ONE * d) / (ONE as int) == sabs(d)) by (nonlinear_arith)
                requires
                    d < 0,
            ;
        }
        lemma_clip_abs(tdiv(t * d, ONE as int));
    }
}

/// Absolute value of a scalar, clamped so `i64::MIN` has a home.
pub fn fx_abs(a: i64) -> (r: i64)
    ensures
        r as int == clip(sabs(a as int)),
{
    if a == i64::MIN {
        FX_MAX
    } else if a < 0 {
        -a
    } else {
        a
    }
}

/// The smaller of two scalars.
pub fn fx_min(a: i64, b: i64) -> (r: i64)
    ensures
        r as int == if a as int <= b as int { a as int } else { b as int },
{
    if a <= b { a } else { b }
}

/// The larger of two scalars.
pub fn fx_max(a: i64, b: i64) -> (r: i64)
    ensures
        r as int == if a as int >= b as int { a as int } else { b as int },
{
    if a >= b { a } else { b }
}

/// Floor of the mathematical square root, defined by halving the bit width.
pub open spec fn isqrt(n: nat) -> nat
    decreases n,
{
    if n == 0 {
        0
    } else {
        let a = 2 * isqrt(n / 4);
        if (a + 1) * (a + 1) <= n {
            a + 1
        } else {
            a
        }
    }
}

/// `isqrt` really is the floor of the square root.
pub proof fn lemma_isqrt(n: nat)
    ensures
        isqrt(n) * isqrt(n) <= n,
        n < (isqrt(n) + 1) * (isqrt(n) + 1),
    decreases n,
{
    if n != 0 {
        assert(n / 4 < n) by (nonlinear_arith)
            requires
                n >= 1,
        ;
        lemma_isqrt(n / 4);
        let a0 = isqrt(n / 4);
        let a = 2 * a0;
        vstd::arithmetic::div_mod::lemma_fundamental_div_mod(n as int, 4);
        assert(4 * (n / 4) <= n && n <= 4 * (n / 4) + 3);
        assert(a * a <= n) by (nonlinear_arith)
            requires
                a0 * a0 <= n / 4,
                a == 2 * a0,
                4 * (n / 4) <= n,
        ;
        assert(n < (a + 2) * (a + 2)) by (nonlinear_arith)
            requires
                n / 4 < (a0 + 1) * (a0 + 1),
                a == 2 * a0,
                n <= 4 * (n / 4) + 3,
        ;
        if (a + 1) * (a + 1) <= n {
            assert(isqrt(n) == a + 1);
            assert(isqrt(n) * isqrt(n) <= n && n < (isqrt(n) + 1) * (isqrt(n) + 1))
                by (nonlinear_arith)
                requires
                    isqrt(n) == a + 1,
                    (a + 1) * (a + 1) <= n,
                    n < (a + 2) * (a + 2),
            ;
        } else {
            assert(isqrt(n) == a);
            assert(isqrt(n) * isqrt(n) <= n && n < (isqrt(n) + 1) * (isqrt(n) + 1))
                by (nonlinear_arith)
                requires
                    isqrt(n) == a,
                    a * a <= n,
                    !((a + 1) * (a + 1) <= n),
            ;
        }
    } else {
        assert(isqrt(n) == 0);
        assert(n < (isqrt(n) + 1) * (isqrt(n) + 1)) by (nonlinear_arith)
            requires
                n == 0,
                isqrt(n) == 0,
        ;
    }
}

/// Any value sitting between consecutive squares is the square root's floor.
pub proof fn lemma_isqrt_unique(n: nat, r: nat)
    requires
        r * r <= n,
        n < (r + 1) * (r + 1),
    ensures
        r == isqrt(n),
{
    lemma_isqrt(n);
    let s = isqrt(n);
    if r < s {
        assert((r + 1) * (r + 1) <= s * s) by (nonlinear_arith)
            requires
                r + 1 <= s,
        ;
    } else if s < r {
        assert((s + 1) * (s + 1) <= r * r) by (nonlinear_arith)
            requires
                s + 1 <= r,
        ;
    }
}

/// Binary search for the floor of the square root of a wide integer.
fn isqrt_u128(n: u128) -> (r: u128)
    requires
        n < 0x1_0000_0000_0000_0000_0000_0000u128,
    ensures
        r == isqrt(n as nat),
        r <= 0x1_0000_0000_0000u128,
{
    let mut lo: u128 = 0;
    let mut hi: u128 = 0x1_0000_0000_0000;
    proof {
        assert(n < (0x1_0000_0000_0000u128 + 1) * (0x1_0000_0000_0000u128 + 1))
            by (nonlinear_arith)
            requires
                n < 0x1_0000_0000_0000_0000_0000_0000u128,
        ;
    }
    while lo < hi
        invariant
            lo <= hi <= 0x1_0000_0000_0000u128,
            lo * lo <= n as nat,
            (n as nat) < (hi + 1) * (hi + 1),
        decreases hi - lo,
    {
        let mid = lo + (hi - lo + 1) / 2;
        assert(lo < mid <= hi);
        proof {
            assert(mid * mid < 0x1_0000_0000_0000_0000_0000_0000_0000u128) by (nonlinear_arith)
                requires
                    mid <= 0x1_0000_0000_0000u128,
            ;
        }
        let sq = mid * mid;
        if sq <= n {
            lo = mid;
        } else {
            hi = mid - 1;
        }
    }
    proof {
        lemma_isqrt_unique(n as nat, lo as nat);
    }
    lo
}

/// Square root of a scalar; negative inputs give zero.
pub open spec fn fxsqrt(x: int) -> int {
    if x <= 0 {
        0
    } else {
        isqrt((x * ONE) as nat) as int
    }
}

/// Square root of a scalar; negative inputs give zero.
pub fn fx_sqrt(x: i64) -> (r: i64)
    ensures
        r as int == fxsqrt(x as int),
{
    if x <= 0 {
        0
    } else {
        let n: u128 = (x as u128) * 65536;
        let s = isqrt_u128(n);
        s as i64
    }
}

/// Euclidean remainder of a scalar by a positive modulus.
pub fn fx_emod(a: i64, m: i64) -> (r: i64)
    requires
        m > 0,
    ensures
        r as int == (a as int) % (m as int),
        0 <= r < m,
{
    let am = abs_mag(a);
    let q: u128 = am % (m as u128);
    proof {
        let k = sabs(a as int);
        let mi = m as int;
        vstd::arithmetic::div_mod::lemma_fundamental_div_mod(k, mi);
        if a < 0 {
            if q == 0 {
                // -k is the multiple -(k/m) * m of m.
                vstd::arithmetic::div_mod::lemma_mod_multiples_basic(-(k / mi), mi);
                assert(-(k / mi) * mi == -k) by (nonlinear_arith)
                    requires
                        k == mi * (k / mi),
                ;
            } else {
                // -k = (-(k/m) - 1) * m + (m - k % m), with the tail in [0, m).
                vstd::arithmetic::div_mod::lemma_mod_multiples_vanish(
                    -(k / mi) - 1,
                    mi - (k % mi),
                    mi,
                );
                assert((-(k / mi) - 1) * mi + (mi - (k % mi)) == -k) by (nonlinear_arith)
                    requires
                        k == mi * (k / mi) + k % mi,
                ;
                vstd::arithmetic::div_mod::lemma_small_mod((mi - (k % mi)) as nat, m as nat);
            }
        }
    }
    if a < 0 && q != 0 {
        m - (q as i64)
    } else {
        q as i64
    }
}

} // verus!

//! Coherent lattice noise over the fixed-point scalars.
//!
//! Each integer lattice point carries a pseudo-random value in `[-1, 1]`
//! drawn from a hash of its coordinates; a sample interpolates the eight
//! surrounding corners. Turbulence composites seven octaves, halving the
//! amplitude each octave, and remaps the sum into `[0, 1]`.

use vstd::prelude::*;

use crate::fixed::{
    fx_add, fx_div, fx_emod, fx_mul, fxadd, fxdiv, fxmul, lemma_clip_abs, lemma_fxdiv_le,
    lemma_fxmul_le, lemma_lerp_bound, sabs, ONE,
};
use crate::rng::rng_out;
use crate::vec3::{vscale, Vec3};

verus! {

/// The divisor that maps a seven-octave turbulence sum into `[-1, 1]`.
pub const TURB_SCALE: i64 = 130560;

/// The pseudo-random scalar in `[-1, 1]` carried by a lattice point.
pub open spec fn corner_value(cx: int, cy: int, cz: int) -> int {
    let hx = ((cx + 0x1_0000_0000_0000) as u64).wrapping_mul(0x8DA6B34340093840);
    let hy = ((cy + 0x1_0000_0000_0000) as u64).wrapping_mul(0xD8163841FDE6A8F9);
    let hz = ((cz + 0x1_0000_0000_0000) as u64).wrapping_mul(0xCB1AB31F75F94C21);
    let h = rng_out(hx ^ hy ^ hz);
    2 * (((h >> 48) as i64) - 32768)
}

/// Interpolation between two scalars.
pub open spec fn lerp(a: int, b: int, t: int) -> int {
    fxadd(a, fxmul(t, b - a))
}

/// The noise value at a point: trilinear interpolation of the eight
/// surrounding lattice corners.
pub open spec fn noise_at(p: Vec3) -> int {
    let cx = (p.x as int) / (ONE as int);
    let cy = (p.y as int) / (ONE as int);
    let cz = (p.z as int) / (ONE as int);
    let tx = (p.x as int) % (ONE as int);
    let ty = (p.y as int) % (ONE as int);
    let tz = (p.z as int) % (ONE as int);
    let x00 = lerp(corner_value(cx, cy, cz), corner_value(cx + 1, cy, cz), tx);
    let x10 = lerp(corner_value(cx, cy + 1, cz), corner_value(cx + 1, cy + 1, cz), tx);
    let x01 = lerp(corner_value(cx, cy, cz + 1), corner_value(cx + 1, cy, cz + 1), tx);
    let x11 = lerp(corner_value(cx, cy + 1, cz + 1), corner_value(cx + 1, cy + 1, cz + 1), tx);
    let y0 = lerp(x00, x10, ty);
    let y1 = lerp(x01, x11, ty);
    lerp(y0, y1, tz)
}

/// The running turbulence state after `k` octaves: the accumulated sum,
/// the scaled sample point, and the remaining amplitude.
pub open spec fn turb_state(p: Vec3, k: nat) -> (int, Vec3, int)
    decreases k,
{
    if k == 0 {
        (0, p, ONE as int)
    } else {
        let (acc, tp, w) = turb_state(p, (k - 1) as nat);
        (fxadd(acc, fxmul(w, noise_at(tp))), vscale(tp, 2 * ONE), fxmul(w, (ONE / 2) as int))
    }
}

/// Seven octaves of noise remapped into `[0, 1]`.
pub open spec fn turbulence(p: Vec3) -> int {
    let (acc, tp, w) = turb_state(p, 7);
    fxdiv(fxadd(fxdiv(acc, TURB_SCALE as int), ONE as int), 2 * ONE)
}

/// A corner value is a scalar in `[-1, 1]`.
proof fn lemma_corner_bound(cx: int, cy: int, cz: int)
    ensures
        sabs(corner_value(cx, cy, cz)) <= ONE,
{
    let hx = ((cx + 0x1_0000_0000_0000) as u64).wrapping_mul(0x8DA6B34340093840);
    let hy = ((cy + 0x1_0000_0000_0000) as u64).wrapping_mul(0xD8163841FDE6A8F9);
    let hz = ((cz + 0x1_0000_0000_0000) as u64).wrapping_mul(0xCB1AB31F75F94C21);
    let h = rng_out(hx ^ hy ^ hz);
    assert(h >> 48 < 65536) by (bit_vector);
}

/// A noise sample is a scalar in `[-1, 1]`.
pub proof fn lemma_noise_bound(p: Vec3)
    ensures
        sabs(noise_at(p)) <= ONE,
{
    let cx = (p.x as int) / (ONE as int);
    let cy = (p.y as int) / (ONE as int);
    let cz = (p.z as int) / (ONE as int);
    let tx = (p.x as int) % (ONE as int);
    let ty = (p.y as int) % (ONE as int);
    let tz = (p.z as int) % (ONE as int);
    lemma_corner_bound(cx, cy, cz);
    lemma_corner_bound(cx + 1, cy, cz);
    lemma_corner_bound(cx, cy + 1, cz);
    lemma_corner_bound(cx + 1, cy + 1, cz);
    lemma_corner_bound(cx, cy, cz + 1);
    lemma_corner_bound(cx + 1, cy, cz + 1);
    lemma_corner_bound(cx, cy + 1, cz + 1);
    lemma_corner_bound(cx + 1, cy + 1, cz + 1);
    let x00 = lerp(corner_value(cx, cy, cz), corner_value(cx + 1, cy, cz), tx);
    let x10 = lerp(corner_value(cx, cy + 1, cz), corner_value(cx + 1, cy + 1, cz), tx);
    let x01 = lerp(corner_value(cx, cy, cz + 1), corner_value(cx + 1, cy, cz + 1), tx);
    let x11 = lerp(corner_value(cx, cy + 1, cz + 1), corner_value(cx + 1, cy + 1, cz + 1), tx);
    lemma_lerp_bound(corner_value(cx, cy, cz), corner_value(cx + 1, cy, cz), tx);
    lemma_lerp_bound(corner_value(cx, cy + 1, cz), corner_value(cx + 1, cy + 1, cz), tx);
    lemma_lerp_bound(corner_value(cx, cy, cz + 1), corner_value(cx + 1, cy, cz + 1), tx);
    lemma_lerp_bound(corner_value(cx, cy + 1, cz + 1), corner_value(cx + 1, cy + 1, cz + 1), tx);
    lemma_lerp_bound(x00, x10, ty);
    lemma_lerp_bound(x01, x11, ty);
    lemma_lerp_bound(lerp(x00, x10, ty), lerp(x01, x11, ty), tz);
}

/// The amplitude of the octave with the given index.
pub open spec fn turb_w(k: nat) -> int {
    if k == 0 {
        65536
    } else if k == 1 {
        32768
    } else if k == 2 {
        16384
    } else if k == 3 {
        8192
    } else if k == 4 {
        4096
    } else if k == 5 {
        2048
    } else if k == 6 {
        1024
    } else {
        512
    }
}

/// After `k` octaves the amplitude has halved `k` times and the sum is
/// within the partial geometric series.
proof fn lemma_turb_state_bound(p: Vec3, k: nat)
    requires
        k <= 7,
    ensures
        turb_state(p, k).2 == turb_w(k),
        sabs(turb_state(p, k).0) <= 2 * ONE - 2 * turb_w(k),
    decreases k,
{
    if k != 0 {
        lemma_turb_state_bound(p, (k - 1) as nat);
        let (acc, tp, w) = turb_state(p, (k - 1) as nat);
        lemma_noise_bound(tp);
        lemma_fxmul_le(w, noise_at(tp), w, ONE as int);
        assert((w * ONE) / (ONE as int) == w) by (nonlinear_arith)
            requires
                w >= 0,
        ;
        lemma_clip_abs(acc + fxmul(w, noise_at(tp)));
        assert(fxmul(turb_w((k - 1) as nat), (ONE / 2) as int) == turb_w(k));
    }
}

/// Lattice cell and offset of a scalar coordinate: the floor of `a` in
/// whole units, and the fractional part.
pub fn floor_frac(a: i64) -> (r: (i64, i64))
    ensures
        r.0 as int == (a as int) / (ONE as int),
        r.1 as int == (a as int) % (ONE as int),
        -0x8000_0000_0000i64 <= r.0 <= 0x8000_0000_0000i64,
{
    let frac = fx_emod(a, ONE);
    let d: i128 = (a as i128) - (frac as i128);
    proof {
        vstd::arithmetic::div_mod::lemma_fundamental_div_mod(a as int, ONE as int);
        let q = (a as int) / (ONE as int);
        assert(d == 65536 * q);
        assert(sabs(65536 * q) == 65536 * sabs(q) && sabs(65536 * q) / 65536 == sabs(q))
            by (nonlinear_arith);
        assert(65536 * sabs(q) <= sabs(a as int) + 65536) by (nonlinear_arith)
            requires
                65536 * q == a - (a as int) % 65536,
                0 <= (a as int) % 65536 < 65536,
        ;
    }
    let dm: u128 = if d < 0 {
        (-d) as u128
    } else {
        d as u128
    };
    let cm: u128 = dm / 65536;
    let cell: i64 = if d < 0 {
        -(cm as i64)
    } else {
        cm as i64
    };
    (cell, frac)
}

/// The pseudo-random scalar carried by a lattice point.
fn corner(cx: i64, cy: i64, cz: i64) -> (r: i64)
    requires
        -0x8000_0000_0001i64 <= cx <= 0x8000_0000_0001i64,
        -0x8000_0000_0001i64 <= cy <= 0x8000_0000_0001i64,
        -0x8000_0000_0001i64 <= cz <= 0x8000_0000_0001i64,
    ensures
        r as int == corner_value(cx as int, cy as int, cz as int),
{
    let hx = ((cx + 0x1_0000_0000_0000) as u64).wrapping_mul(0x8DA6B34340093840);
    let hy = ((cy + 0x1_0000_0000_0000) as u64).wrapping_mul(0xD8163841FDE6A8F9);
    let hz = ((cz + 0x1_0000_0000_0000) as u64).wrapping_mul(0xCB1AB31F75F94C21);
    let h = crate::rng::mix(hx ^ hy ^ hz);
    proof {
        assert(h >> 48 < 65536) by (bit_vector);
    }
    2 * (((h >> 48) as i64) - 32768)
}

/// Interpolation between two scalars.
fn lerp_x(a: i64, b: i64, t: i64) -> (r: i64)
    requires
        -0x3FFF_FFFF_FFFF_FFFFi64 <= a <= 0x3FFF_FFFF_FFFF_FFFFi64,
        -0x3FFF_FFFF_FFFF_FFFFi64 <= b <= 0x3FFF_FFFF_FFFF_FFFFi64,
    ensures
        r as int == lerp(a as int, b as int, t as int),
{
    fx_add(a, fx_mul(t, fx_sub_wide(b, a)))
}

/// The difference `b - a` when it is known to fit; corner values and their
/// interpolants are all within one unit of zero, so it always does here.
fn fx_sub_wide(b: i64, a: i64) -> (r: i64)
    requires
        -0x3FFF_FFFF_FFFF_FFFFi64 <= b <= 0x3FFF_FFFF_FFFF_FFFFi64,
        -0x3FFF_FFFF_FFFF_FFFFi64 <= a <= 0x3FFF_FFFF_FFFF_FFFFi64,
    ensures
        r as int == b - a,
{
    b - a
}

/// The noise value at a point.
pub fn sample(p: Vec3) -> (r: i64)
    ensures
        r as int == noise_at(p),
        sabs(r as int) <= ONE,
{
    let (cx, tx) = floor_frac(p.x);
    let (cy, ty) = floor_frac(p.y);
    let (cz, tz) = floor_frac(p.z);
    let c000 = corner(cx, cy, cz);
    let c100 = corner(cx + 1, cy, cz);
    let c010 = corner(cx, cy + 1, cz);
    let c110 = corner(cx + 1, cy + 1, cz);
    let c001 = corner(cx, cy, cz + 1);
    let c101 = corner(cx + 1, cy, cz + 1);
    let c011 = corner(cx, cy + 1, cz + 1);
    let c111 = corner(cx + 1, cy + 1, cz + 1);
    proof {
        lemma_noise_bound(p);
        lemma_corner_bound(cx as int, cy as int, cz as int);
        lemma_corner_bound(cx + 1, cy as int, cz as int);
        lemma_corner_bound(cx as int, cy + 1, cz as int);
        lemma_corner_bound(cx + 1, cy + 1, cz as int);
        lemma_corner_bound(cx as int, cy as int, cz + 1);
        lemma_corner_bound(cx + 1, cy as int, cz + 1);
        lemma_corner_bound(cx as int, cy + 1, cz + 1);
        lemma_corner_bound(cx + 1, cy + 1, cz + 1);
        lemma_lerp_bound(c000 as int, c100 as int, tx as int);
        lemma_lerp_bound(c010 as int, c110 as int, tx as int);
        lemma_lerp_bound(c001 as int, c101 as int, tx as int);
        lemma_lerp_bound(c011 as int, c111 as int, tx as int);
    }
    let x00 = lerp_x(c000, c100, tx);
    let x10 = lerp_x(c010, c110, tx);
    let x01 = lerp_x(c001, c101, tx);
    let x11 = lerp_x(c011, c111, tx);
    proof {
        lemma_lerp_bound(x00 as int, x10 as int, ty as int);
        lemma_lerp_bound(x01 as int, x11 as int, ty as int);
    }
    let y0 = lerp_x(x00, x10, ty);
    let y1 = lerp_x(x01, x11, ty);
    proof {
        lemma_lerp_bound(y0 as int, y1 as int, tz as int);
    }
    lerp_x(y0, y1, tz)
}

/// Turbulence lands in `[0, 1]`.
pub proof fn lemma_turbulence_bound(p: Vec3)
    ensures
        0 <= turbulence(p) <= ONE,
{
    let acc = turb_state(p, 7).0;
    lemma_turb_state_bound(p, 7);
    lemma_fxdiv_le(acc, TURB_SCALE as int, 130048);
    assert((130048 * ONE) / (TURB_SCALE as int) <= 65279);
    lemma_fxdiv_le(fxadd(fxdiv(acc, TURB_SCALE as int), ONE as int), 2 * ONE, 131072 - 257);
    assert(((131072 - 257) * ONE) / (2 * ONE) <= ONE);
}

/// Seven octaves of noise remapped into `[0, 1]`.
pub fn turb(p: Vec3) -> (r: i64)
    ensures
        r as int == turbulence(p),
        0 <= r <= ONE,
{
    let mut accum: i64 = 0;
    let mut temp_p: Vec3 = p;
    let mut weight: i64 = ONE;
    let mut k: usize = 0;
    while k < 7
        invariant
            k <= 7,
            (accum as int, temp_p, weight as int) == turb_state(p, k as nat),
        decreases 7 - k,
    {
        let n = sample(temp_p);
        accum = fx_add(accum, fx_mul(weight, n));
        temp_p = temp_p.scale(2 * ONE);
        weight = fx_mul(weight, 32768);
        k = k + 1;
    }
    proof {
        lemma_turb_state_bound(p, 7);
        lemma_fxdiv_le(accum as int, TURB_SCALE as int, 130048);
        assert((130048 * ONE) / (TURB_SCALE as int) <= 65279);
        lemma_fxdiv_le(
            fxadd(fxdiv(accum as int, TURB_SCALE as int), ONE as int),
            2 * ONE,
            131072 - 257,
        );
        assert(((131072 - 257) * ONE) / (2 * ONE) <= ONE);
    }
    fx_div(fx_add(fx_div(accum, TURB_SCALE), ONE), 2 * ONE)
}

} // verus!

//! The fixed-point scalar layer against ordinary floating point: every
//! function should agree with its real counterpart to within a few
//! sixteenth-bit quanta over a sweep of arguments.

use lumiere::fixed::{fx_abs, fx_add, fx_div, fx_emod, fx_mul, fx_neg, fx_sqrt, fx_sub};
use lumiere::rng::Rng;
use lumiere::trig::{fx_acos, fx_atan2, fx_cos, fx_ln_unit, fx_sin, fx_tan};
use lumiere::vec3::Vec3;

fn fx(x: f64) -> i64 {
    (x * 65536.0).round() as i64
}

fn close(actual: i64, exact: f64, tolerance_quanta: i64) {
    let expected = (exact * 65536.0).round() as i64;
    assert!(
        (actual - expected).abs() <= tolerance_quanta,
        "{} vs {} ({})",
        actual,
        expected,
        exact
    );
}

#[test]
fn arithmetic_matches_reals() {
    close(fx_add(fx(1.25), fx(-0.5)), 0.75, 0);
    close(fx_sub(fx(1.25), fx(-0.5)), 1.75, 0);
    close(fx_neg(fx(0.375)), -0.375, 0);
    close(fx_abs(fx(-2.5)), 2.5, 0);
    close(fx_mul(fx(1.5), fx(2.5)), 3.75, 1);
    close(fx_mul(fx(-1.5), fx(2.5)), -3.75, 1);
    close(fx_div(fx(1.0), fx(3.0)), 1.0 / 3.0, 1);
    close(fx_div(fx(-7.0), fx(2.0)), -3.5, 1);
}

#[test]
fn division_by_zero_saturates() {
    assert_eq!(fx_div(fx(1.0), 0), i64::MAX);
    assert_eq!(fx_div(fx(-1.0), 0), -i64::MAX);
    assert_eq!(fx_div(0, 0), 0);
}

#[test]
fn square_root_is_exact_floor() {
    close(fx_sqrt(fx(4.0)), 2.0, 0);
    close(fx_sqrt(fx(2.0)), 2.0_f64.sqrt(), 1);
    close(fx_sqrt(fx(0.25)), 0.5, 0);
    assert_eq!(fx_sqrt(fx(-1.0)), 0);
    for k in 1..200i64 {
        let x = k * 3001;
        let r = fx_sqrt(x);
        let n = (x as i128) * 65536;
        assert!((r as i128) * (r as i128) <= n);
        assert!(((r + 1) as i128) * ((r + 1) as i128) > n);
    }
}

#[test]
fn remainder_is_euclidean() {
    assert_eq!(fx_emod(fx(5.5), fx(2.0)), fx(1.5));
    assert_eq!(fx_emod(fx(-5.5), fx(2.0)), fx(0.5));
    assert_eq!(fx_emod(fx(-4.0), fx(2.0)), 0);
}

#[test]
fn sine_and_cosine_track_the_reals() {
    for k in -72..=72i64 {
        let angle = k as f64 * 0.1;
        close(fx_sin(fx(angle)), angle.sin(), 24);
        close(fx_cos(fx(angle)), angle.cos(), 24);
    }
}

#[test]
fn tangent_tracks_the_reals_away_from_poles() {
    for k in -12..=12i64 {
        let angle = k as f64 * 0.1;
        close(fx_tan(fx(angle)), angle.tan(), 48);
    }
}

#[test]
fn arctangent_and_arccosine_track_the_reals() {
    for k in -20..=20i64 {
        for j in -20..=20i64 {
            if k == 0 && j == 0 {
                continue;
            }
            let y = k as f64 * 0.35;
            let x = j as f64 * 0.35;
            close(fx_atan2(fx(y), fx(x)), y.atan2(x), 24);
        }
    }
    for k in -10..=10i64 {
        let y = k as f64 * 0.1;
        close(fx_acos(fx(y)), y.acos(), 48);
    }
}

#[test]
fn logarithm_tracks_the_reals() {
    for k in 1..=64i64 {
        let u = k as f64 / 64.0;
        close(fx_ln_unit(fx(u)), u.ln(), 24);
    }
    assert_eq!(fx_ln_unit(65536), 0);
}

#[test]
fn unit_dot_and_cross() {
    let v = Vec3::new(fx(3.), fx(4.), fx(0.));
    close(v.length(), 5.0, 1);
    let u = v.unit();
    close(u.x, 0.6, 2);
    close(u.y, 0.8, 2);
    assert_eq!(u.z, 0);
    let a = Vec3::new(fx(1.), fx(0.), fx(0.));
    let b = Vec3::new(fx(0.), fx(1.), fx(0.));
    assert_eq!(a.dot(b), 0);
    assert_eq!(a.cross(b), Vec3::new(0, 0, fx(1.)));
    assert!(Vec3::zeros().near_zero());
    assert!(!a.near_zero());
}

#[test]
fn random_draws_are_reproducible_and_in_range() {
    let mut a = Rng::new(77);
    let mut b = Rng::new(77);
    for _ in 0..64 {
        let x = a.next_unit();
        assert_eq!(x, b.next_unit());
        assert!((0..65536).contains(&x));
        let y = a.next_range(fx(-1.), fx(1.));
        assert_eq!(y, b.next_range(fx(-1.), fx(1.)));
        assert!((fx(-1.)..=fx(1.)).contains(&y));
    }
    let mut c = Rng::new(78);
    let sphere = Vec3::random_in_unit_sphere(&mut c);
    assert!(sphere.length_squared() <= fx(1.));
    let disk = Vec3::random_in_unit_disk(&mut c);
    assert!(disk.length_squared() <= fx(1.));
    assert_eq!(disk.z, 0);
}

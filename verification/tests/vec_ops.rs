//! Vector algebra over the fixed-point scalars.

use lumiere::vec3::Vec3;

fn fx(x: f64) -> i64 {
    (x * 65536.0).round() as i64
}

#[test]
fn new_constructor() {
    let v = Vec3::new(fx(1.), fx(2.), fx(3.));
    assert_eq!(v.x, fx(1.));
    assert_eq!(v.y, fx(2.));
    assert_eq!(v.z, fx(3.));
}

#[test]
fn zeros_constructor() {
    let v = Vec3::zeros();
    assert_eq!(v.x, 0);
    assert_eq!(v.y, 0);
    assert_eq!(v.z, 0);
}

#[test]
fn index() {
    let v = Vec3::new(fx(1.), fx(2.), fx(3.));
    assert_eq!(v.index(0), fx(1.));
    assert_eq!(v.index(1), fx(2.));
    assert_eq!(v.index(2), fx(3.));
}

#[test]
fn length_squared() {
    let v = Vec3::new(fx(1.), fx(2.), fx(3.));
    assert_eq!(v.length_squared(), fx(14.));
}

#[test]
fn length() {
    let v = Vec3::new(fx(1.), fx(2.), fx(3.));
    // The floor of the exact square root, at scalar precision.
    assert_eq!(v.length(), (14.0_f64.sqrt() * 65536.0) as i64);
}

#[test]
fn neg() {
    let v = Vec3::new(fx(1.), fx(2.), fx(3.)).neg();
    assert_eq!(v.x, fx(-1.));
    assert_eq!(v.y, fx(-2.));
    assert_eq!(v.z, fx(-3.));
}

#[test]
fn add() {
    let v1 = Vec3::new(fx(6.), fx(5.), fx(4.));
    let v2 = Vec3::new(fx(1.), fx(3.), fx(5.));
    let v = v1.add(v2);
    assert_eq!(v.x, fx(7.));
    assert_eq!(v.y, fx(8.));
    assert_eq!(v.z, fx(9.));
}

#[test]
fn sub() {
    let v1 = Vec3::new(fx(6.), fx(5.), fx(4.));
    let v2 = Vec3::new(fx(1.), fx(2.), fx(3.));
    let v = v1.sub(v2);
    assert_eq!(v.x, fx(5.));
    assert_eq!(v.y, fx(3.));
    assert_eq!(v.z, fx(1.));
}

#[test]
fn mul() {
    let v1 = Vec3::new(fx(6.), fx(5.), fx(4.));
    let v2 = Vec3::new(fx(1.), fx(2.), fx(3.));
    let v = v1.mul(v2);
    assert_eq!(v.x, fx(6.));
    assert_eq!(v.y, fx(10.));
    assert_eq!(v.z, fx(12.));
}

#[test]
fn div() {
    let v1 = Vec3::new(fx(6.), fx(5.), fx(4.));
    let v2 = Vec3::new(fx(1.), fx(2.), fx(3.));
    let v = v1.div(v2);
    assert_eq!(v.x, fx(6.));
    assert_eq!(v.y, fx(5. / 2.));
    // 4/3 truncates toward zero at scalar precision.
    assert_eq!(v.z, (4.0_f64 / 3.0 * 65536.0) as i64);
}

#[test]
fn mul_f64() {
    let v1 = Vec3::new(fx(6.), fx(5.), fx(4.));
    let v = v1.scale(fx(2.0));
    assert_eq!(v.x, fx(12.));
    assert_eq!(v.y, fx(10.));
    assert_eq!(v.z, fx(8.));
}

#[test]
fn reflect_typical_2d() {
    let v = Vec3::new(fx(1.), fx(-1.), fx(0.));
    let n = Vec3::new(fx(0.), fx(1.), fx(0.));
    let res = v.reflect(&n);
    let expected = Vec3::new(fx(1.), fx(1.), fx(0.));
    assert!(res.is_close(&expected));
}

#[test]
fn reflect_perpendicular() {
    let v = Vec3::new(fx(0.), fx(-1.), fx(0.));
    let n = Vec3::new(fx(0.), fx(1.), fx(0.));
    let res = v.reflect(&n);
    let expected = Vec3::new(fx(0.), fx(1.), fx(0.));
    assert!(res.is_close(&expected));
}

#[test]
fn reflect_parallel() {
    let v = Vec3::new(fx(1.), fx(0.), fx(0.));
    let n = Vec3::new(fx(0.), fx(1.), fx(0.));
    let res = v.reflect(&n);
    let expected = Vec3::new(fx(1.), fx(0.), fx(0.));
    assert!(res.is_close(&expected));
}

#[test]
fn refract_through_air() {
    let v = Vec3::new(fx(2.), fx(-1.), fx(1.)).unit();
    let n = Vec3::new(fx(0.), fx(1.), fx(0.)).unit();
    let res = v.refract(&n, fx(1.));
    let expected = v;
    assert!(res.is_close(&expected));
}

#[test]
fn refract_through_glass() {
    let v = Vec3::new(fx(2.), fx(-1.), fx(1.)).unit();
    let n = Vec3::new(fx(0.), fx(1.), fx(0.)).unit();
    let res = v.refract(&n, fx(1.5)).unit();
    // Slows down in x and z, so the y component gets bigger.
    assert!((v.x as i128) * (res.x as i128) > 0); // Sign of x should be preserved
    assert!(v.x.abs() > res.x.abs());
    assert!((v.y as i128) * (res.y as i128) > 0); // Sign of y should be preserved
    assert!(v.y.abs() < res.y.abs());
    assert!((v.z as i128) * (res.z as i128) > 0); // Sign of z should be preserved
    assert!(v.z.abs() > res.z.abs());
}

#[test]
fn refract_perpendicular() {
    let v = Vec3::new(fx(0.), fx(-1.), fx(0.)).unit();
    let n = Vec3::new(fx(0.), fx(1.), fx(0.)).unit();
    let res = v.refract(&n, fx(1.5)).unit();
    // Should be unchanged.
    assert_eq!(v, res);
}

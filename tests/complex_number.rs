use std::cmp::Ordering;

use mandelbrot::complex_number::ComplexNumber;
use mandelbrot::fixed::{from_int, from_ratio, mul, ONE};

#[test]
fn complex_addition() {
    let a = ComplexNumber::new(from_int(4), from_int(5));
    let b = ComplexNumber::new(from_ratio(56, 10), from_int(9));

    let c = a.add(b);

    assert_eq!(c.r, from_ratio(96, 10));
    assert_eq!(c.i, from_int(14));

    assert_eq!(a.r, from_int(4));
    assert_eq!(b.r, from_ratio(56, 10));
}

#[test]
fn complex_addition2() {
    let a = ComplexNumber::new(from_int(4), from_int(5));
    let b = ComplexNumber::new(from_ratio(55, 10), from_int(9));

    let c = a.add_scalar(from_int(5));
    assert_eq!(c.r, from_int(9));

    let c = b.add_scalar(from_int(-5));
    assert_eq!(c.r, from_ratio(5, 10));
}

#[test]
fn complex_multiplication() {
    let a = ComplexNumber::new(from_int(1), from_int(1));
    let b = ComplexNumber::new(from_int(5), from_int(3));

    let c = a.mul(b);
    assert_eq!(c.r, from_int(2));
    assert_eq!(c.i, from_int(8));
}

#[test]
fn complex_multiplication2() {
    let a = ComplexNumber::new(from_int(1), from_int(3));

    let c = a.mul_scalar(from_int(2));

    assert_eq!(c.r, from_int(2));
    assert_eq!(c.i, from_int(6));
}

#[test]
fn complex_multiplication_assign() {
    let mut a = ComplexNumber::new(from_int(1), from_int(1));
    let b = ComplexNumber::new(from_int(5), from_int(3));

    let c = a.mul(b);
    a.mul_assign(b);

    assert_eq!(c, a);
}

#[test]
fn complex_division() {
    let a = ComplexNumber::new(from_int(2), from_int(2));

    let c = a.div_scalar(from_int(2));
    assert_eq!(c.r, from_int(1));
    assert_eq!(c.i, from_int(1));
}

#[test]
fn complex_abs() {
    assert_eq!(ComplexNumber::new(from_int(3), from_int(4)).abs(), from_int(5));
    assert_eq!(ComplexNumber::new(from_int(-3), from_int(4)).abs(), from_int(5));
    assert_eq!(ComplexNumber::new(from_int(3), from_int(-4)).abs(), from_int(5));
    assert_eq!(ComplexNumber::new(from_int(-3), from_int(-4)).abs(), from_int(5));

    assert_eq!(ComplexNumber::new(from_int(5), from_int(0)).abs(), from_int(5));
    assert_eq!(ComplexNumber::new(from_int(0), from_int(5)).abs(), from_int(5));
}

#[test]
fn complex_eq() {
    let a = ComplexNumber::new(from_int(2), from_int(2));
    let b = ComplexNumber::new(from_int(2), from_int(2));
    assert_eq!(a, b);

    let a = ComplexNumber::new(from_int(3), from_int(2));
    assert_ne!(a, b);

    let a = ComplexNumber::new(from_int(-2), from_int(2));
    assert_ne!(a, b);
}

#[test]
fn complex_cmp() {
    let a = ComplexNumber::new(from_int(2), from_int(2));

    assert!(a.cmp_magnitude(&ComplexNumber::new(from_int(2), from_int(0))) == Ordering::Greater);
    assert_eq!(a, ComplexNumber::new(from_int(2), from_int(2)));
}

#[test]
fn fixed_point_scale_and_rounding() {
    assert_eq!(from_int(1), ONE);
    assert_eq!(from_ratio(1, 4), ONE / 4);
    // products round toward zero
    assert_eq!(mul(1, 1), 0);
    assert_eq!(mul(-3, ONE / 2), -1);
    // saturation at the bounds of i64
    assert_eq!(from_int(1 << 20), i64::MAX);
    assert_eq!(from_int(-(1 << 20)), i64::MIN);
}

#[test]
fn power_and_norm() {
    let z = ComplexNumber::new(from_int(1), from_int(1));
    assert_eq!(z.pow(2), ComplexNumber::new(0, from_int(2)));
    assert_eq!(z.pow(4), ComplexNumber::new(from_int(-4), 0));
    assert_eq!(z.pow(1), z);
    assert_eq!(z.pow(0), z);
    assert_eq!(ComplexNumber::new(from_int(3), from_int(4)).norm_sqr(), from_int(25));
    assert!(ComplexNumber::new(from_int(2), 0).within_escape_radius());
    assert!(!ComplexNumber::new(from_int(2), 1).within_escape_radius());
}

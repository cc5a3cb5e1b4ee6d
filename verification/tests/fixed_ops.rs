//! Unit tests for the saturating fixed-point scalar operations.

use nbody::fixed::fp_add;
use nbody::fixed::fp_div;
use nbody::fixed::fp_half;
use nbody::fixed::fp_mul;
use nbody::fixed::fp_sqrt;
use nbody::fixed::fp_sub;
use nbody::fixed::SCALE;

#[test]
fn add_and_sub_plain() {
    assert_eq!(fp_add(3 * SCALE, 4 * SCALE), 7 * SCALE);
    assert_eq!(fp_sub(3 * SCALE, 4 * SCALE), -SCALE);
    assert_eq!(fp_add(-5, 5), 0);
}

#[test]
fn add_and_sub_saturate() {
    assert_eq!(fp_add(i64::MAX, 1), i64::MAX);
    assert_eq!(fp_add(i64::MAX, i64::MAX), i64::MAX);
    assert_eq!(fp_sub(i64::MIN, 1), i64::MIN);
    assert_eq!(fp_sub(0, i64::MIN), i64::MAX);
}

#[test]
fn mul_scales_and_floors() {
    assert_eq!(fp_mul(2 * SCALE, 3 * SCALE), 6 * SCALE);
    // 1/65536 of a unit squared floors to zero
    assert_eq!(fp_mul(1, 1), 0);
    // rounding is toward negative infinity, not toward zero
    assert_eq!(fp_mul(-1, 1), -1);
    assert_eq!(fp_mul(-3, SCALE / 2), -2);
    assert_eq!(fp_mul(i64::MAX, i64::MAX), i64::MAX);
    assert_eq!(fp_mul(i64::MIN, i64::MAX), i64::MIN);
}

#[test]
fn div_scales_and_floors() {
    assert_eq!(fp_div(6 * SCALE, 3 * SCALE), 2 * SCALE);
    // one third in fixed point
    assert_eq!(fp_div(1, 3), 21845);
    // floor on a negative quotient
    assert_eq!(fp_div(-1, 3), -21846);
    assert_eq!(fp_div(i64::MAX, 1), i64::MAX);
}

#[test]
fn half_floors() {
    assert_eq!(fp_half(2745), 1372);
    assert_eq!(fp_half(-3), -2);
    assert_eq!(fp_half(0), 0);
}

#[test]
fn sqrt_exact_and_floor() {
    assert_eq!(fp_sqrt(0), 0);
    // sqrt(4.0) == 2.0 exactly
    assert_eq!(fp_sqrt(4 * SCALE), 2 * SCALE);
    // sqrt(2.0) floors to 92681/65536
    assert_eq!(fp_sqrt(2 * SCALE), 92681);
    // sqrt(100.0) == 10.0 exactly
    assert_eq!(fp_sqrt(100 * SCALE), 10 * SCALE);
}

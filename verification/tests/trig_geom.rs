//! Exact values of the fixed-point trigonometry and planar helpers.

use rust_invaders::geom::{aabb_overlap, distance, isqrt, step_toward, Vec2i};
use rust_invaders::trig::{angle_add, arctan2_fp, cosine_fp, fp_scale_fp, sine_fp};

fn v(x: i64, y: i64) -> Vec2i {
    Vec2i { x, y }
}

#[test]
fn sine_quarter_points() {
    assert_eq!(sine_fp(0), 0);
    assert_eq!(sine_fp(9_000), 10_000);
    assert_eq!(sine_fp(18_000), 0);
    assert_eq!(sine_fp(27_000), -10_000);
}

#[test]
fn cosine_quarter_points() {
    assert_eq!(cosine_fp(0), 10_000);
    assert_eq!(cosine_fp(9_000), 0);
    assert_eq!(cosine_fp(18_000), -10_000);
    assert_eq!(cosine_fp(27_000), 0);
}

#[test]
fn sine_stays_in_unit_range() {
    let mut a: i64 = 0;
    while a < 36_000 {
        let s = sine_fp(a);
        assert!(-10_000 <= s && s <= 10_000);
        let c = cosine_fp(a);
        assert!(-10_000 <= c && c <= 10_000);
        a += 90;
    }
}

#[test]
fn angle_addition_wraps() {
    assert_eq!(angle_add(35_000, 2_000), 1_000);
    assert_eq!(angle_add(1_000, -2_000), 35_000);
    assert_eq!(angle_add(1_000, 2_000), 3_000);
}

#[test]
fn arctan_axes_and_diagonals() {
    assert_eq!(arctan2_fp(0, 100), 0);
    assert_eq!(arctan2_fp(100, 100), 4_500);
    assert_eq!(arctan2_fp(100, 0), 9_000);
    assert_eq!(arctan2_fp(100, -100), 13_500);
    assert_eq!(arctan2_fp(0, -100), 18_000);
    assert_eq!(arctan2_fp(-100, 0), -9_000);
    assert_eq!(arctan2_fp(-100, -100), -13_500);
}

#[test]
fn fixed_point_scaling_truncates_toward_zero() {
    assert_eq!(fp_scale_fp(25_000), 2);
    assert_eq!(fp_scale_fp(-25_000), -2);
    assert_eq!(fp_scale_fp(9_999), 0);
    assert_eq!(fp_scale_fp(-9_999), 0);
}

#[test]
fn integer_square_roots() {
    assert_eq!(isqrt(0), 0);
    assert_eq!(isqrt(1), 1);
    assert_eq!(isqrt(99), 9);
    assert_eq!(isqrt(100), 10);
    assert_eq!(isqrt(u64::MAX), 4_294_967_295);
}

#[test]
fn distance_is_floor_of_euclidean() {
    assert_eq!(distance(v(0, 0), v(3, 4)), 5);
    assert_eq!(distance(v(0, 0), v(1, 1)), 1);
    assert_eq!(distance(v(10, 10), v(10, 10)), 0);
}

#[test]
fn overlap_is_strict() {
    // Two 10-wide boxes whose edges exactly touch do not overlap.
    assert!(!aabb_overlap(v(0, 0), v(10, 10), v(10, 0), v(10, 10)));
    assert!(aabb_overlap(v(0, 0), v(10, 10), v(9, 0), v(10, 10)));
    assert!(!aabb_overlap(v(0, 0), v(10, 10), v(0, 10), v(10, 10)));
    assert!(aabb_overlap(v(0, 0), v(10, 10), v(0, 9), v(10, 10)));
}

#[test]
fn pursuit_moves_at_full_speed_toward_target() {
    let p = step_toward(v(0, 0), v(10_000, 0), 8_333);
    assert_eq!(p, v(8_333, 0));
}

#[test]
fn pursuit_clamps_at_target() {
    let p = step_toward(v(0, 0), v(5_000, 0), 8_333);
    assert_eq!(p, v(5_000, 0));
    let q = step_toward(v(5_000, 7_000), v(0, 0), 500_000);
    assert_eq!(q, v(0, 0));
}

#[test]
fn pursuit_zero_distance_stays_put() {
    let p = step_toward(v(123, -456), v(123, -456), 8_333);
    assert_eq!(p, v(123, -456));
}

#[test]
fn pursuit_never_overshoots_diagonally() {
    let org = v(0, 0);
    let dst = v(30_000, 40_000);
    let p = step_toward(org, dst, 8_333);
    // Step of 8333 along a 3-4-5 line: x by 8333*3/5, y by 8333*4/5.
    assert_eq!(p, v(4_999, 6_666));
    assert!(0 <= p.x && p.x <= dst.x);
    assert!(0 <= p.y && p.y <= dst.y);
}

use rusteroids::angle::{FULL_TURN, HALF_TURN, QUARTER_TURN};
use rusteroids::arena::{in_bounds, to_draw_vector, wrap, HALF_H, HALF_W, WINDOW_H, WINDOW_W};
use rusteroids::fixed::ONE;
use rusteroids::vector::Vec2;

#[test]
fn new_and_zero() {
    assert_eq!(Vec2::new(3, -4), Vec2 { x: 3, y: -4 });
    assert_eq!(Vec2::zero(), Vec2 { x: 0, y: 0 });
}

#[test]
fn plus_minus_scaled() {
    let a = Vec2::new(1_000_000, 2_000_000);
    let b = Vec2::new(250_000, -500_000);
    assert_eq!(a.plus(b), Vec2::new(1_250_000, 1_500_000));
    assert_eq!(a.minus(b), Vec2::new(750_000, 2_500_000));
    assert_eq!(a.scaled(1_500_000), Vec2::new(1_500_000, 3_000_000));
    assert_eq!(a.scaled(-ONE), Vec2::new(-1_000_000, -2_000_000));
    assert_eq!(Vec2::new(i64::MAX, i64::MIN).plus(Vec2::new(1, -1)), Vec2::new(i64::MAX, i64::MIN));
}

#[test]
fn dot_product() {
    let a = Vec2::new(3_000_000, 4_000_000);
    let b = Vec2::new(-2_000_000, 1_000_000);
    assert_eq!(a.dot(b), -2_000_000);
    assert_eq!(a.dot(a), 25_000_000);
    assert_eq!(Vec2::zero().dot(a), 0);
    assert_eq!(Vec2::new(i64::MIN, i64::MIN).dot(Vec2::new(i64::MIN, i64::MIN)), i64::MAX);
    assert_eq!(Vec2::new(i64::MAX, i64::MAX).dot(Vec2::new(i64::MIN, i64::MIN)), i64::MIN);
}

#[test]
fn norm_and_normalized() {
    let v = Vec2::new(3_000_000, 4_000_000);
    assert_eq!(v.norm(), 5_000_000);
    assert_eq!(v.normalized(), Vec2::new(600_000, 800_000));
    assert_eq!(Vec2::new(0, -7).normalized(), Vec2::new(0, -ONE));
    assert_eq!(Vec2::new(1, 1).norm(), 1);
    assert_eq!(Vec2::new(i64::MIN, i64::MIN).norm(), 13_043_817_825_332_782_212);
    let far = Vec2::new(i64::MAX, i64::MIN).normalized();
    assert_eq!(far, Vec2::new(707_107, -707_107));
}

#[test]
fn distance_rounds_down() {
    let a = Vec2::new(1_000_000, 1_000_000);
    assert_eq!(a.distance_to(Vec2::new(4_000_000, 5_000_000)), 5_000_000);
    assert_eq!(a.distance_to(a), 0);
    assert_eq!(Vec2::new(0, 0).distance_to(Vec2::new(1, 1)), 1);
    assert_eq!(Vec2::new(0, 0).distance_to(Vec2::new(2, 2)), 2);
}

#[test]
fn within_counts_the_rim_and_inside_does_not() {
    let c = Vec2::new(0, 0);
    let on_rim = Vec2::new(3_000_000, 4_000_000);
    assert!(c.within(on_rim, 5_000_000));
    assert!(!c.inside(on_rim, 5_000_000));
    assert!(c.inside(on_rim, 5_000_001));
    assert!(!c.within(on_rim, 4_999_999));
    assert!(c.within(c, 0));
    assert!(!c.inside(c, 0));
    assert!(!c.within(c, -1));
}

#[test]
fn within_far_apart_points() {
    let a = Vec2::new(i64::MIN, i64::MIN);
    let b = Vec2::new(i64::MAX, i64::MAX);
    assert!(!a.within(b, i64::MAX));
    assert!(!a.inside(b, i64::MAX));
    assert!(a.within(a, i64::MAX));
    assert!(Vec2::new(0, 0).within(Vec2::new(i64::MAX, 0), i64::MAX));
    assert!(!Vec2::new(0, 0).inside(Vec2::new(i64::MAX, 0), i64::MAX));
}

#[test]
fn from_angle_is_exact_at_quarter_turns() {
    assert_eq!(Vec2::from_angle(0), Vec2::new(ONE, 0));
    assert_eq!(Vec2::from_angle(QUARTER_TURN), Vec2::new(0, ONE));
    assert_eq!(Vec2::from_angle(HALF_TURN), Vec2::new(-ONE, 0));
    assert_eq!(Vec2::from_angle(-QUARTER_TURN), Vec2::new(0, -ONE));
    assert_eq!(Vec2::from_angle(FULL_TURN), Vec2::new(ONE, 0));
}

#[test]
fn from_angle_has_length_one() {
    let mut a: i64 = -FULL_TURN;
    while a < 2 * FULL_TURN {
        let v = Vec2::from_angle(a);
        let len = ((v.x as f64).powi(2) + (v.y as f64).powi(2)).sqrt() / 1e6;
        assert!((len - 1.0).abs() < 1e-5, "from_angle({}) has length {}", a, len);
        let exact = (a as f64 / 1e6).cos();
        assert!((v.x as f64 / 1e6 - exact).abs() < 0.002);
        a += 7_919;
    }
}

#[test]
fn rotated_by_quarter_turns() {
    let v = Vec2::new(2_000_000, 1_000_000);
    assert_eq!(v.rotated(0), v);
    assert_eq!(v.rotated(QUARTER_TURN), Vec2::new(-1_000_000, 2_000_000));
    assert_eq!(v.rotated(HALF_TURN), Vec2::new(-2_000_000, -1_000_000));
    assert_eq!(v.rotated(3 * QUARTER_TURN), Vec2::new(1_000_000, -2_000_000));
}

#[test]
fn in_bounds_includes_the_edges() {
    assert!(in_bounds(Vec2::new(0, 0)));
    assert!(in_bounds(Vec2::new(HALF_W, HALF_H)));
    assert!(in_bounds(Vec2::new(-HALF_W, -HALF_H)));
    assert!(!in_bounds(Vec2::new(HALF_W + 1, 0)));
    assert!(!in_bounds(Vec2::new(0, -HALF_H - 1)));
}

#[test]
fn to_draw_vector_moves_origin_and_flips_y() {
    assert_eq!(to_draw_vector(Vec2::new(0, 0)), Vec2::new(HALF_W, HALF_H));
    assert_eq!(to_draw_vector(Vec2::new(-HALF_W, HALF_H)), Vec2::new(0, 0));
    assert_eq!(to_draw_vector(Vec2::new(HALF_W, -HALF_H)), Vec2::new(WINDOW_W, WINDOW_H));
    assert_eq!(to_draw_vector(Vec2::new(10, 20)), Vec2::new(HALF_W + 10, HALF_H - 20));
}

#[test]
fn wrap_moves_by_one_full_extent() {
    assert_eq!(wrap(Vec2::new(HALF_W + 5, 0)), Vec2::new(5 - HALF_W, 0));
    assert_eq!(wrap(Vec2::new(-HALF_W - 5, 0)), Vec2::new(HALF_W - 5, 0));
    assert_eq!(wrap(Vec2::new(0, HALF_H + 9)), Vec2::new(0, 9 - HALF_H));
    assert_eq!(wrap(Vec2::new(0, -HALF_H - 9)), Vec2::new(0, HALF_H - 9));
    assert_eq!(wrap(Vec2::new(HALF_W, -HALF_H)), Vec2::new(HALF_W, -HALF_H));
    assert_eq!(wrap(Vec2::new(3 * WINDOW_W, 0)), Vec2::new(2 * WINDOW_W, 0));
}

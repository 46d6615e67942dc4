use rusteroids::angle::{cosine, reduce, sine, FULL_TURN, HALF_TURN, QUARTER_TURN};
use rusteroids::fixed::{isqrt, magnitude, minus, plus, rounded, times, ONE};

#[test]
fn plus_and_minus_are_exact_in_range() {
    assert_eq!(plus(1_500_000, 2_250_000), 3_750_000);
    assert_eq!(minus(1_500_000, 2_250_000), -750_000);
}

#[test]
fn plus_and_minus_saturate() {
    assert_eq!(plus(i64::MAX, 1), i64::MAX);
    assert_eq!(plus(i64::MIN, -1), i64::MIN);
    assert_eq!(minus(i64::MIN, 1), i64::MIN);
    assert_eq!(minus(i64::MAX, -1), i64::MAX);
    assert_eq!(minus(0, i64::MIN), i64::MAX);
}

#[test]
fn magnitude_of_extremes() {
    assert_eq!(magnitude(-5), 5);
    assert_eq!(magnitude(5), 5);
    assert_eq!(magnitude(i64::MIN), 9_223_372_036_854_775_808);
}

#[test]
fn times_rounds_to_nearest() {
    // 1.5 * 2.5 = 3.75
    assert_eq!(times(1_500_000, 2_500_000), 3_750_000);
    // 0.000001 * 0.5 = 0.0000005, which rounds away from zero
    assert_eq!(times(1, 500_000), 1);
    assert_eq!(times(-1, 500_000), -1);
    assert_eq!(times(1, 499_999), 0);
    assert_eq!(times(-3, ONE), -3);
}

#[test]
fn times_saturates() {
    assert_eq!(times(i64::MAX, 2 * ONE), i64::MAX);
    assert_eq!(times(i64::MIN, 2 * ONE), i64::MIN);
    assert_eq!(times(i64::MIN, i64::MIN), i64::MAX);
}

#[test]
fn rounded_halves_go_away_from_zero() {
    assert_eq!(rounded(7, 2), 4);
    assert_eq!(rounded(-7, 2), -4);
    assert_eq!(rounded(6, 4), 2);
    assert_eq!(rounded(5, 4), 1);
    assert_eq!(rounded(i128::MAX, 1), i64::MAX);
    assert_eq!(rounded(i128::MIN, 1), i64::MIN);
}

#[test]
fn isqrt_rounds_down() {
    assert_eq!(isqrt(0), 0);
    assert_eq!(isqrt(1), 1);
    assert_eq!(isqrt(15), 3);
    assert_eq!(isqrt(16), 4);
    assert_eq!(isqrt(17), 4);
    assert_eq!(isqrt(u128::MAX), u64::MAX);
}

#[test]
fn reduce_brings_angles_into_one_turn() {
    assert_eq!(reduce(0), 0);
    assert_eq!(reduce(FULL_TURN), 0);
    assert_eq!(reduce(FULL_TURN + 5), 5);
    assert_eq!(reduce(-1), FULL_TURN - 1);
    assert_eq!(reduce(-FULL_TURN), 0);
    assert_eq!(reduce(-FULL_TURN - 7), FULL_TURN - 7);
}

#[test]
fn sine_and_cosine_are_exact_at_quarter_turns() {
    assert_eq!(sine(0), 0);
    assert_eq!(sine(QUARTER_TURN), ONE);
    assert_eq!(sine(HALF_TURN), 0);
    assert_eq!(sine(3 * QUARTER_TURN), -ONE);
    assert_eq!(cosine(0), ONE);
    assert_eq!(cosine(QUARTER_TURN), 0);
    assert_eq!(cosine(HALF_TURN), -ONE);
    assert_eq!(cosine(-QUARTER_TURN), 0);
}

#[test]
fn sine_stays_close_to_the_true_sine() {
    let mut a: i64 = -2 * FULL_TURN;
    while a < 2 * FULL_TURN {
        let exact = (a as f64 / 1e6).sin();
        let got = sine(a) as f64 / 1e6;
        assert!((exact - got).abs() < 0.002, "sine({}) = {} but {}", a, got, exact);
        let exact = (a as f64 / 1e6).cos();
        let got = cosine(a) as f64 / 1e6;
        assert!((exact - got).abs() < 0.002, "cosine({}) = {} but {}", a, got, exact);
        a += 1_237;
    }
}

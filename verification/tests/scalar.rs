use asteroids::scalar::{
    floor_div, isqrt, minus, negated, over, plus, rescaled_sum, saturate, times, ONE,
};
use asteroids::wide::Wide;

fn fx(v: f64) -> i64 {
    (v * 4294967296.0).round() as i64
}

#[test]
fn one_is_two_to_the_thirty_two() {
    assert_eq!(ONE, 1 << 32);
    assert_eq!(fx(1.0), ONE);
    assert_eq!(fx(-0.5) * 2, -ONE);
}

#[test]
fn storing_saturates() {
    assert_eq!(saturate(5), 5);
    assert_eq!(saturate(i64::MAX as i128 + 1), i64::MAX);
    assert_eq!(saturate(i64::MIN as i128 - 1), i64::MIN);
    assert_eq!(saturate(i128::MAX), i64::MAX);
    assert_eq!(saturate(i128::MIN), i64::MIN);
    assert_eq!(plus(i64::MAX, 1), i64::MAX);
    assert_eq!(plus(3, -5), -2);
    assert_eq!(minus(i64::MIN, 1), i64::MIN);
    assert_eq!(minus(3, -5), 8);
    assert_eq!(negated(i64::MIN), i64::MAX);
    assert_eq!(negated(4), -4);
}

#[test]
fn division_rounds_down() {
    assert_eq!(floor_div(7, 2), 3);
    assert_eq!(floor_div(-7, 2), -4);
    assert_eq!(floor_div(-8, 2), -4);
    assert_eq!(floor_div(0, 5), 0);
    assert_eq!(rescaled_sum(ONE as i128, -1), 0);
    assert_eq!(rescaled_sum(-1, 0), -1);
    assert_eq!(rescaled_sum(1 << 126, 1 << 126), 1 << 95);
}

#[test]
fn products_and_quotients_of_fixed_point_numbers() {
    assert_eq!(times(fx(1.5), fx(-2.0)), fx(-3.0));
    assert_eq!(times(1, 1), 0);
    assert_eq!(times(-1, 1), -1);
    assert_eq!(times(i64::MIN, i64::MIN), i64::MAX);
    assert_eq!(times(i64::MIN, i64::MAX), i64::MIN);
    assert_eq!(over(fx(3.0), fx(-2.0)), fx(-1.5));
    assert_eq!(over(fx(1.0), fx(3.0)), 1431655765);
    assert_eq!(over(fx(-1.0), fx(3.0)), -1431655766);
    assert_eq!(over(i64::MAX, 1), i64::MAX);
    assert_eq!(over(i64::MIN, -1), i64::MAX);
}

#[test]
fn square_roots_are_rounded_down() {
    assert_eq!(isqrt(0), 0);
    assert_eq!(isqrt(1), 1);
    assert_eq!(isqrt(3), 1);
    assert_eq!(isqrt(4), 2);
    assert_eq!(isqrt(99), 9);
    assert_eq!(isqrt(100), 10);
    assert_eq!(isqrt((1 << 64) - 1), (1 << 32) - 1);
    assert_eq!(isqrt(u128::MAX), u64::MAX);
    let n: u128 = 12345678901234567890123456789;
    let r = isqrt(n) as u128;
    assert!(r * r <= n && n < (r + 1) * (r + 1));
}

#[test]
fn wide_products_are_exact() {
    let top: i128 = 1 << 64;
    let square = Wide::product(top, top);
    let less = Wide::product(top, top - 1);
    let zero = Wide::product(0, top);
    assert!(square.is_positive() && !square.is_negative() && !square.is_zero());
    assert!(zero.is_zero() && !zero.is_positive() && !zero.is_negative());
    assert!(less.at_most(square) && !square.at_most(less));
    assert!(square.minus(less).minus(Wide::product(top, 1)).is_zero());
    assert!(Wide::product(-top, top).plus(square).is_zero());
    assert!(Wide::product(-top, top).is_negative());
    assert!(Wide::product(-3, 5).plus(Wide::product(15, 1)).is_zero());
    assert!(Wide::product(-1, 1).at_most(zero));
    assert!(Wide::product(7, 6).at_most(Wide::product(-7, -6)));
    assert!(!Wide::product(7, 6).at_most(Wide::product(41, 1)));
}

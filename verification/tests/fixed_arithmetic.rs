use raytracer::fixed::Fixed;
use raytracer::fixed::LIMIT;
use raytracer::fixed::SCALE;

fn fx(raw: i64) -> Fixed {
    Fixed::from_raw(raw)
}

#[test]
fn constants_have_their_raw_values() {
    assert_eq!(SCALE, 1_000_000_000);
    assert_eq!(LIMIT, i64::MAX);
    assert_eq!(Fixed::zero().raw, 0);
    assert_eq!(Fixed::one().raw, SCALE);
    assert_eq!(Fixed::infinity().raw, LIMIT);
    assert_eq!(Fixed::from_int(7).raw, 7 * SCALE);
    assert_eq!(Fixed::from_int(-3).raw, -3 * SCALE);
}

#[test]
fn from_int_saturates() {
    assert_eq!(Fixed::from_int(i64::MAX).raw, LIMIT);
    assert_eq!(Fixed::from_int(i64::MIN).raw, -LIMIT);
    assert_eq!(Fixed::from_int(9_223_372_036).raw, 9_223_372_036 * SCALE);
    assert_eq!(Fixed::from_int(9_223_372_037).raw, LIMIT);
}

#[test]
fn sums_and_differences_saturate() {
    assert_eq!(fx(1_500_000_000) + fx(2_250_000_000), fx(3_750_000_000));
    assert_eq!(fx(1_500_000_000) - fx(2_250_000_000), fx(-750_000_000));
    assert_eq!(fx(LIMIT) + fx(1), fx(LIMIT));
    assert_eq!(fx(-LIMIT) - fx(1), fx(-LIMIT));
    assert_eq!(fx(i64::MIN) + fx(0), fx(-LIMIT));
    assert_eq!(fx(LIMIT) - fx(-LIMIT), fx(LIMIT));
}

#[test]
fn negation_saturates_at_the_lowest_raw_value() {
    assert_eq!(-fx(5), fx(-5));
    assert_eq!(-fx(-LIMIT), fx(LIMIT));
    assert_eq!(-fx(i64::MIN), fx(LIMIT));
    assert_eq!(fx(i64::MIN).abs(), fx(LIMIT));
    assert_eq!(fx(-42).abs(), fx(42));
    assert_eq!(fx(42).abs(), fx(42));
}

#[test]
fn products_round_toward_zero() {
    assert_eq!(fx(1_500_000_000) * fx(-1_500_000_000), fx(-2_250_000_000));
    assert_eq!(fx(1) * fx(500_000_000), fx(0));
    assert_eq!(fx(-1) * fx(500_000_000), fx(0));
    assert_eq!(fx(3) * fx(500_000_000), fx(1));
    assert_eq!(fx(-3) * fx(500_000_000), fx(-1));
    assert_eq!(fx(123_456_789) * Fixed::one(), fx(123_456_789));
    assert_eq!(fx(123_456_789) * Fixed::zero(), fx(0));
}

#[test]
fn products_saturate() {
    assert_eq!(fx(LIMIT) * fx(LIMIT), fx(LIMIT));
    assert_eq!(fx(-LIMIT) * fx(LIMIT), fx(-LIMIT));
    assert_eq!(fx(i64::MIN) * fx(i64::MIN), fx(LIMIT));
    assert_eq!(fx(LIMIT) * Fixed::from_int(2), fx(LIMIT));
}

#[test]
fn quotients_round_toward_zero() {
    assert_eq!(Fixed::one() / Fixed::from_int(3), fx(333_333_333));
    assert_eq!(Fixed::from_int(-1) / Fixed::from_int(3), fx(-333_333_333));
    assert_eq!(Fixed::one() / Fixed::from_int(-3), fx(-333_333_333));
    assert_eq!(Fixed::from_int(7) / Fixed::from_int(2), fx(3_500_000_000));
    assert_eq!(Fixed::one() / fx(1_500_000_000), fx(666_666_666));
    assert_eq!(fx(LIMIT) / fx(1), fx(LIMIT));
}

#[test]
fn quotient_by_zero_is_an_infinity_or_zero() {
    assert_eq!(Fixed::one() / Fixed::zero(), fx(LIMIT));
    assert_eq!(Fixed::from_int(-1) / Fixed::zero(), fx(-LIMIT));
    assert_eq!(Fixed::zero() / Fixed::zero(), fx(0));
}

#[test]
fn square_root_rounds_down() {
    assert_eq!(Fixed::from_int(2).sqrt(), fx(1_414_213_562));
    assert_eq!(fx(250_000_000).sqrt(), fx(500_000_000));
    assert_eq!(Fixed::from_int(1_000_000).sqrt(), Fixed::from_int(1_000));
    assert_eq!(fx(1).sqrt(), fx(31_622));
    assert_eq!(fx(LIMIT).sqrt(), fx(96_038_388_349_944));
}

#[test]
fn square_root_of_nothing_and_less_is_zero() {
    assert_eq!(Fixed::zero().sqrt(), fx(0));
    assert_eq!(Fixed::from_int(-4).sqrt(), fx(0));
    assert_eq!(fx(i64::MIN).sqrt(), fx(0));
}

#[test]
fn square_root_is_the_largest_whose_square_fits() {
    for raw in [1i64, 2, 3, 999_999_999, 1_000_000_001, 2_000_000_000, 123_456_789_012] {
        let r = fx(raw).sqrt().raw as i128;
        let n = raw as i128 * SCALE as i128;
        assert!(r * r <= n);
        assert!(n < (r + 1) * (r + 1));
    }
}

#[test]
fn powers_multiply_repeatedly() {
    assert_eq!(fx(500_000_000).powi(5), fx(31_250_000));
    assert_eq!(Fixed::from_int(-2).powi(3), Fixed::from_int(-8));
    assert_eq!(Fixed::from_int(3).powi(0), Fixed::one());
    assert_eq!(Fixed::zero().powi(5), Fixed::zero());
    assert_eq!(Fixed::zero().powi(0), Fixed::one());
}

#[test]
fn min_max_and_clamp_pick_by_raw_value() {
    assert_eq!(fx(3).min(fx(5)), fx(3));
    assert_eq!(fx(5).min(fx(3)), fx(3));
    assert_eq!(fx(3).max(fx(5)), fx(5));
    assert_eq!(fx(-7).clamp(fx(0), fx(10)), fx(0));
    assert_eq!(fx(17).clamp(fx(0), fx(10)), fx(10));
    assert_eq!(fx(7).clamp(fx(0), fx(10)), fx(7));
    assert_eq!(fx(7).clamp(fx(7), fx(7)), fx(7));
}

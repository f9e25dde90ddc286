use magnetite::fixed::Fixed;
use magnetite::scalar::alike;
use magnetite::scalar::less;
use magnetite::scalar::max;
use magnetite::scalar::min;
use magnetite::scalar::Scalar;

fn fx(n: i32) -> Fixed {
    Fixed::from_int(n)
}

fn raw(r: i64) -> Fixed {
    Fixed::from_raw(r)
}

#[test]
fn whole_numbers_and_ratios() {
    assert_eq!(fx(3).raw, 3 * 65536);
    assert_eq!(Fixed::zero(), fx(0));
    assert_eq!(Fixed::one(), fx(1));
    assert_eq!(Fixed::ratio(1, 2).raw, 32768);
    assert_eq!(Fixed::ratio(-3, 4).raw, -49152);
    assert_eq!(Fixed::ratio(3, -4).raw, -49152);
    assert_eq!(Fixed::ratio(1, 1000).raw, 65);
    assert_eq!(Fixed::ratio(7, 1), fx(7));
    assert_eq!(Fixed::ratio(5, 0), Fixed::infinity());
    assert_eq!(Fixed::ratio(-5, 0), raw(i64::MIN));
    assert_eq!(Fixed::ratio(0, 0), fx(0));
}

#[test]
fn sums_and_differences_saturate() {
    assert_eq!(fx(2).plus(fx(3)), fx(5));
    assert_eq!(fx(2).minus(fx(3)), fx(-1));
    assert_eq!(raw(i64::MAX).plus(fx(1)), raw(i64::MAX));
    assert_eq!(raw(i64::MIN).minus(fx(1)), raw(i64::MIN));
    assert_eq!(raw(i64::MIN).neg(), raw(i64::MAX));
    assert_eq!(fx(4).neg(), fx(-4));
}

#[test]
fn products_round_toward_zero() {
    assert_eq!(fx(6).times(fx(7)), fx(42));
    assert_eq!(fx(-6).times(fx(7)), fx(-42));
    assert_eq!(Fixed::ratio(1, 2).times(Fixed::ratio(1, 2)), Fixed::ratio(1, 4));
    assert_eq!(raw(1).times(raw(1)), raw(0));
    assert_eq!(raw(-1).times(raw(1)), raw(0));
    assert_eq!(raw(i64::MAX).times(fx(2)), raw(i64::MAX));
    assert_eq!(raw(i64::MAX).times(fx(-2)), raw(i64::MIN));
}

#[test]
fn quotients_and_division_by_zero() {
    assert_eq!(fx(42).over(fx(7)), fx(6));
    assert_eq!(fx(1).over(fx(4)), Fixed::ratio(1, 4));
    assert_eq!(fx(-1).over(fx(4)), Fixed::ratio(-1, 4));
    assert_eq!(fx(5).over(fx(0)), raw(i64::MAX));
    assert_eq!(fx(-5).over(fx(0)), raw(i64::MIN));
    assert_eq!(fx(0).over(fx(0)), fx(0));
    assert_eq!(Fixed::infinity(), raw(i64::MAX));
}

#[test]
fn roots() {
    assert_eq!(fx(25).sqrt(), fx(5));
    assert_eq!(fx(2).sqrt().raw, 92681);
    assert_eq!(fx(0).sqrt(), fx(0));
    assert_eq!(fx(-4).sqrt(), fx(0));
    assert_eq!(fx(27).cbrt(), fx(3));
    assert_eq!(fx(-8).cbrt(), fx(-2));
    assert_eq!(Fixed::ratio(1, 8).cbrt(), Fixed::ratio(1, 2));
}

#[test]
fn floor_and_remainder() {
    assert_eq!(Fixed::ratio(7, 2).floor(), fx(3));
    assert_eq!(Fixed::ratio(-7, 2).floor(), fx(-4));
    assert_eq!(fx(5).floor(), fx(5));
    assert_eq!(fx(-5).floor(), fx(-5));
    assert_eq!(fx(7).rem(fx(2)), fx(1));
    assert_eq!(fx(-7).rem(fx(2)), fx(-1));
    assert_eq!(fx(6).rem(fx(2)), fx(0));
    assert_eq!(fx(6).rem(fx(0)), fx(0));
}

#[test]
fn sample_of_the_unit_interval() {
    assert_eq!(Fixed::unit_sample(0), fx(0));
    assert_eq!(Fixed::unit_sample(1u64 << 63), Fixed::ratio(1, 2));
    assert_eq!(Fixed::unit_sample(u64::MAX).raw, 65535);
}

#[test]
fn order_and_its_helpers() {
    assert!(fx(1).at_most(fx(2)));
    assert!(fx(2).at_most(fx(2)));
    assert!(!fx(3).at_most(fx(2)));
    assert!(less(fx(1), fx(2)));
    assert!(!less(fx(2), fx(2)));
    assert!(alike(fx(2), fx(2)));
    assert!(!alike(fx(2), fx(3)));
    assert_eq!(min(fx(2), fx(-3)), fx(-3));
    assert_eq!(max(fx(2), fx(-3)), fx(2));
    assert_eq!(fx(-3).abs(), fx(3));
    assert_eq!(fx(3).abs(), fx(3));
    assert_eq!(raw(i64::MIN).abs(), raw(i64::MAX));
}

#[test]
fn trigonometry_is_close() {
    let close = |a: Fixed, b: i64| (a.raw - b).abs() <= 64;
    assert_eq!(Fixed::pi().raw, 205887);
    assert_eq!(fx(0).sin(), fx(0));
    assert!(close(Fixed::pi().over(fx(2)).sin(), 65536));
    assert!(close(Fixed::pi().over(fx(6)).sin(), 32768));
    assert!(close(Fixed::pi().sin(), 0));
    assert!(close(fx(0).cos(), 65536));
    assert!(close(Fixed::pi().cos(), -65536));
    assert!(close(Fixed::pi().over(fx(3)).cos(), 32768));
    assert!(close(Fixed::pi().over(fx(4)).tan(), 65536));
    assert!(close(fx(7).sin(), 43056));
    assert!(close(fx(-7).sin(), -43056));
}

use raytracer::fixed::{saturate, Fixed, SCALE};
use raytracer::root::isqrt;

fn fx(raw: i32) -> Fixed {
    Fixed::from_raw(raw)
}

#[test]
fn scale_is_one_hundred_thousand() {
    assert_eq!(SCALE, 100_000);
    assert_eq!(Fixed::one().raw(), 100_000);
    assert_eq!(Fixed::half().raw(), 50_000);
    assert_eq!(Fixed::zero().raw(), 0);
    assert_eq!(Fixed::max_value().raw(), i32::MAX);
}

#[test]
fn from_int_scales_and_saturates() {
    assert_eq!(Fixed::from_int(3).raw(), 300_000);
    assert_eq!(Fixed::from_int(-7).raw(), -700_000);
    assert_eq!(Fixed::from_int(21_474).raw(), 2_147_400_000);
    assert_eq!(Fixed::from_int(21_475).raw(), i32::MAX);
    assert_eq!(Fixed::from_int(-21_475).raw(), i32::MIN);
}

#[test]
fn sum_and_difference_saturate() {
    assert_eq!((fx(150_000) + fx(-25_000)).raw(), 125_000);
    assert_eq!((fx(150_000) - fx(175_000)).raw(), -25_000);
    assert_eq!((fx(i32::MAX) + fx(1)).raw(), i32::MAX);
    assert_eq!((fx(i32::MIN) - fx(1)).raw(), i32::MIN);
    assert_eq!((fx(i32::MIN) + fx(i32::MIN)).raw(), i32::MIN);
}

#[test]
fn negation_saturates_at_the_smallest_value() {
    assert_eq!((-fx(42)).raw(), -42);
    assert_eq!((-fx(-42)).raw(), 42);
    assert_eq!((-fx(i32::MIN)).raw(), i32::MAX);
}

#[test]
fn product_rounds_toward_zero() {
    assert_eq!((fx(150_000) * fx(200_000)).raw(), 300_000);
    assert_eq!((fx(33_333) * fx(33_333)).raw(), 11_110);
    assert_eq!((fx(-33_333) * fx(33_333)).raw(), -11_110);
    assert_eq!((fx(1) * fx(1)).raw(), 0);
    assert_eq!((fx(-1) * fx(1)).raw(), 0);
    assert_eq!((fx(i32::MAX) * fx(i32::MAX)).raw(), i32::MAX);
    assert_eq!((fx(i32::MAX) * fx(i32::MIN)).raw(), i32::MIN);
}

#[test]
fn quotient_rounds_toward_zero() {
    assert_eq!((fx(100_000) / fx(300_000)).raw(), 33_333);
    assert_eq!((fx(-100_000) / fx(300_000)).raw(), -33_333);
    assert_eq!((fx(100_000) / fx(-300_000)).raw(), -33_333);
    assert_eq!((fx(-100_000) / fx(-300_000)).raw(), 33_333);
    assert_eq!((fx(700_000) / fx(1_000_000)).raw(), 70_000);
    assert_eq!((fx(i32::MAX) / fx(1)).raw(), i32::MAX);
}

#[test]
fn quotient_by_zero_is_extreme() {
    assert_eq!((fx(5) / fx(0)).raw(), i32::MAX);
    assert_eq!((fx(-5) / fx(0)).raw(), i32::MIN);
    assert_eq!((fx(0) / fx(0)).raw(), 0);
}

#[test]
fn ratio_of_counts() {
    assert_eq!(Fixed::ratio(400, 200).raw(), 200_000);
    assert_eq!(Fixed::ratio(1, 3).raw(), 33_333);
    assert_eq!(Fixed::ratio(0, 7).raw(), 0);
    assert_eq!(Fixed::ratio(7, 0).raw(), i32::MAX);
    assert_eq!(Fixed::ratio(0, 0).raw(), 0);
    assert_eq!(Fixed::ratio(usize::MAX, 1).raw(), i32::MAX);
}

#[test]
fn fraction_of_bits_lies_below_one() {
    assert_eq!(Fixed::from_fraction(0).raw(), 0);
    assert_eq!(Fixed::from_fraction(0x8000_0000).raw(), 50_000);
    assert_eq!(Fixed::from_fraction(0x4000_0000).raw(), 25_000);
    assert_eq!(Fixed::from_fraction(u32::MAX).raw(), 99_999);
}

#[test]
fn saturate_moves_into_range() {
    assert_eq!(saturate(12).raw(), 12);
    assert_eq!(saturate(1 << 40).raw(), i32::MAX);
    assert_eq!(saturate(-(1 << 40)).raw(), i32::MIN);
}

#[test]
fn integer_square_roots() {
    assert_eq!(isqrt(0), 0);
    assert_eq!(isqrt(1), 1);
    assert_eq!(isqrt(3), 1);
    assert_eq!(isqrt(4), 2);
    assert_eq!(isqrt(24), 4);
    assert_eq!(isqrt(25), 5);
    assert_eq!(isqrt(30_000_000_000), 173_205);
    assert_eq!(isqrt(u128::MAX), u64::MAX);
}

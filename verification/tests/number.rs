use distances::{IInt, Int, Number, UInt};

fn identities<T: Number>() -> (T, T) {
    (T::zero(), T::one())
}

fn is_int<T: Int>(_: T) -> bool {
    true
}

fn is_signed<T: IInt>(_: T) -> bool {
    true
}

#[test]
fn zero_and_one_of_each_width() {
    assert_eq!(identities::<u8>(), (0, 1));
    assert_eq!(identities::<u16>(), (0, 1));
    assert_eq!(identities::<u32>(), (0, 1));
    assert_eq!(identities::<u64>(), (0, 1));
    assert_eq!(identities::<u128>(), (0, 1));
    assert_eq!(identities::<usize>(), (0, 1));
    assert_eq!(identities::<i8>(), (0, 1));
    assert_eq!(identities::<i16>(), (0, 1));
    assert_eq!(identities::<i32>(), (0, 1));
    assert_eq!(identities::<i64>(), (0, 1));
    assert_eq!(identities::<i128>(), (0, 1));
    assert_eq!(identities::<isize>(), (0, 1));
}

#[test]
fn one_is_neutral_for_multiplication() {
    assert_eq!(Number::checked_mul(37u32, <u32 as Number>::one()), Some(37));
    assert_eq!(Number::checked_mul(-37i64, <i64 as Number>::one()), Some(-37));
    assert_eq!(Number::checked_add(37u8, <u8 as Number>::zero()), Some(37));
}

#[test]
fn abs_diff_unsigned_near_zero() {
    assert_eq!(Number::abs_diff(0u8, 255u8), 255);
    assert_eq!(Number::abs_diff(255u8, 0u8), 255);
    assert_eq!(Number::abs_diff(3u32, 5u32), 2);
    assert_eq!(Number::abs_diff(5u32, 3u32), 2);
    assert_eq!(Number::abs_diff(0u64, u64::MAX), u64::MAX);
    assert_eq!(Number::abs_diff(7u128, 7u128), 0);
    assert_eq!(Number::abs_diff(1usize, 10usize), 9);
    assert_eq!(Number::abs_diff(0u16, 1u16), 1);
}

#[test]
fn abs_diff_signed_within_range() {
    assert_eq!(Number::abs_diff(-3i32, 4i32), 7);
    assert_eq!(Number::abs_diff(4i32, -3i32), 7);
    assert_eq!(Number::abs_diff(-100i8, 26i8), 126);
    assert_eq!(Number::abs_diff(-100i8, 27i8), 127);
    assert_eq!(Number::abs_diff(i64::MIN, -1i64), i64::MAX);
    assert_eq!(Number::abs_diff(-5i16, -5i16), 0);
    assert_eq!(Number::abs_diff(-9isize, 1isize), 10);
    assert_eq!(Number::abs_diff(-9i128, 1i128), 10);
}

#[test]
fn abs_diff_signed_saturates() {
    assert_eq!(Number::abs_diff(-128i8, 127i8), 127);
    assert_eq!(Number::abs_diff(127i8, -128i8), 127);
    assert_eq!(Number::abs_diff(-100i8, 28i8), 127);
    assert_eq!(Number::abs_diff(i32::MIN, 0i32), i32::MAX);
    assert_eq!(Number::abs_diff(i64::MIN, i64::MAX), i64::MAX);
    assert_eq!(Number::abs_diff(i128::MAX, i128::MIN), i128::MAX);
}

#[test]
fn checked_add_reports_overflow() {
    assert_eq!(Number::checked_add(200u8, 55u8), Some(255));
    assert_eq!(Number::checked_add(200u8, 56u8), None);
    assert_eq!(Number::checked_add(100i8, 27i8), Some(127));
    assert_eq!(Number::checked_add(100i8, 28i8), None);
    assert_eq!(Number::checked_add(-100i8, -28i8), Some(-128));
    assert_eq!(Number::checked_add(-100i8, -29i8), None);
    assert_eq!(Number::checked_add(u128::MAX, 1u128), None);
}

#[test]
fn checked_sub_reports_overflow() {
    assert_eq!(Number::checked_sub(5u32, 5u32), Some(0));
    assert_eq!(Number::checked_sub(5u32, 6u32), None);
    assert_eq!(Number::checked_sub(-128i8, 1i8), None);
    assert_eq!(Number::checked_sub(127i8, -1i8), None);
    assert_eq!(Number::checked_sub(-1i8, 127i8), Some(-128));
    assert_eq!(Number::checked_sub(0usize, 1usize), None);
}

#[test]
fn checked_mul_reports_overflow() {
    assert_eq!(Number::checked_mul(65_535u32, 65_537u32), Some(u32::MAX));
    assert_eq!(Number::checked_mul(65_536u32, 65_536u32), None);
    assert_eq!(Number::checked_mul(-64i8, 2i8), Some(-128));
    assert_eq!(Number::checked_mul(64i8, 2i8), None);
    assert_eq!(Number::checked_mul(-1i64, i64::MIN), None);
    assert_eq!(Number::checked_mul(12u16, 12u16), Some(144));
}

#[test]
fn checked_div_rounds_toward_zero() {
    assert_eq!(Number::checked_div(7u32, 2u32), Some(3));
    assert_eq!(Number::checked_div(7i32, 2i32), Some(3));
    assert_eq!(Number::checked_div(-7i32, 2i32), Some(-3));
    assert_eq!(Number::checked_div(7i32, -2i32), Some(-3));
    assert_eq!(Number::checked_div(-7i32, -2i32), Some(3));
    assert_eq!(Number::checked_div(0i32, -2i32), Some(0));
}

#[test]
fn checked_div_rejects_zero_and_overflow() {
    assert_eq!(Number::checked_div(7u32, 0u32), None);
    assert_eq!(Number::checked_div(7i32, 0i32), None);
    assert_eq!(Number::checked_div(i8::MIN, -1i8), None);
    assert_eq!(Number::checked_div(i64::MIN, -1i64), None);
    assert_eq!(Number::checked_div(i8::MIN, 1i8), Some(i8::MIN));
}

#[test]
fn unsigned_widening_is_lossless() {
    assert_eq!(UInt::as_u64(255u8), 255);
    assert_eq!(UInt::as_i64(255u8), 255);
    assert_eq!(UInt::as_u64(65_535u16), 65_535);
    assert_eq!(UInt::as_i64(65_535u16), 65_535);
    assert_eq!(UInt::as_u64(u32::MAX), 4_294_967_295);
    assert_eq!(UInt::as_i64(u32::MAX), 4_294_967_295);
    assert_eq!(UInt::as_u64(u64::MAX), u64::MAX);
    assert_eq!(UInt::as_i64(9_223_372_036_854_775_807u64), i64::MAX);
    assert_eq!(UInt::as_u64(12usize), 12);
    assert_eq!(UInt::as_i64(12usize), 12);
    assert_eq!(UInt::as_u64(12u128), 12);
    assert_eq!(UInt::as_i64(12u128), 12);
}

#[test]
fn unsigned_conversion_keeps_low_bits() {
    assert_eq!(UInt::as_i64(u64::MAX), -1);
    assert_eq!(UInt::as_i64(9_223_372_036_854_775_808u64), i64::MIN);
    assert_eq!(UInt::as_u64(u128::MAX), u64::MAX);
    assert_eq!(UInt::as_u64(18_446_744_073_709_551_616u128), 0);
    assert_eq!(UInt::as_u64(18_446_744_073_709_551_621u128), 5);
    assert_eq!(UInt::as_i64(u128::MAX), -1);
    assert_eq!(UInt::as_i64(18_446_744_073_709_551_621u128), 5);
    assert_eq!(UInt::as_i64(9_223_372_036_854_775_808u128), i64::MIN);
}

#[test]
fn integer_markers_cover_the_integer_types() {
    assert!(is_int(1u8) && is_int(1i8) && is_int(1u16) && is_int(1i16));
    assert!(is_int(1u32) && is_int(1i32) && is_int(1u64) && is_int(1i64));
    assert!(is_int(1u128) && is_int(1i128) && is_int(1usize) && is_int(1isize));
    assert!(is_signed(1i8) && is_signed(1i16) && is_signed(1i32));
    assert!(is_signed(1i64) && is_signed(1i128) && is_signed(1isize));
}

fn widen<T: UInt>(values: &[T]) -> Vec<(u64, i64)> {
    values.iter().map(|&v| (v.as_u64(), v.as_i64())).collect()
}

fn distinct<T: Int>(values: &[T]) -> usize {
    values.iter().collect::<std::collections::HashSet<_>>().len()
}

fn greatest<T: Int>(values: &[T]) -> Option<T> {
    values.iter().copied().max()
}

#[test]
fn unsigned_numbers_widen_through_the_trait() {
    assert_eq!(widen(&[0u8, 7, 255]), vec![(0, 0), (7, 7), (255, 255)]);
    assert_eq!(widen(&[70_000u32]), vec![(70_000, 70_000)]);
    assert_eq!(widen(&[u64::MAX - 1]), vec![(u64::MAX - 1, -2)]);
}

#[test]
fn integers_are_ordered_and_hashable() {
    assert_eq!(distinct(&[3u32, 1, 3, 2, 1]), 3);
    assert_eq!(distinct(&[-1i8, -1, -1]), 1);
    assert_eq!(greatest(&[3u32, 1, 3, 2, 1]), Some(3));
    assert_eq!(greatest(&[-3i64, -1, -2]), Some(-1));
    assert_eq!(greatest::<u16>(&[]), None);
}

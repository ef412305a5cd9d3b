use distances::{U32x16, U32x4, U32x8};

fn ramp(len: usize) -> Vec<u32> {
    (0..len).map(|i| 10 * (i as u32 + 1)).collect()
}

#[test]
fn lane_counts() {
    assert_eq!(U32x4::lanes(), 4);
    assert_eq!(U32x8::lanes(), 8);
    assert_eq!(U32x16::lanes(), 16);
}

#[test]
fn new_keeps_lane_order() {
    let v = U32x4::new(1, 2, 3, 4);
    assert_eq!((v.0, v.1, v.2, v.3), (1, 2, 3, 4));
    let w = U32x8::new(1, 2, 3, 4, 5, 6, 7, 8);
    assert_eq!((w.0, w.3, w.7), (1, 4, 8));
    let z = U32x16::new(1, 2, 3, 4, 5, 6, 7, 8, 9, 10, 11, 12, 13, 14, 15, 16);
    assert_eq!((z.0, z.8, z.15), (1, 9, 16));
}

#[test]
fn splat_fills_every_lane() {
    assert_eq!(U32x4::splat(7), U32x4::new(7, 7, 7, 7));
    assert_eq!(U32x8::splat(7), U32x8::new(7, 7, 7, 7, 7, 7, 7, 7));
    assert_eq!(U32x16::splat(0).horizontal_add(), 0);
    assert_eq!(U32x16::splat(3).horizontal_add(), 48);
}

#[test]
fn from_slice_takes_the_leading_elements() {
    assert_eq!(U32x4::from_slice(&ramp(4)), U32x4::new(10, 20, 30, 40));
    assert_eq!(U32x4::from_slice(&ramp(9)), U32x4::new(10, 20, 30, 40));
    assert_eq!(U32x8::from_slice(&ramp(8)), U32x8::new(10, 20, 30, 40, 50, 60, 70, 80));
    assert_eq!(U32x8::from_slice(&ramp(20)), U32x8::new(10, 20, 30, 40, 50, 60, 70, 80));
    let expected =
        U32x16::new(10, 20, 30, 40, 50, 60, 70, 80, 90, 100, 110, 120, 130, 140, 150, 160);
    assert_eq!(U32x16::from_slice(&ramp(16)), expected);
    assert_eq!(U32x16::from_slice(&ramp(33)), expected);
}

#[test]
fn horizontal_add_sums_all_lanes() {
    assert_eq!(U32x4::new(1, 2, 3, 4).horizontal_add(), 10);
    assert_eq!(U32x8::from_slice(&ramp(8)).horizontal_add(), 360);
    assert_eq!(U32x16::from_slice(&ramp(16)).horizontal_add(), 1360);
    assert_eq!(U32x4::new(u32::MAX, 0, 0, 0).horizontal_add(), u32::MAX);
    assert_eq!(U32x4::new(0, 0, 0, u32::MAX).horizontal_add(), u32::MAX);
}

#[test]
fn checked_horizontal_add_reports_overflow() {
    assert_eq!(U32x4::new(1, 2, 3, 4).checked_horizontal_add(), Some(10));
    assert_eq!(U32x4::new(u32::MAX - 3, 1, 1, 1).checked_horizontal_add(), Some(u32::MAX));
    assert_eq!(U32x4::new(u32::MAX - 3, 1, 1, 2).checked_horizontal_add(), None);
    assert_eq!(U32x8::splat(u32::MAX).checked_horizontal_add(), None);
    assert_eq!(U32x8::splat(536_870_911).checked_horizontal_add(), Some(4_294_967_288));
    assert_eq!(U32x16::splat(268_435_455).checked_horizontal_add(), Some(4_294_967_280));
    assert_eq!(U32x16::splat(268_435_456).checked_horizontal_add(), None);
}

#[test]
fn arithmetic_is_lane_wise_x4() {
    let a = U32x4::new(12, 20, 30, 40);
    let b = U32x4::new(3, 4, 5, 8);
    assert_eq!(a.add(b), U32x4::new(15, 24, 35, 48));
    assert_eq!(a.sub(b), U32x4::new(9, 16, 25, 32));
    assert_eq!(a.mul(b), U32x4::new(36, 80, 150, 320));
    assert_eq!(a.div(b), U32x4::new(4, 5, 6, 5));
}

#[test]
fn arithmetic_is_lane_wise_x8() {
    let a = U32x8::new(12, 20, 30, 40, 50, 60, 70, 80);
    let b = U32x8::new(3, 4, 5, 8, 7, 6, 5, 4);
    assert_eq!(a.add(b), U32x8::new(15, 24, 35, 48, 57, 66, 75, 84));
    assert_eq!(a.sub(b), U32x8::new(9, 16, 25, 32, 43, 54, 65, 76));
    assert_eq!(a.mul(b), U32x8::new(36, 80, 150, 320, 350, 360, 350, 320));
    assert_eq!(a.div(b), U32x8::new(4, 5, 6, 5, 7, 10, 14, 20));
}

#[test]
fn arithmetic_is_lane_wise_x16() {
    let a = U32x16::from_slice(&ramp(16));
    let b = U32x16::new(1, 2, 3, 4, 5, 6, 7, 8, 9, 10, 11, 12, 13, 14, 15, 16);
    assert_eq!(
        a.add(b),
        U32x16::new(11, 22, 33, 44, 55, 66, 77, 88, 99, 110, 121, 132, 143, 154, 165, 176)
    );
    assert_eq!(
        a.sub(b),
        U32x16::new(9, 18, 27, 36, 45, 54, 63, 72, 81, 90, 99, 108, 117, 126, 135, 144)
    );
    assert_eq!(
        a.mul(b),
        U32x16::new(
            10, 40, 90, 160, 250, 360, 490, 640, 810, 1000, 1210, 1440, 1690, 1960, 2250, 2560
        )
    );
    assert_eq!(a.div(b), U32x16::splat(10));
}

#[test]
fn a_lane_depends_on_its_own_operands_only() {
    let a = U32x4::new(1, 2, 3, 4);
    let b = U32x4::new(10, 20, 30, 40);
    let changed = U32x4::new(1, 2, 99, 4);
    let before = a.add(b);
    let after = changed.add(b);
    assert_eq!((before.0, before.1, before.3), (after.0, after.1, after.3));
    assert_eq!(after.2, 129);
}

#[test]
fn in_place_arithmetic_matches_the_operators() {
    let a = U32x4::new(12, 20, 30, 40);
    let b = U32x4::new(3, 4, 5, 8);
    let mut v = a;
    v.add_assign(b);
    assert_eq!(v, a.add(b));
    let mut v = a;
    v.sub_assign(b);
    assert_eq!(v, a.sub(b));
    let mut v = a;
    v.mul_assign(b);
    assert_eq!(v, a.mul(b));
    let mut v = a;
    v.div_assign(b);
    assert_eq!(v, a.div(b));

    let a = U32x8::splat(12);
    let b = U32x8::new(1, 2, 3, 4, 6, 12, 1, 2);
    let mut v = a;
    v.add_assign(b);
    assert_eq!(v, U32x8::new(13, 14, 15, 16, 18, 24, 13, 14));
    let mut v = a;
    v.sub_assign(b);
    assert_eq!(v, U32x8::new(11, 10, 9, 8, 6, 0, 11, 10));
    let mut v = a;
    v.mul_assign(b);
    assert_eq!(v, U32x8::new(12, 24, 36, 48, 72, 144, 12, 24));
    let mut v = a;
    v.div_assign(b);
    assert_eq!(v, U32x8::new(12, 6, 4, 3, 2, 1, 12, 6));

    let a = U32x16::splat(100);
    let b = U32x16::splat(5);
    let mut v = a;
    v.add_assign(b);
    assert_eq!(v, U32x16::splat(105));
    let mut v = a;
    v.sub_assign(b);
    assert_eq!(v, U32x16::splat(95));
    let mut v = a;
    v.mul_assign(b);
    assert_eq!(v, U32x16::splat(500));
    let mut v = a;
    v.div_assign(b);
    assert_eq!(v, U32x16::splat(20));
}

#[test]
fn abs_diff_is_lane_wise_and_never_underflows() {
    let a = U32x4::new(0, 5, u32::MAX, 7);
    let b = U32x4::new(u32::MAX, 3, 0, 7);
    assert_eq!(a.abs_diff(b), U32x4::new(u32::MAX, 2, u32::MAX, 0));
    assert_eq!(b.abs_diff(a), a.abs_diff(b));
    let c = U32x8::new(1, 2, 3, 4, 5, 6, 7, 8);
    let d = U32x8::splat(4);
    assert_eq!(c.abs_diff(d), U32x8::new(3, 2, 1, 0, 1, 2, 3, 4));
    let e = U32x16::from_slice(&ramp(16));
    assert_eq!(e.abs_diff(e), U32x16::splat(0));
    assert_eq!(U32x16::splat(0).abs_diff(e), e);
}

#[test]
fn checked_add_fails_if_any_lane_overflows() {
    let a = U32x4::new(1, 2, u32::MAX, 4);
    assert_eq!(a.checked_add(U32x4::new(1, 1, 0, 1)), Some(U32x4::new(2, 3, u32::MAX, 5)));
    assert_eq!(a.checked_add(U32x4::new(0, 0, 1, 0)), None);
    let b = U32x8::splat(u32::MAX - 1);
    assert_eq!(b.checked_add(U32x8::splat(1)), Some(U32x8::splat(u32::MAX)));
    assert_eq!(b.checked_add(U32x8::new(1, 1, 1, 1, 1, 1, 1, 2)), None);
    let c = U32x16::splat(u32::MAX - 1);
    assert_eq!(c.checked_add(U32x16::splat(1)), Some(U32x16::splat(u32::MAX)));
    assert_eq!(c.checked_add(U32x16::splat(2)), None);
}

#[test]
fn checked_mul_fails_if_any_lane_overflows() {
    let a = U32x4::new(65_535, 2, 3, 65_536);
    assert_eq!(
        a.checked_mul(U32x4::new(65_537, 2, 3, 65_535)),
        Some(U32x4::new(u32::MAX, 4, 9, 4_294_901_760))
    );
    assert_eq!(a.checked_mul(U32x4::new(1, 1, 1, 65_536)), None);
    let b = U32x8::splat(65_536);
    assert_eq!(b.checked_mul(U32x8::splat(65_535)), Some(U32x8::splat(4_294_901_760)));
    assert_eq!(b.checked_mul(U32x8::new(1, 1, 1, 1, 65_536, 1, 1, 1)), None);
    let c = U32x16::splat(3);
    assert_eq!(c.checked_mul(c), Some(U32x16::splat(9)));
    assert_eq!(U32x16::splat(65_536).checked_mul(U32x16::splat(65_536)), None);
}

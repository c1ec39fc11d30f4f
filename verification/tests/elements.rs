use matrix_graph::traits::{LatticeElement, Max, Numeric};

#[test]
fn the_largest_values() {
    assert_eq!(u8::maximum(), 255);
    assert_eq!(LatticeElement::<i32>::maximum(), LatticeElement(i32::MAX));
    assert_eq!(<u32 as Max>::maximum(), u32::MAX);
    assert_eq!(<i32 as Max>::maximum(), i32::MAX);
    assert_eq!(LatticeElement::<u32>::maximum(), LatticeElement(u32::MAX));
}

#[test]
fn unsigned_arithmetic_is_exact_within_the_range() {
    assert_eq!(200u8.plus(55), 255);
    assert_eq!(5u8.minus(3), 2);
    assert_eq!(5u8.minus(5), 0);
    assert_eq!(15u8.times(17), 255);
    assert_eq!(7u8.over(2), 3);
    assert_eq!(4_000_000_000u32.plus(294_967_295), u32::MAX);
    assert_eq!(1u32.plus(2), 3);
    assert_eq!(2u32.minus(1), 1);
    assert_eq!(65_535u32.times(65_537), 4_294_967_295);
    assert_eq!(9u32.over(4), 2);
}

#[test]
fn signed_arithmetic_is_exact_within_the_range() {
    assert_eq!((i32::MAX - 1).plus(1), i32::MAX);
    assert_eq!((i32::MIN + 1).plus(-1), i32::MIN);
    assert_eq!((i32::MIN + 1).minus(1), i32::MIN);
    assert_eq!(3i32.minus(5), -2);
    assert_eq!((-7i32).times(6), -42);
    assert_eq!((-i32::MAX).times(-1), i32::MAX);
    assert_eq!(i32::MIN.over(1), i32::MIN);
    assert_eq!(i32::MAX.over(-1), -i32::MAX);
    assert_eq!((-7i32).over(2), -3);
    assert_eq!(7i32.over(-2), -3);
    assert_eq!((-7i32).over(-2), 3);
}

#[test]
fn the_neutral_value_changes_nothing() {
    assert_eq!(u8::neutral(), 0);
    assert_eq!(u32::neutral().plus(17), 17);
    assert_eq!((-17i32).minus(i32::neutral()), -17);
    assert_eq!(LatticeElement::<u32>::neutral(), LatticeElement(0));
    assert_eq!(LatticeElement::<i32>::default(), LatticeElement(0));
}

#[test]
fn the_order_is_by_value() {
    assert!(5u8.at_least(5));
    assert!(!4u32.at_least(5));
    assert!((-1i32).at_least(i32::MIN));
    assert!(LatticeElement(3u32) < LatticeElement(4u32));
    assert!(LatticeElement(-3i32) >= LatticeElement(-3i32));
    assert!(LatticeElement(7u8) != LatticeElement(8u8));
}

#[test]
fn intensity_is_the_value_over_the_largest_times_255_truncated() {
    assert_eq!(0u32.intensity(), 0);
    assert_eq!(u32::MAX.intensity(), 255);
    assert_eq!((u32::MAX - 1).intensity(), 254);
    assert_eq!(0x8000_0000u32.intensity(), 127);
    assert_eq!(16_843_009u32.intensity(), 1);
    assert_eq!(16_843_008u32.intensity(), 0);
    assert_eq!(i32::MAX.intensity(), 255);
    assert_eq!((i32::MAX - 1).intensity(), 254);
    assert_eq!(0x4000_0000i32.intensity(), 127);
    assert_eq!((-5i32).intensity(), 0);
    assert_eq!(i32::MIN.intensity(), 0);
    assert_eq!(200u8.intensity(), 200);
    assert_eq!(LatticeElement(u32::MAX).intensity(), 255);
}

#[test]
fn an_intensity_scales_up_to_the_range() {
    assert_eq!(u32::from_intensity(0), 0);
    assert_eq!(u32::from_intensity(1), 16_843_009);
    assert_eq!(u32::from_intensity(128), 2_155_905_152);
    assert_eq!(u32::from_intensity(255), u32::MAX);
    assert_eq!(i32::from_intensity(0), 0);
    assert_eq!(i32::from_intensity(1), 8_421_504);
    assert_eq!(i32::from_intensity(255), i32::MAX);
    assert_eq!(u8::from_intensity(77), 77);
    for level in 0..=255u8 {
        assert_eq!(u32::from_intensity(level).intensity(), level);
    }
}

#[test]
fn the_operators_of_an_element_are_those_of_its_value() {
    let a = LatticeElement(4_000_000_000u32);
    let b = LatticeElement(200_000_000u32);
    assert_eq!(a + b, LatticeElement(4_200_000_000));
    assert_eq!(a - b, LatticeElement(3_800_000_000));
    assert_eq!(b * LatticeElement(21), LatticeElement(4_200_000_000));
    assert_eq!(a / b, LatticeElement(20));
    assert_eq!(LatticeElement(-3i32) * LatticeElement(5), LatticeElement(-15));
}

#[test]
fn the_conversions_of_an_element() {
    assert_eq!(LatticeElement::from(9u32), LatticeElement(9u32));
    assert_eq!(u32::from(LatticeElement(9u32)), 9);
    assert_eq!(u8::from(LatticeElement(u32::MAX)), 255);
    assert_eq!(u8::from(LatticeElement(0x8000_0000u32)), 127);
    assert_eq!(u8::from(LatticeElement(-1i32)), 0);
    assert_eq!(u8::from(LatticeElement(i32::MAX)), 255);
    assert_eq!(u8::from(LatticeElement(42u8)), 42);
    assert_eq!(LatticeElement::<u32>::from(255u8), LatticeElement(u32::MAX));
    assert_eq!(LatticeElement::<u32>::from(2u8), LatticeElement(33_686_018));
    assert_eq!(LatticeElement::<i32>::from(255u8), LatticeElement(i32::MAX));
}

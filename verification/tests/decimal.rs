use grasshopper::decimal::{
    ceil_to_decimals, decimal_from_string, floor_to_decimals, make_whole, place_unit, round_to_decimals,
    FfiDecimal, Rounding,
};
use rust_decimal::Decimal;

fn ffi(num: i64, scale: u32) -> FfiDecimal {
    FfiDecimal { raw: Decimal::new(num, scale).serialize() }
}

fn value(d: Option<FfiDecimal>) -> Decimal {
    Decimal::deserialize(d.expect("a number").raw)
}

#[test]
fn the_unit_of_a_place_is_one_at_that_scale() {
    assert_eq!(place_unit(0).unwrap().raw, [0, 0, 0, 0, 1, 0, 0, 0, 0, 0, 0, 0, 0, 0, 0, 0]);
    assert_eq!(place_unit(3).unwrap().raw, [0, 0, 3, 0, 1, 0, 0, 0, 0, 0, 0, 0, 0, 0, 0, 0]);
    assert_eq!(place_unit(28).unwrap().raw, [0, 0, 28, 0, 1, 0, 0, 0, 0, 0, 0, 0, 0, 0, 0, 0]);
    assert_eq!(Decimal::deserialize(place_unit(3).unwrap().raw), Decimal::new(1, 3));
    assert!(place_unit(29).is_none());
    assert!(place_unit(u32::MAX).is_none());
}

#[test]
fn floor_to_decimals_rounds_toward_zero() {
    assert_eq!(value(floor_to_decimals(ffi(10001, 4), 3)), Decimal::new(1000, 3));
    assert_eq!(value(floor_to_decimals(ffi(10011, 4), 3)), Decimal::new(1001, 3));
    assert_eq!(value(floor_to_decimals(ffi(-10011, 4), 3)), Decimal::new(-1001, 3));
    assert_eq!(value(floor_to_decimals(ffi(10001, 4), 0)), Decimal::new(1, 0));
    assert_eq!(value(floor_to_decimals(ffi(-10001, 4), 0)), Decimal::new(-1, 0));
    assert_eq!(value(floor_to_decimals(ffi(10010011, 4), -3)), Decimal::new(1000, 0));
    assert_eq!(value(floor_to_decimals(ffi(-10010011, 4), -3)), Decimal::new(-1000, 0));
}

#[test]
fn ceil_to_decimals_rounds_away_from_zero() {
    assert_eq!(value(ceil_to_decimals(ffi(10001, 4), 3)), Decimal::new(1001, 3));
    assert_eq!(value(ceil_to_decimals(ffi(10011, 4), 3)), Decimal::new(1002, 3));
    assert_eq!(value(ceil_to_decimals(ffi(-10011, 4), 3)), Decimal::new(-1002, 3));
    assert_eq!(value(ceil_to_decimals(ffi(10001, 4), 0)), Decimal::new(2, 0));
    assert_eq!(value(ceil_to_decimals(ffi(-10001, 4), 0)), Decimal::new(-2, 0));
    assert_eq!(value(ceil_to_decimals(ffi(10010011, 4), -3)), Decimal::new(2000, 0));
    assert_eq!(value(ceil_to_decimals(ffi(-10010011, 4), -3)), Decimal::new(-2000, 0));
}

#[test]
fn round_to_decimals_rounds_to_the_nearest() {
    assert_eq!(value(round_to_decimals(ffi(10001, 4), 3)), Decimal::new(1000, 3));
    assert_eq!(value(round_to_decimals(ffi(10015, 4), 3)), Decimal::new(1002, 3));
    assert_eq!(value(round_to_decimals(ffi(-10015, 4), 3)), Decimal::new(-1002, 3));
    assert_eq!(value(round_to_decimals(ffi(10001, 4), 0)), Decimal::new(1, 0));
    assert_eq!(value(round_to_decimals(ffi(-10001, 4), 0)), Decimal::new(-1, 0));
    assert_eq!(value(round_to_decimals(ffi(10050011, 4), -3)), Decimal::new(1000, 0));
    assert_eq!(value(round_to_decimals(ffi(-10050011, 4), -3)), Decimal::new(-1000, 0));
}

#[test]
fn ties_go_to_the_even_neighbour() {
    assert_eq!(value(round_to_decimals(ffi(25, 1), 0)), Decimal::new(2, 0));
    assert_eq!(value(round_to_decimals(ffi(35, 1), 0)), Decimal::new(4, 0));
    assert_eq!(value(round_to_decimals(ffi(-25, 1), 0)), Decimal::new(-2, 0));
}

#[test]
fn zero_and_whole_numbers_stay() {
    for decimals in [-3, 0, 3] {
        assert_eq!(value(floor_to_decimals(ffi(0, 0), decimals)), Decimal::ZERO);
        assert_eq!(value(ceil_to_decimals(ffi(0, 0), decimals)), Decimal::ZERO);
        assert_eq!(value(round_to_decimals(ffi(0, 0), decimals)), Decimal::ZERO);
    }
    assert_eq!(value(floor_to_decimals(ffi(5000, 0), -3)), Decimal::new(5000, 0));
    assert_eq!(value(ceil_to_decimals(ffi(5000, 0), -3)), Decimal::new(5000, 0));
    assert_eq!(value(ceil_to_decimals(ffi(12, 1), 1)), Decimal::new(12, 1));
}

#[test]
fn places_beyond_the_twenty_eighth_give_nothing() {
    assert!(floor_to_decimals(ffi(1, 0), 29).is_none());
    assert!(ceil_to_decimals(ffi(1, 0), -29).is_none());
    assert!(round_to_decimals(ffi(1, 0), i32::MAX).is_none());
    assert!(round_to_decimals(ffi(1, 0), i32::MIN).is_none());
    assert!(floor_to_decimals(ffi(1, 0), 28).is_some());
    assert!(floor_to_decimals(ffi(1, 0), -28).is_some());
}

#[test]
fn an_overflow_gives_nothing() {
    let max = FfiDecimal { raw: Decimal::MAX.serialize() };
    assert!(floor_to_decimals(max, 3).is_none());
    assert!(round_to_decimals(max, 28).is_none());
    assert!(ceil_to_decimals(max, 0).is_some());
}

#[test]
fn numbers_are_made_whole_in_three_ways() {
    let whole = |n: i64, s: u32, r: Rounding| Decimal::deserialize(make_whole(&ffi(n, s), r).raw);
    assert_eq!(whole(15, 1, Rounding::TowardZero), Decimal::new(1, 0));
    assert_eq!(whole(-15, 1, Rounding::TowardZero), Decimal::new(-1, 0));
    assert_eq!(whole(15, 1, Rounding::AwayFromZero), Decimal::new(2, 0));
    assert_eq!(whole(-15, 1, Rounding::AwayFromZero), Decimal::new(-2, 0));
    assert_eq!(whole(15, 1, Rounding::Nearest), Decimal::new(2, 0));
    assert_eq!(whole(14, 1, Rounding::Nearest), Decimal::new(1, 0));
    assert_eq!(whole(0, 0, Rounding::AwayFromZero), Decimal::ZERO);
}

#[test]
fn numbers_are_read_in_plain_notation() {
    assert_eq!(value(decimal_from_string("1.5")), Decimal::new(15, 1));
    assert_eq!(value(decimal_from_string("-0.001")), Decimal::new(-1, 3));
    assert_eq!(value(decimal_from_string("42")), Decimal::new(42, 0));
}

#[test]
fn grouping_commas_are_ignored() {
    assert_eq!(value(decimal_from_string("1,234,567.89")), Decimal::new(123456789, 2));
    assert_eq!(value(decimal_from_string(",1,")), Decimal::new(1, 0));
}

#[test]
fn numbers_are_read_in_scientific_notation() {
    assert_eq!(value(decimal_from_string("9.7e-7")), Decimal::new(97, 8));
    assert_eq!(value(decimal_from_string("1.2E3")), Decimal::new(1200, 0));
    assert_eq!(value(decimal_from_string("1,000e2")), Decimal::new(100000, 0));
}

#[test]
fn what_is_no_number_gives_nothing() {
    assert!(decimal_from_string("").is_none());
    assert!(decimal_from_string("abc").is_none());
    assert!(decimal_from_string("1e").is_none());
    assert!(decimal_from_string(",").is_none());
    assert!(decimal_from_string("1e99").is_none());
}

use visualcoder::fixed::{clamp, floor_div, lerp};
use visualcoder::text::{
    magnitude, push_decimal, push_difference, push_int, push_magnitude, push_padded, push_places,
    push_plain, str_eq,
};

fn places(v: i64, n: u8) -> String {
    let mut s = String::new();
    push_places(&mut s, v, n);
    s
}

fn plain(v: i64) -> String {
    let mut s = String::new();
    push_plain(&mut s, v);
    s
}

#[test]
fn values_have_two_fractional_digits_and_times_four() {
    assert_eq!(places(2_000_000, 2), "2.00");
    assert_eq!(places(944_000_000, 2), "944.00");
    assert_eq!(places(536_000, 2), "0.54");
    assert_eq!(places(-1_500_000, 2), "-1.50");
    assert_eq!(places(0, 2), "0.00");
    assert_eq!(places(1_000_000, 4), "1.0000");
    assert_eq!(places(16_666, 4), "0.0167");
    assert_eq!(places(-30_240, 4), "-0.0302");
    assert_eq!(places(1_500_000, 3), "1.500");
    assert_eq!(places(123_456_789, 1), "123.5");
    assert_eq!(places(123_456_789, 6), "123.456789");
    assert_eq!(places(i64::MAX, 6), "9223372036854.775807");
    assert_eq!(places(i64::MIN, 4), "-9223372036854.7758");
}

#[test]
fn fractions_are_rounded_to_the_nearest_and_halves_to_the_even() {
    assert_eq!(places(4_999, 2), "0.00");
    assert_eq!(places(5_000, 2), "0.00");
    assert_eq!(places(5_001, 2), "0.01");
    assert_eq!(places(15_000, 2), "0.02");
    assert_eq!(places(25_000, 2), "0.02");
    assert_eq!(places(125_000, 2), "0.12");
    assert_eq!(places(375_000, 2), "0.38");
    assert_eq!(places(995_000, 2), "1.00");
    assert_eq!(places(999_999, 2), "1.00");
    assert_eq!(places(-5_001, 2), "-0.01");
    // a negative number keeps its sign where it rounds to zero
    assert_eq!(places(-1, 2), "-0.00");
    assert_eq!(places(50, 4), "0.0000");
    assert_eq!(places(150, 4), "0.0002");
    assert_eq!(places(999_950, 4), "1.0000");
}

#[test]
fn shortest_text_drops_the_zeros_at_the_end() {
    assert_eq!(plain(0), "0");
    assert_eq!(plain(1_000_000), "1");
    assert_eq!(plain(5_000_000), "5");
    assert_eq!(plain(1_800_000), "1.8");
    assert_eq!(plain(200_000), "0.2");
    assert_eq!(plain(900_000), "0.9");
    assert_eq!(plain(350_000), "0.35");
    assert_eq!(plain(-100_000), "-0.1");
    assert_eq!(plain(1), "0.000001");
    assert_eq!(plain(-1_000_010), "-1.00001");
    assert_eq!(plain(123_456_789), "123.456789");
    assert_eq!(plain(10_000_000_000), "10000");
    assert_eq!(plain(i64::MIN), "-9223372036854.775808");
}

#[test]
fn text_is_appended_to_what_is_there() {
    let mut s = String::from("x=");
    push_int(&mut s, -42);
    s.push(',');
    push_decimal(&mut s, 0);
    s.push(',');
    push_decimal(&mut s, u64::MAX);
    s.push(',');
    push_padded(&mut s, 7, 3);
    s.push(',');
    push_padded(&mut s, 12_345, 3);
    s.push(',');
    push_padded(&mut s, 12_345, 0);
    s.push(',');
    push_int(&mut s, i64::MIN);
    assert_eq!(s, "x=-42,0,18446744073709551615,007,345,,-9223372036854775808");
}

#[test]
fn differences_beyond_the_integer_range_are_written_in_full() {
    let mut s = String::new();
    push_difference(&mut s, i64::MAX, i64::MIN, 6);
    s.push(' ');
    push_difference(&mut s, i64::MIN, i64::MAX, 4);
    s.push(' ');
    push_difference(&mut s, 5, 7_000_005, 4);
    s.push(' ');
    push_magnitude(&mut s, true, 1 << 64, 2);
    assert_eq!(s, "18446744073709.551615 -18446744073709.5516 -7.0000 -18446744073709.55");
}

#[test]
fn magnitude_of_the_least_integer() {
    assert_eq!(magnitude(i64::MIN), 9_223_372_036_854_775_808);
    assert_eq!(magnitude(-5), 5);
    assert_eq!(magnitude(5), 5);
    assert_eq!(magnitude(0), 0);
}

#[test]
fn string_equality_is_by_text() {
    assert!(str_eq("", ""));
    assert!(str_eq("high", "high"));
    assert!(!str_eq("high", "High"));
    assert!(!str_eq("high", "hig"));
}

#[test]
fn clamp_lets_the_upper_bound_win() {
    assert_eq!(clamp(5, 0, 10), 5);
    assert_eq!(clamp(-5, 0, 10), 0);
    assert_eq!(clamp(15, 0, 10), 10);
    assert_eq!(clamp(5, 10, 0), 0);
    assert_eq!(clamp(-5, 10, 0), 0);
    assert_eq!(clamp(15, 10, 0), 0);
}

#[test]
fn division_rounds_towards_minus_infinity() {
    assert_eq!(floor_div(7, 2), 3);
    assert_eq!(floor_div(-7, 2), -4);
    assert_eq!(floor_div(-8, 2), -4);
    assert_eq!(floor_div(0, 5), 0);
    assert_eq!(floor_div(-1, 1_000_000), -1);
    assert_eq!(floor_div(i128::MAX, 1), i128::MAX);
}

#[test]
fn interpolation_rounds_down_and_stays_between_its_ends() {
    assert_eq!(lerp(0, 10, 1, 3), 3);
    assert_eq!(lerp(10, 0, 1, 3), 6);
    assert_eq!(lerp(0, 10, 0, 3), 0);
    assert_eq!(lerp(0, 10, 3, 3), 10);
    assert_eq!(lerp(-10, -20, 1, 4), -13);
    assert_eq!(lerp(i64::MIN, i64::MAX, 1, 2), -1);
    assert_eq!(lerp(i64::MAX, i64::MIN, 1, 2), -1);
    assert_eq!(lerp(i64::MAX, i64::MIN, u64::MAX, u64::MAX), i64::MIN);
    assert_eq!(lerp(i64::MIN, i64::MAX, u64::MAX - 1, u64::MAX), i64::MAX - 1);
}

use visualcoder::cursor_style::{cursor_image_name, parse_hex_color, CursorShape};
use visualcoder::probe::{parse_dimensions, ProbeError};

#[test]
fn report_of_width_and_height_is_parsed() {
    assert_eq!(parse_dimensions("1920,1080\n"), Ok((1920, 1080)));
    assert_eq!(parse_dimensions("  \t1280,720\r\n"), Ok((1280, 720)));
    assert_eq!(parse_dimensions("1,2"), Ok((1, 2)));
    assert_eq!(parse_dimensions("+7,-3"), Ok((7, -3)));
    assert_eq!(parse_dimensions("007,0"), Ok((7, 0)));
    assert_eq!(parse_dimensions("-0,+0"), Ok((0, 0)));
    assert_eq!(parse_dimensions("2147483647,-2147483648"), Ok((i32::MAX, i32::MIN)));
}

#[test]
fn fields_after_the_second_are_ignored() {
    assert_eq!(parse_dimensions("1920,1080,extra, more"), Ok((1920, 1080)));
    assert_eq!(parse_dimensions("1920,1080,"), Ok((1920, 1080)));
}

#[test]
fn report_without_two_fields_is_unparseable() {
    assert_eq!(parse_dimensions(""), Err(ProbeError::Unparseable));
    assert_eq!(parse_dimensions("   \n"), Err(ProbeError::Unparseable));
    assert_eq!(parse_dimensions("1920"), Err(ProbeError::Unparseable));
    assert_eq!(parse_dimensions("1920x1080"), Err(ProbeError::Unparseable));
    assert_eq!(parse_dimensions("N/A"), Err(ProbeError::Unparseable));
}

#[test]
fn width_is_looked_at_before_height() {
    assert_eq!(parse_dimensions(","), Err(ProbeError::InvalidWidth));
    assert_eq!(parse_dimensions("a,b"), Err(ProbeError::InvalidWidth));
    assert_eq!(parse_dimensions(",1080"), Err(ProbeError::InvalidWidth));
    assert_eq!(parse_dimensions("19 20,1080"), Err(ProbeError::InvalidWidth));
    assert_eq!(parse_dimensions("1920 ,1080"), Err(ProbeError::InvalidWidth));
    assert_eq!(parse_dimensions("+,1080"), Err(ProbeError::InvalidWidth));
    assert_eq!(parse_dimensions("--1,1080"), Err(ProbeError::InvalidWidth));
    assert_eq!(parse_dimensions("2147483648,1"), Err(ProbeError::InvalidWidth));
    assert_eq!(parse_dimensions("99999999999999999999999999,1"), Err(ProbeError::InvalidWidth));
    assert_eq!(parse_dimensions("1e3,1"), Err(ProbeError::InvalidWidth));
}

#[test]
fn height_that_is_no_number_is_refused() {
    assert_eq!(parse_dimensions("1920,"), Err(ProbeError::InvalidHeight));
    assert_eq!(parse_dimensions("1920, 1080"), Err(ProbeError::InvalidHeight));
    assert_eq!(parse_dimensions("1920,1080p"), Err(ProbeError::InvalidHeight));
    assert_eq!(parse_dimensions("1920,-2147483649"), Err(ProbeError::InvalidHeight));
    assert_eq!(parse_dimensions("1920,10\u{a0}80"), Err(ProbeError::InvalidHeight));
}

#[test]
fn probe_errors_have_their_messages() {
    assert_eq!(ProbeError::Unparseable.message(), "Could not parse video dimensions");
    assert_eq!(ProbeError::InvalidWidth.message(), "Invalid width");
    assert_eq!(ProbeError::InvalidHeight.message(), "Invalid height");
}

#[test]
fn colour_is_three_pairs_of_hexadecimal_digits() {
    assert_eq!(parse_hex_color("1a1a2e"), (0x1a, 0x1a, 0x2e));
    assert_eq!(parse_hex_color("FFFFFF"), (255, 255, 255));
    assert_eq!(parse_hex_color("000000"), (0, 0, 0));
    assert_eq!(parse_hex_color("aBcDeF99"), (0xab, 0xcd, 0xef));
    assert_eq!(parse_hex_color("0910ff"), (9, 16, 255));
}

#[test]
fn colour_components_that_are_no_number_are_full() {
    assert_eq!(parse_hex_color(""), (255, 255, 255));
    assert_eq!(parse_hex_color("12"), (0x12, 255, 255));
    assert_eq!(parse_hex_color("123"), (0x12, 255, 255));
    assert_eq!(parse_hex_color("12345"), (0x12, 0x34, 255));
    assert_eq!(parse_hex_color("zz0000"), (255, 0, 0));
    assert_eq!(parse_hex_color("#1a1a2"), (255, 0xa1, 0xa2));
    assert_eq!(parse_hex_color("1g-100"), (255, 255, 0));
    assert_eq!(parse_hex_color("+f+0++"), (15, 0, 255));
    assert_eq!(parse_hex_color("é0aa"), (255, 0x0a, 255));
}

#[test]
fn cursor_shapes_and_file_names() {
    assert_eq!(CursorShape::from_name("circle"), CursorShape::Circle);
    assert_eq!(CursorShape::from_name("crosshair"), CursorShape::Crosshair);
    assert_eq!(CursorShape::from_name("pointer"), CursorShape::Pointer);
    assert_eq!(CursorShape::from_name(""), CursorShape::Pointer);
    assert_eq!(CursorShape::from_name("Circle"), CursorShape::Pointer);
    assert_eq!(cursor_image_name("circle", 32), "visualcoder_cursor_circle_32.png");
    assert_eq!(cursor_image_name("", -1), "visualcoder_cursor__-1.png");
}

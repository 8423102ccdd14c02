use lumd::device::{
    lerp, lux_to_brightness, parse_i32, read_brightness, read_i32, read_max_brightness,
    set_brightness,
};
use lumd::error::{LumdError, ParseFailure};

#[test]
fn lux_scales_to_brightness() {
    assert_eq!(lux_to_brightness(500_000, 100), 50);
    assert_eq!(lux_to_brightness(300_000, 255), 76);
    assert_eq!(lux_to_brightness(1_000_000, 100), 100);
    assert_eq!(lux_to_brightness(999_999, 96_000), 95_999);
}

#[test]
fn lux_brightness_is_at_least_one_and_at_most_max() {
    assert_eq!(lux_to_brightness(0, 100), 1);
    assert_eq!(lux_to_brightness(9_999, 100), 1);
    assert_eq!(lux_to_brightness(-5_000, 100), 1);
    assert_eq!(lux_to_brightness(i64::MIN, 100), 1);
    assert_eq!(lux_to_brightness(2_000_000, 100), 100);
    assert_eq!(lux_to_brightness(i64::MAX, i32::MAX), i32::MAX);
    assert_eq!(lux_to_brightness(123_456, 1), 1);
    for lux in [0i64, 1, 500, 10_000, 123_456, 999_999, 1_000_000, 7_000_000] {
        for max in [1, 2, 100, 255, 96_000] {
            let b = lux_to_brightness(lux, max);
            assert!(1 <= b && b <= max);
        }
    }
}

#[test]
fn lerp_starts_at_a_and_ends_at_b() {
    assert_eq!(lerp(50, 70, 0, 10), 50);
    assert_eq!(lerp(50, 70, 10, 10), 70);
    assert_eq!(lerp(-3, 9, 0, 7), -3);
    assert_eq!(lerp(-3, 9, 7, 7), 9);
    assert_eq!(lerp(i32::MIN, i32::MAX, 0, u32::MAX), i32::MIN);
    assert_eq!(lerp(i32::MIN, i32::MAX, u32::MAX, u32::MAX), i32::MAX);
    assert_eq!(lerp(i32::MAX, i32::MIN, u32::MAX, u32::MAX), i32::MIN);
}

#[test]
fn lerp_is_monotonic_in_the_step() {
    let mut last = lerp(3, 200, 0, 37);
    for step in 1..=37 {
        let next = lerp(3, 200, step, 37);
        assert!(last <= next);
        last = next;
    }
    let mut last = lerp(200, 3, 0, 37);
    for step in 1..=37 {
        let next = lerp(200, 3, step, 37);
        assert!(last >= next);
        last = next;
    }
}

#[test]
fn lerp_rounds_to_nearest_with_ties_away_from_zero() {
    assert_eq!(lerp(0, 5, 1, 10), 1);
    assert_eq!(lerp(0, -5, 1, 10), -1);
    assert_eq!(lerp(0, 4, 1, 10), 0);
    assert_eq!(lerp(0, 6, 1, 10), 1);
    assert_eq!(lerp(0, 10, 1, 3), 3);
    assert_eq!(lerp(0, 10, 2, 3), 7);
    assert_eq!(lerp(-10, 0, 1, 4), -8);
    assert_eq!(lerp(50, 70, 3, 10), 56);
}

#[test]
fn lerp_clamps_the_step() {
    assert_eq!(lerp(50, 70, 11, 10), 70);
    assert_eq!(lerp(50, 70, u32::MAX, 10), 70);
}

#[test]
fn node_content_is_trimmed_and_parsed() {
    assert_eq!(read_i32(b"42\n"), Ok(42));
    assert_eq!(read_i32(b"  -17\t\r\n"), Ok(-17));
    assert_eq!(read_i32(b"+8"), Ok(8));
    assert_eq!(read_i32(b"0007"), Ok(7));
    assert_eq!(read_i32("\u{a0}96000\u{2003}".as_bytes()), Ok(96000));
    assert_eq!(read_brightness(b"120\n"), Ok(120));
    assert_eq!(read_max_brightness(b"255\n"), Ok(255));
    assert_eq!(read_i32(b"2147483647"), Ok(i32::MAX));
    assert_eq!(read_i32(b"-2147483648"), Ok(i32::MIN));
}

#[test]
fn node_content_that_is_no_integer_is_a_parse_error() {
    assert_eq!(read_i32(b""), Err(LumdError::Parse(ParseFailure::Empty)));
    assert_eq!(read_i32(b" \n"), Err(LumdError::Parse(ParseFailure::Empty)));
    assert_eq!(read_i32(b"abc"), Err(LumdError::Parse(ParseFailure::InvalidDigit)));
    assert_eq!(read_i32(b"12 3"), Err(LumdError::Parse(ParseFailure::InvalidDigit)));
    assert_eq!(read_i32(b"1.5"), Err(LumdError::Parse(ParseFailure::InvalidDigit)));
    assert_eq!(read_i32(b"-"), Err(LumdError::Parse(ParseFailure::InvalidDigit)));
    assert_eq!(read_i32(b"+"), Err(LumdError::Parse(ParseFailure::InvalidDigit)));
    assert_eq!(read_i32(b"--1"), Err(LumdError::Parse(ParseFailure::InvalidDigit)));
    assert_eq!(read_i32(b"2147483648"), Err(LumdError::Parse(ParseFailure::PosOverflow)));
    assert_eq!(read_i32(b"-2147483649"), Err(LumdError::Parse(ParseFailure::NegOverflow)));
    assert_eq!(
        read_i32(b"99999999999999999999999999"),
        Err(LumdError::Parse(ParseFailure::PosOverflow))
    );
    assert_eq!(read_brightness(b"bright"), Err(LumdError::Parse(ParseFailure::InvalidDigit)));
    assert_eq!(read_max_brightness(b""), Err(LumdError::Parse(ParseFailure::Empty)));
}

#[test]
fn parse_does_not_trim() {
    assert_eq!(parse_i32(b"42"), Ok(42));
    assert_eq!(parse_i32(b"42\n"), Err(ParseFailure::InvalidDigit));
    assert_eq!(parse_i32(b" 42"), Err(ParseFailure::InvalidDigit));
}

#[test]
fn brightness_is_written_in_decimal() {
    assert_eq!(set_brightness(0), b"0".to_vec());
    assert_eq!(set_brightness(7), b"7".to_vec());
    assert_eq!(set_brightness(70), b"70".to_vec());
    assert_eq!(set_brightness(96000), b"96000".to_vec());
    assert_eq!(set_brightness(-12), b"-12".to_vec());
    assert_eq!(set_brightness(i32::MAX), b"2147483647".to_vec());
    assert_eq!(set_brightness(i32::MIN), b"-2147483648".to_vec());
}

#[test]
fn written_brightness_reads_back() {
    for value in [0, 1, 9, 10, 11, 99, 100, 101, 4095, -1, -10, i32::MAX, i32::MIN] {
        assert_eq!(read_brightness(&set_brightness(value)), Ok(value));
        assert_eq!(set_brightness(value), value.to_string().into_bytes());
    }
}

#[test]
fn parsing_agrees_with_the_standard_library() {
    let samples = [
        "", "0", "-0", "+0", "7", "-7", "+7", "0042", "2147483647", "2147483648", "-2147483648",
        "-2147483649", "99999999999", "-99999999999", "99999999999x", "-99999999999x",
        "999999999x", "9999999999x", "x99999999999", "12x99999999999", "+", "-", "+-1", "-+1",
        "++1", "1-", "1+", " 1", "1 ", "1_000", "0x10", "1e3", "1.0", "\u{663}", "12\u{a0}",
        "21474836470", "00000000000000000000000001", "-00000000002147483648",
    ];
    for text in samples {
        let expected = text.parse::<i32>().map_err(|e| e.to_string());
        let found = parse_i32(text.as_bytes()).map_err(|e| e.description().to_string());
        assert_eq!(found, expected, "parsing {:?}", text);
    }
}

#[test]
fn overflow_before_a_stray_character_is_an_overflow() {
    assert_eq!(parse_i32(b"99999999999x"), Err(ParseFailure::PosOverflow));
    assert_eq!(parse_i32(b"-99999999999x"), Err(ParseFailure::NegOverflow));
    assert_eq!(parse_i32(b"999999999x"), Err(ParseFailure::InvalidDigit));
    assert_eq!(parse_i32(b"x99999999999"), Err(ParseFailure::InvalidDigit));
}

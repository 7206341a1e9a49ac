use adeck_parser::coordinate::{parse_coordinate, read_coordinate, COORDINATE_LIMIT};
use adeck_parser::number::{char_is_digit, read_digits, read_signed, read_unsigned};
use adeck_parser::text::{chars_of, Span};

fn whole(text: &str) -> (Vec<char>, Span) {
    let chars = chars_of(text);
    let span = Span { start: 0, end: chars.len() };
    (chars, span)
}

fn unsigned(text: &str, max: u32) -> Option<u32> {
    let (chars, span) = whole(text);
    read_unsigned(&chars, span, max)
}

fn signed(text: &str, min_magnitude: u32, max: u32) -> Option<i64> {
    let (chars, span) = whole(text);
    read_signed(&chars, span, min_magnitude, max)
}

#[test]
fn digits_are_the_ten_ascii_digits() {
    for c in '0'..='9' {
        assert!(char_is_digit(c));
    }
    assert!(!char_is_digit('/'));
    assert!(!char_is_digit(':'));
    assert!(!char_is_digit('a'));
    assert!(!char_is_digit('٣'));
}

#[test]
fn runs_of_digits() {
    let (chars, span) = whole("0042");
    assert_eq!(read_digits(&chars, span, 255), Some(42));
    let (chars, span) = whole("");
    assert_eq!(read_digits(&chars, span, 255), None);
    let (chars, span) = whole("+1");
    assert_eq!(read_digits(&chars, span, 255), None);
    let (chars, _) = whole("ab123cd");
    assert_eq!(read_digits(&chars, Span { start: 2, end: 5 }, 255), Some(123));
    assert_eq!(read_digits(&chars, Span { start: 1, end: 5 }, 255), None);
    assert_eq!(read_digits(&chars, Span { start: 3, end: 3 }, 255), None);
}

#[test]
fn unsigned_numbers_as_std_reads_them() {
    for text in ["0", "7", "+7", "255", "256", "0255", "+0", "", "+", "-", "-0", "-1", "++1", "1 ", " 1", "1_0", "1.0", "1e2", "0x10", "٣", "99999999999999999999999"] {
        assert_eq!(unsigned(text, 255), text.parse::<u8>().ok().map(u32::from), "{:?}", text);
    }
    for text in ["65535", "65536", "+65535", "000065535", "4294967295", "4294967296"] {
        assert_eq!(unsigned(text, 65535), text.parse::<u16>().ok().map(u32::from), "{:?}", text);
        assert_eq!(unsigned(text, u32::MAX), text.parse::<u32>().ok(), "{:?}", text);
    }
}

#[test]
fn signed_numbers_as_std_reads_them() {
    for text in ["0", "-0", "+0", "12", "-12", "+12", "32767", "32768", "-32768", "-32769", "", "-", "+", "--1", "-+1", "+-1", "1-", "- 1", "-1.5", "99999999999", "-99999999999"] {
        assert_eq!(signed(text, 32768, 32767), text.parse::<i16>().ok().map(i64::from), "{:?}", text);
    }
    assert_eq!(signed("-2147483648", 0x8000_0000, 0x7fff_ffff), Some(-2147483648));
    assert_eq!(signed("2147483648", 0x8000_0000, 0x7fff_ffff), None);
}

#[test]
fn coordinates_by_the_rule() {
    assert_eq!(parse_coordinate("100N", 'N', 'S'), Some(100));
    assert_eq!(parse_coordinate("100S", 'N', 'S'), Some(-100));
    assert_eq!(parse_coordinate("800W", 'E', 'W'), Some(-800));
    assert_eq!(parse_coordinate("800E", 'E', 'W'), Some(800));
    assert_eq!(parse_coordinate("0456W", 'E', 'W'), Some(-456));
    assert_eq!(parse_coordinate("0N", 'N', 'S'), Some(0));
    assert_eq!(parse_coordinate("0S", 'N', 'S'), Some(0));
    assert_eq!(parse_coordinate("+15N", 'N', 'S'), Some(15));
    assert_eq!(parse_coordinate("-15N", 'N', 'S'), Some(-15));
    assert_eq!(parse_coordinate("-15S", 'N', 'S'), Some(15));
}

#[test]
fn coordinates_in_degrees() {
    assert_eq!(parse_coordinate("100N", 'N', 'S').unwrap() as f64 / 10.0, 10.0);
    assert_eq!(parse_coordinate("100S", 'N', 'S').unwrap() as f64 / 10.0, -10.0);
    assert_eq!(parse_coordinate("800W", 'E', 'W').unwrap() as f64 / 10.0, -80.0);
}

#[test]
fn no_coordinate() {
    assert_eq!(parse_coordinate("", 'N', 'S'), None);
    assert_eq!(parse_coordinate("N", 'N', 'S'), None);
    assert_eq!(parse_coordinate("100", 'N', 'S'), None);
    assert_eq!(parse_coordinate("100E", 'N', 'S'), None);
    assert_eq!(parse_coordinate("100W", 'N', 'S'), None);
    assert_eq!(parse_coordinate("100N", 'E', 'W'), None);
    assert_eq!(parse_coordinate("100n", 'N', 'S'), None);
    assert_eq!(parse_coordinate("10.5N", 'N', 'S'), None);
    assert_eq!(parse_coordinate("1e2N", 'N', 'S'), None);
    assert_eq!(parse_coordinate("NaNN", 'N', 'S'), None);
    assert_eq!(parse_coordinate("infN", 'N', 'S'), None);
    assert_eq!(parse_coordinate("100 N", 'N', 'S'), None);
    assert_eq!(parse_coordinate("100NN", 'N', 'S'), None);
    assert_eq!(parse_coordinate("100É", 'N', 'S'), None);
}

#[test]
fn coordinates_at_the_limit() {
    assert_eq!(COORDINATE_LIMIT, 2147483647);
    assert_eq!(parse_coordinate("2147483647N", 'N', 'S'), Some(2147483647));
    assert_eq!(parse_coordinate("2147483647S", 'N', 'S'), Some(-2147483647));
    assert_eq!(parse_coordinate("-2147483647N", 'N', 'S'), Some(-2147483647));
    assert_eq!(parse_coordinate("2147483648N", 'N', 'S'), None);
    assert_eq!(parse_coordinate("-2147483648N", 'N', 'S'), None);
}

#[test]
fn the_first_letter_wins_where_both_are_the_same() {
    assert_eq!(parse_coordinate("5X", 'X', 'X'), Some(5));
}

#[test]
fn coordinates_inside_a_line() {
    let chars = chars_of("AL,123N,0456W");
    assert_eq!(read_coordinate(&chars, Span { start: 3, end: 7 }, 'N', 'S'), Some(123));
    assert_eq!(read_coordinate(&chars, Span { start: 8, end: 13 }, 'E', 'W'), Some(-456));
    assert_eq!(read_coordinate(&chars, Span { start: 3, end: 6 }, 'N', 'S'), None);
    assert_eq!(read_coordinate(&chars, Span { start: 5, end: 5 }, 'N', 'S'), None);
}

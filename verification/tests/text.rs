use basic_layout::text::{parse_millionths, parse_u32, read_digits, same_text, split_at_first};

#[test]
fn same_text_compares_characters() {
    assert!(same_text("gap", "gap"));
    assert!(same_text("", ""));
    assert!(!same_text("gap", "gab"));
    assert!(!same_text("gap", "gaps"));
    assert!(!same_text("gaps", "gap"));
    assert!(same_text("grüße", "grüße"));
    assert!(!same_text("grüße", "grusse"));
}

#[test]
fn split_at_first_space() {
    assert_eq!(split_at_first("layout column", ' '), ("layout", "column"));
    assert_eq!(split_at_first("main-ratio +0.2", ' '), ("main-ratio", "+0.2"));
    assert_eq!(split_at_first("a b c", ' '), ("a", "b c"));
    assert_eq!(split_at_first("gap", ' '), ("gap", ""));
    assert_eq!(split_at_first("", ' '), ("", ""));
    assert_eq!(split_at_first(" x", ' '), ("", "x"));
    assert_eq!(split_at_first("x ", ' '), ("x", ""));
    assert_eq!(split_at_first("gap  8", ' '), ("gap", " 8"));
}

#[test]
fn split_at_first_counts_characters_not_bytes() {
    assert_eq!(split_at_first("größe 10", ' '), ("größe", "10"));
    assert_eq!(split_at_first("1.5", '.'), ("1", "5"));
}

#[test]
fn read_digits_caps_the_number() {
    assert_eq!(read_digits("123", 1000), Some(123));
    assert_eq!(read_digits("1234", 1000), Some(1000));
    assert_eq!(read_digits("", 1000), Some(0));
    assert_eq!(read_digits("12a", 1000), None);
    assert_eq!(read_digits("99999999999999999999999999a", 5), None);
    assert_eq!(read_digits("99999999999999999999999999", 5), Some(5));
    assert_eq!(read_digits("007", 5), Some(5));
    assert_eq!(read_digits("005", 5), Some(5));
    assert_eq!(read_digits("18446744073709551615", u64::MAX), Some(u64::MAX));
    assert_eq!(read_digits("18446744073709551616", u64::MAX), Some(u64::MAX));
    assert_eq!(read_digits("18446744073709551614", u64::MAX), Some(u64::MAX - 1));
    assert_eq!(read_digits("1", 0), Some(0));
}

#[test]
fn parse_u32_reads_decimal_numbers() {
    assert_eq!(parse_u32("0"), Some(0));
    assert_eq!(parse_u32("8"), Some(8));
    assert_eq!(parse_u32("0012"), Some(12));
    assert_eq!(parse_u32("+12"), Some(12));
    assert_eq!(parse_u32("4294967295"), Some(u32::MAX));
}

#[test]
fn parse_u32_refuses_what_is_no_number() {
    assert_eq!(parse_u32(""), None);
    assert_eq!(parse_u32("+"), None);
    assert_eq!(parse_u32("-1"), None);
    assert_eq!(parse_u32("++1"), None);
    assert_eq!(parse_u32("1 "), None);
    assert_eq!(parse_u32(" 1"), None);
    assert_eq!(parse_u32("1_000"), None);
    assert_eq!(parse_u32("12px"), None);
    assert_eq!(parse_u32("1.5"), None);
    assert_eq!(parse_u32("4294967296"), None);
    assert_eq!(parse_u32("99999999999999999999999"), None);
    assert_eq!(parse_u32("٣"), None);
}

#[test]
fn parse_u32_agrees_with_std() {
    for text in ["0", "7", "+7", "-7", "", "+", "007", "4294967295", "4294967296", "1e3", " 1", "a"] {
        assert_eq!(parse_u32(text), text.parse::<u32>().ok(), "{:?}", text);
    }
}

#[test]
fn parse_millionths_reads_decimal_numerals() {
    assert_eq!(parse_millionths("0.5"), Some(500_000));
    assert_eq!(parse_millionths("0.2"), Some(200_000));
    assert_eq!(parse_millionths(".5"), Some(500_000));
    assert_eq!(parse_millionths("5."), Some(5_000_000));
    assert_eq!(parse_millionths("1"), Some(1_000_000));
    assert_eq!(parse_millionths("10"), Some(10_000_000));
    assert_eq!(parse_millionths("0"), Some(0));
    assert_eq!(parse_millionths("0.000001"), Some(1));
    assert_eq!(parse_millionths("0.123456"), Some(123_456));
    assert_eq!(parse_millionths("00.70"), Some(700_000));
}

#[test]
fn parse_millionths_drops_places_after_the_sixth() {
    assert_eq!(parse_millionths("0.1234569"), Some(123_456));
    assert_eq!(parse_millionths("0.0000009"), Some(0));
    assert_eq!(parse_millionths("0.99999999999999999999999999"), Some(999_999));
}

#[test]
fn parse_millionths_stops_at_the_largest_number() {
    assert_eq!(parse_millionths("4294.967295"), Some(u32::MAX));
    assert_eq!(parse_millionths("4294.967294"), Some(4_294_967_294));
    assert_eq!(parse_millionths("4294.967296"), Some(u32::MAX));
    assert_eq!(parse_millionths("4295"), Some(u32::MAX));
    assert_eq!(parse_millionths("99999999999999999999999999.5"), Some(u32::MAX));
}

#[test]
fn parse_millionths_refuses_what_is_no_numeral() {
    assert_eq!(parse_millionths(""), None);
    assert_eq!(parse_millionths("."), None);
    assert_eq!(parse_millionths("+0.5"), None);
    assert_eq!(parse_millionths("-0.5"), None);
    assert_eq!(parse_millionths("0.5.1"), None);
    assert_eq!(parse_millionths("1e-1"), None);
    assert_eq!(parse_millionths("0,5"), None);
    assert_eq!(parse_millionths("half"), None);
    assert_eq!(parse_millionths("0.5 "), None);
    assert_eq!(parse_millionths("99999999999999999999999999.x"), None);
    assert_eq!(parse_millionths("0.1234567x"), None);
}

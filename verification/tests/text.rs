use wait_for_them::text::{
    append_decimal, append_seconds, parse_decimal, same_text, starts_with, NumberError,
};

#[test]
fn reads_numbers() {
    assert_eq!(parse_decimal("0", 10), Ok(0));
    assert_eq!(parse_decimal("10", 10), Ok(10));
    assert_eq!(parse_decimal("+10", 10), Ok(10));
    assert_eq!(parse_decimal("007", 10), Ok(7));
    assert_eq!(parse_decimal("65535", 65535), Ok(65535));
    assert_eq!(parse_decimal("18446744073709551615", u64::MAX), Ok(u64::MAX));
    assert_eq!(parse_decimal("00000000000000000000000000000018446744073709551615", u64::MAX), Ok(u64::MAX));
    assert_eq!(parse_decimal("0", 0), Ok(0));
}

#[test]
fn says_why_a_text_is_no_number() {
    assert_eq!(parse_decimal("", 10), Err(NumberError::Empty));
    assert_eq!(parse_decimal("+", 10), Err(NumberError::InvalidDigit));
    assert_eq!(parse_decimal("-", 10), Err(NumberError::InvalidDigit));
    assert_eq!(parse_decimal("-1", 10), Err(NumberError::InvalidDigit));
    assert_eq!(parse_decimal("++1", 10), Err(NumberError::InvalidDigit));
    assert_eq!(parse_decimal("1+", 10), Err(NumberError::InvalidDigit));
    assert_eq!(parse_decimal(" 1", 10), Err(NumberError::InvalidDigit));
    assert_eq!(parse_decimal("1 ", 10), Err(NumberError::InvalidDigit));
    assert_eq!(parse_decimal("1_0", 10), Err(NumberError::InvalidDigit));
    assert_eq!(parse_decimal("\u{664}", 10), Err(NumberError::InvalidDigit));
    assert_eq!(parse_decimal("9x", 10), Err(NumberError::InvalidDigit));
    assert_eq!(parse_decimal("x99", 10), Err(NumberError::InvalidDigit));
    assert_eq!(parse_decimal("11", 10), Err(NumberError::TooLarge));
    assert_eq!(parse_decimal("1", 0), Err(NumberError::TooLarge));
    assert_eq!(parse_decimal("65536", 65535), Err(NumberError::TooLarge));
    assert_eq!(parse_decimal("18446744073709551616", u64::MAX), Err(NumberError::TooLarge));
    assert_eq!(parse_decimal("99999999999999999999999999", u64::MAX), Err(NumberError::TooLarge));
}

#[test]
fn the_first_fault_decides() {
    assert_eq!(parse_decimal("99x", 10), Err(NumberError::TooLarge));
    assert_eq!(parse_decimal("10x", 10), Err(NumberError::InvalidDigit));
    assert_eq!(parse_decimal("11x", 10), Err(NumberError::TooLarge));
    assert_eq!(parse_decimal("1x1", 10), Err(NumberError::InvalidDigit));
    assert_eq!(parse_decimal("x11", 10), Err(NumberError::InvalidDigit));
    assert_eq!(parse_decimal("65535x", 65535), Err(NumberError::InvalidDigit));
    assert_eq!(parse_decimal("65536x", 65535), Err(NumberError::TooLarge));
    assert_eq!(parse_decimal("99999x", 65535), Err(NumberError::TooLarge));
    assert_eq!(parse_decimal("+99999x", 65535), Err(NumberError::TooLarge));
    assert_eq!(parse_decimal("6553x6", 65535), Err(NumberError::InvalidDigit));
    assert_eq!(parse_decimal("999999999999999999999999x", u64::MAX), Err(NumberError::TooLarge));
}

fn kind_of(error: &std::num::ParseIntError) -> NumberError {
    match error.kind() {
        std::num::IntErrorKind::Empty => NumberError::Empty,
        std::num::IntErrorKind::InvalidDigit => NumberError::InvalidDigit,
        std::num::IntErrorKind::PosOverflow => NumberError::TooLarge,
        other => panic!("{:?}", other),
    }
}

#[test]
fn faults_agree_with_the_standard_parser() {
    for text in [
        "", "+", "-", "-1", "++1", "1+", " 1", "1 ", "1_0", "x", "9x", "x9", "65535x", "65536",
        "65536x", "99999x", "+99999x", "6553x6", "99999999999999999999", "99999999999999999999x",
        "18446744073709551616", "18446744073709551615x", "18446744073709551616x", "00000065536x",
    ] {
        assert_eq!(
            parse_decimal(text, 65535),
            text.parse::<u16>().map(u64::from).map_err(|error| kind_of(&error)),
            "{:?}",
            text
        );
        assert_eq!(
            parse_decimal(text, u64::MAX),
            text.parse::<u64>().map_err(|error| kind_of(&error)),
            "{:?}",
            text
        );
    }
}

#[test]
fn agrees_with_the_standard_parser() {
    for text in ["", "+", "-", "0", "+0", "-0", "1", "+1", "007", "65535", "65536", "1e3", "0x10", " 1", "1 ", "९", "18446744073709551615", "18446744073709551616"] {
        assert_eq!(parse_decimal(text, u64::MAX).ok(), text.parse::<u64>().ok(), "{:?}", text);
        assert_eq!(
            parse_decimal(text, 65535).ok(),
            text.parse::<u16>().ok().map(u64::from),
            "{:?}",
            text
        );
    }
}

#[test]
fn writes_numbers() {
    for n in [0u64, 1, 9, 10, 11, 99, 100, 101, 1000, 65535, 1234567890, u64::MAX] {
        let mut out = String::from("n=");
        append_decimal(&mut out, n);
        assert_eq!(out, format!("n={}", n));
    }
}

#[test]
fn writes_seconds() {
    for (millis, text) in [
        (0u64, "0.000"),
        (1, "0.001"),
        (10, "0.010"),
        (15, "0.015"),
        (100, "0.100"),
        (999, "0.999"),
        (1000, "1.000"),
        (1234, "1.234"),
        (60_005, "60.005"),
        (u64::MAX, "18446744073709551.615"),
    ] {
        let mut out = String::new();
        append_seconds(&mut out, millis);
        assert_eq!(out, text);
    }
}

#[test]
fn compares_texts() {
    assert!(starts_with("http://a", "http://"));
    assert!(starts_with("http://", "http://"));
    assert!(starts_with("anything", ""));
    assert!(!starts_with("http:/", "http://"));
    assert!(!starts_with("https://a", "http://"));
    assert!(!starts_with("", "a"));
    assert!(same_text("--", "--"));
    assert!(same_text("", ""));
    assert!(!same_text("--", "---"));
    assert!(!same_text("---", "--"));
    assert!(!same_text("-t", "-s"));
    assert!(same_text("caf\u{e9}", "caf\u{e9}"));
}

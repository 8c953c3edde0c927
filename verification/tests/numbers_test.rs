use whisper_client::numbers::{i64_to_dec, parse_decimal, u64_to_dec, u64_to_two_digits};

#[test]
fn test_parse_decimal_tenths() {
    // Percentages are read in tenths of a percent.
    assert_eq!(parse_decimal("45.2", 1), Some(452));
    assert_eq!(parse_decimal("45.0", 1), Some(450));
    assert_eq!(parse_decimal("45", 1), Some(450));
    assert_eq!(parse_decimal("0", 1), Some(0));
    assert_eq!(parse_decimal("100.0", 1), Some(1000));
    // Truncation toward zero past the kept digit.
    assert_eq!(parse_decimal("45.19", 1), Some(451));
    assert_eq!(parse_decimal("-45.19", 1), Some(-451));
}

#[test]
fn test_parse_decimal_milliseconds() {
    // Durations are read in milliseconds.
    assert_eq!(parse_decimal("5.0", 3), Some(5000));
    assert_eq!(parse_decimal("2.5", 3), Some(2500));
    assert_eq!(parse_decimal("0.1234", 3), Some(123));
    assert_eq!(parse_decimal("-3.5", 3), Some(-3500));
}

#[test]
fn test_parse_decimal_whole_seconds() {
    assert_eq!(parse_decimal("1234567890.0", 0), Some(1234567890));
    assert_eq!(parse_decimal("1234567890", 0), Some(1234567890));
    assert_eq!(parse_decimal("-7.9", 0), Some(-7));
}

#[test]
fn test_parse_decimal_rejects_malformed() {
    assert_eq!(parse_decimal("", 0), None);
    assert_eq!(parse_decimal("-", 0), None);
    assert_eq!(parse_decimal(".5", 0), None);
    assert_eq!(parse_decimal("5.", 0), None);
    assert_eq!(parse_decimal("1e3", 0), None);
    assert_eq!(parse_decimal("1.2.3", 0), None);
    assert_eq!(parse_decimal("abc", 0), None);
    assert_eq!(parse_decimal("4 2", 0), None);
    assert_eq!(parse_decimal("+5", 0), None);
}

#[test]
fn test_parse_decimal_rejects_overflow() {
    assert_eq!(parse_decimal("99999999999999999999", 0), None);
    assert_eq!(parse_decimal("9223372036854775807", 0), Some(i64::MAX));
    assert_eq!(parse_decimal("9223372036854775808", 0), None);
    // The scale counts toward the overflow.
    assert_eq!(parse_decimal("9223372036854775807", 3), None);
}

#[test]
fn test_decimal_rendering() {
    assert_eq!(u64_to_dec(0), "0");
    assert_eq!(u64_to_dec(120), "120");
    assert_eq!(i64_to_dec(-120), "-120");
    assert_eq!(i64_to_dec(1000), "1000");
    assert_eq!(u64_to_two_digits(5), "05");
    assert_eq!(u64_to_two_digits(42), "42");
}

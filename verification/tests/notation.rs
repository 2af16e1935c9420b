use clawbot::notation::{format_decimal, format_integer, parse_decimal};

#[test]
fn decimals_are_read() {
    assert_eq!(parse_decimal("0"), Some(0));
    assert_eq!(parse_decimal("1"), Some(100_000_000));
    assert_eq!(parse_decimal("1.5"), Some(150_000_000));
    assert_eq!(parse_decimal("-1.5"), Some(-150_000_000));
    assert_eq!(parse_decimal("+1.5"), Some(150_000_000));
    assert_eq!(parse_decimal("0.00000001"), Some(1));
    assert_eq!(parse_decimal("43250.12345678"), Some(4_325_012_345_678));
    assert_eq!(parse_decimal("007.50"), Some(750_000_000));
    assert_eq!(parse_decimal(".5"), Some(50_000_000));
    assert_eq!(parse_decimal("5."), Some(500_000_000));
    assert_eq!(parse_decimal("-0"), Some(0));
}

#[test]
fn digits_after_the_eighth_are_dropped() {
    assert_eq!(parse_decimal("0.123456789"), Some(12_345_678));
    assert_eq!(parse_decimal("0.000000019999"), Some(1));
    assert_eq!(parse_decimal("-0.000000019999"), Some(-1));
    assert_eq!(parse_decimal("0.0000000099"), Some(0));
}

#[test]
fn what_is_no_decimal_is_refused() {
    for text in ["", "-", "+", ".", "-.", "abc", "1e5", "1.2.3", "1,5", " 1", "1 ", "--1", "1-", "0x10", "NaN", "inf", "1.5x", "x.5", "٣"] {
        assert_eq!(parse_decimal(text), None, "{text:?}");
    }
}

#[test]
fn the_range_of_a_decimal_is_kept() {
    assert_eq!(parse_decimal("92233720368.54775807"), Some(i64::MAX));
    assert_eq!(parse_decimal("92233720368.54775808"), None);
    assert_eq!(parse_decimal("-92233720368.54775808"), Some(i64::MIN));
    assert_eq!(parse_decimal("-92233720368.54775809"), None);
    assert_eq!(parse_decimal("92233720369"), None);
    assert_eq!(parse_decimal("999999999999"), None);
    assert_eq!(parse_decimal("1000000000000"), None);
    assert_eq!(parse_decimal("123456789012345678901234567890123456789012345678901234567890"), None);
    assert_eq!(parse_decimal("00000000000000000000000000000000000000000000001"), Some(100_000_000));
}

#[test]
fn decimals_are_written() {
    assert_eq!(format_decimal(0), "0");
    assert_eq!(format_decimal(100_000_000), "1");
    assert_eq!(format_decimal(1_000_000), "0.01");
    assert_eq!(format_decimal(150_000_000), "1.5");
    assert_eq!(format_decimal(-150_000_000), "-1.5");
    assert_eq!(format_decimal(1), "0.00000001");
    assert_eq!(format_decimal(-1), "-0.00000001");
    assert_eq!(format_decimal(4_325_012_345_678), "43250.12345678");
    assert_eq!(format_decimal(100_000), "0.001");
    assert_eq!(format_decimal(10), "0.0000001");
    assert_eq!(format_decimal(i64::MAX), "92233720368.54775807");
    assert_eq!(format_decimal(i64::MIN), "-92233720368.54775808");
}

#[test]
fn writing_then_reading_gives_the_decimal_back() {
    for v in [0, 1, -1, 10, 99_999_999, 100_000_000, 100_000_001, -4_325_012_345_678, i64::MAX, i64::MIN, 123_456_789_000] {
        assert_eq!(parse_decimal(&format_decimal(v)), Some(v));
    }
}

#[test]
fn whole_numbers_are_written() {
    assert_eq!(format_integer(0), "0");
    assert_eq!(format_integer(7), "7");
    assert_eq!(format_integer(10), "10");
    assert_eq!(format_integer(1_499_827_319_559), "1499827319559");
    assert_eq!(format_integer(u64::MAX), "18446744073709551615");
}

use exchange_feed::decimal::{
    append_signed, format_decimal, parse_decimal, unsigned_text, DECIMALS, SCALE,
};
use exchange_feed::errors::ExchangeError;

fn rejected(text: &str) -> bool {
    match parse_decimal(text) {
        Err(ExchangeError::Parse(message)) => message == text,
        _ => false,
    }
}

#[test]
fn scale_has_eight_decimals() {
    assert_eq!(DECIMALS, 8);
    assert_eq!(SCALE, 100_000_000);
}

#[test]
fn parses_whole_numbers() {
    assert_eq!(parse_decimal("0").unwrap(), 0);
    assert_eq!(parse_decimal("1").unwrap(), 100_000_000);
    assert_eq!(parse_decimal("30000").unwrap(), 3_000_000_000_000);
    assert_eq!(parse_decimal("007").unwrap(), 700_000_000);
}

#[test]
fn parses_fractions_exactly() {
    assert_eq!(parse_decimal("30001.5").unwrap(), 3_000_150_000_000);
    assert_eq!(parse_decimal("16569.01").unwrap(), 1_656_901_000_000);
    assert_eq!(parse_decimal("0.014").unwrap(), 1_400_000);
    assert_eq!(parse_decimal("0.00000001").unwrap(), 1);
    assert_eq!(parse_decimal("1.00000000").unwrap(), 100_000_000);
    assert_eq!(parse_decimal("5.").unwrap(), 500_000_000);
}

#[test]
fn parses_up_to_the_largest_value() {
    assert_eq!(parse_decimal("184467440737.09551615").unwrap(), u64::MAX);
    assert!(rejected("184467440737.09551616"));
    assert!(rejected("184467440738"));
    assert!(rejected("99999999999999999999999999999999999999999"));
}

#[test]
fn rejects_what_is_no_plain_decimal() {
    assert!(rejected(""));
    assert!(rejected("."));
    assert!(rejected(".5"));
    assert!(rejected("-1.0"));
    assert!(rejected("+1.0"));
    assert!(rejected("1e5"));
    assert!(rejected("NaN"));
    assert!(rejected("inf"));
    assert!(rejected("1.2.3"));
    assert!(rejected("1,5"));
    assert!(rejected(" 1"));
    assert!(rejected("1 "));
    assert!(rejected("12a"));
    assert!(rejected("1.5x"));
    assert!(rejected("\u{0661}"));
}

#[test]
fn zeros_beyond_the_eighth_fraction_digit_add_nothing() {
    assert_eq!(parse_decimal("0.12345678").unwrap(), 12_345_678);
    assert_eq!(parse_decimal("0.123456780").unwrap(), 12_345_678);
    assert_eq!(parse_decimal("1.000000000").unwrap(), 100_000_000);
    assert_eq!(parse_decimal("30001.5000000000000000").unwrap(), 3_000_150_000_000);
    assert_eq!(parse_decimal("0.00000001000").unwrap(), 1);
    assert_eq!(parse_decimal("184467440737.095516150").unwrap(), u64::MAX);
}

#[test]
fn other_digits_beyond_the_eighth_are_refused() {
    // the value could not be kept exactly
    assert!(rejected("0.123456789"));
    assert!(rejected("0.000000001"));
    assert!(rejected("1.0000000001"));
    assert!(rejected("1.00000000000000000005"));
    assert!(rejected("1.000000000x"));
    assert!(rejected("1.00000000 "));
    assert!(rejected("1.00000000.0"));
    assert!(rejected("184467440737.095516160"));
}

#[test]
fn writes_unsigned_numbers() {
    assert_eq!(unsigned_text(0), "0");
    assert_eq!(unsigned_text(7), "7");
    assert_eq!(unsigned_text(10), "10");
    assert_eq!(unsigned_text(12345), "12345");
    assert_eq!(unsigned_text(1_672_515_782_136), "1672515782136");
    assert_eq!(unsigned_text(u64::MAX), "18446744073709551615");
}

#[test]
fn written_numbers_read_back() {
    for value in [0u64, 1, 9, 10, 99, 100, 12_345, 184_467_440_737] {
        let text = unsigned_text(value);
        assert_eq!(parse_decimal(&text).unwrap(), value * SCALE);
    }
}

#[test]
fn fixed_point_values_are_written_in_full() {
    assert_eq!(format_decimal(0), "0.00000000");
    assert_eq!(format_decimal(1), "0.00000001");
    assert_eq!(format_decimal(150_000_000), "1.50000000");
    assert_eq!(format_decimal(3_000_150_000_000), "30001.50000000");
    assert_eq!(format_decimal(1_656_901_000_000), "16569.01000000");
    assert_eq!(format_decimal(u64::MAX), "184467440737.09551615");
}

#[test]
fn written_values_read_back() {
    for value in [0u64, 1, 99_999_999, 100_000_000, 100_000_001, 3_000_150_000_000, u64::MAX] {
        assert_eq!(parse_decimal(&format_decimal(value)).unwrap(), value);
    }
}

#[test]
fn signed_numbers_are_written_with_their_sign() {
    let write = |value: i64| {
        let mut text = String::from("#");
        append_signed(&mut text, value);
        text
    };
    assert_eq!(write(0), "#0");
    assert_eq!(write(42), "#42");
    assert_eq!(write(-1), "#-1");
    assert_eq!(write(-1003), "#-1003");
    assert_eq!(write(i64::MAX), "#9223372036854775807");
    assert_eq!(write(i64::MIN), "#-9223372036854775808");
}

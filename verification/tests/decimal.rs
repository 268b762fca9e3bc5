use drift_monitor::decimal::parse_decimal;

#[test]
fn decimal_plain_numbers() {
    assert_eq!(parse_decimal("0"), Some(0));
    assert_eq!(parse_decimal("5"), Some(5_000_000));
    assert_eq!(parse_decimal("0.1"), Some(100_000));
    assert_eq!(parse_decimal("-0.10"), Some(-100_000));
    assert_eq!(parse_decimal("+1.5"), Some(1_500_000));
    assert_eq!(parse_decimal("007.250"), Some(7_250_000));
    assert_eq!(parse_decimal("0.000001"), Some(1));
}

#[test]
fn decimal_point_at_either_end() {
    assert_eq!(parse_decimal(".5"), Some(500_000));
    assert_eq!(parse_decimal("5."), Some(5_000_000));
    assert_eq!(parse_decimal("-.5"), Some(-500_000));
}

#[test]
fn decimal_drops_digits_past_the_sixth() {
    assert_eq!(parse_decimal("0.1234567"), Some(123_456));
    assert_eq!(parse_decimal("-0.1234569"), Some(-123_456));
    assert_eq!(parse_decimal("0.0000009"), Some(0));
}

#[test]
fn decimal_rejects_what_is_no_number() {
    for text in ["", "-", "+", ".", "-.", "1e3", "1,5", " 1", "1 ", "--1", "1.2.3", "abc", "0x10", "1-"] {
        assert_eq!(parse_decimal(text), None, "{:?}", text);
    }
}

#[test]
fn decimal_range() {
    assert_eq!(parse_decimal("9223372036854.775807"), Some(i64::MAX));
    assert_eq!(parse_decimal("9223372036854.775808"), None);
    assert_eq!(parse_decimal("-9223372036854.775808"), Some(i64::MIN));
    assert_eq!(parse_decimal("-9223372036854.775809"), None);
    assert_eq!(parse_decimal("9223372036855"), None);
    assert_eq!(parse_decimal("99999999999999999999999999999999999999999999"), None);
    assert_eq!(parse_decimal("00000000000000000000000000000000000000000001"), Some(1_000_000));
}

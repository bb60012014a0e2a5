use weather_station::format_tenths;
use weather_station::parse_tenths;

#[test]
fn plain_decimals_parse_to_tenths() {
    assert_eq!(parse_tenths("15.0"), Some(150));
    assert_eq!(parse_tenths("0"), Some(0));
    assert_eq!(parse_tenths("7"), Some(70));
    assert_eq!(parse_tenths("1012.8"), Some(10128));
    assert_eq!(parse_tenths("-3.2"), Some(-32));
    assert_eq!(parse_tenths("0.5"), Some(5));
    assert_eq!(parse_tenths("-0.5"), Some(-5));
}

#[test]
fn the_second_fraction_digit_rounds_half_away_from_zero() {
    assert_eq!(parse_tenths("1013.25"), Some(10133));
    assert_eq!(parse_tenths("1013.24"), Some(10132));
    assert_eq!(parse_tenths("-3.25"), Some(-33));
    assert_eq!(parse_tenths("0.05"), Some(1));
    assert_eq!(parse_tenths("0.049"), Some(0));
    assert_eq!(parse_tenths("-0.05"), Some(-1));
    assert_eq!(parse_tenths("9.96"), Some(100));
}

#[test]
fn malformed_decimals_have_no_value() {
    assert_eq!(parse_tenths(""), None);
    assert_eq!(parse_tenths("-"), None);
    assert_eq!(parse_tenths("."), None);
    assert_eq!(parse_tenths("1."), None);
    assert_eq!(parse_tenths(".5"), None);
    assert_eq!(parse_tenths("1.5e3"), None);
    assert_eq!(parse_tenths("abc"), None);
    assert_eq!(parse_tenths("--1"), None);
    assert_eq!(parse_tenths("1..2"), None);
    assert_eq!(parse_tenths("1 2"), None);
    assert_eq!(parse_tenths("+1"), None);
}

#[test]
fn values_beyond_the_tenths_range_have_no_representation() {
    assert_eq!(parse_tenths("922337203685477580.7"), Some(i64::MAX));
    assert_eq!(parse_tenths("922337203685477580.8"), None);
    assert_eq!(parse_tenths("-922337203685477580.8"), Some(i64::MIN));
    assert_eq!(parse_tenths("-922337203685477580.9"), None);
    assert_eq!(parse_tenths("99999999999999999999999999"), None);
}

#[test]
fn tenths_format_with_one_decimal_digit() {
    assert_eq!(format_tenths(150), "15.0");
    assert_eq!(format_tenths(0), "0.0");
    assert_eq!(format_tenths(-5), "-0.5");
    assert_eq!(format_tenths(10132), "1013.2");
    assert_eq!(format_tenths(-10132), "-1013.2");
    assert_eq!(format_tenths(i64::MAX), "922337203685477580.7");
    assert_eq!(format_tenths(i64::MIN), "-922337203685477580.8");
}

#[test]
fn formatting_then_parsing_returns_the_same_tenths() {
    for t in [0i64, 1, -1, 9, 10, -10, 150, -150, 12345, i64::MAX, i64::MIN] {
        assert_eq!(parse_tenths(&format_tenths(t)), Some(t));
    }
}

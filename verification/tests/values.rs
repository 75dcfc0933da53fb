//! The typed value decoder and its encoder, on concrete values.

use spreadsheet_ods::cellvalue::{decode_value_type, encode_value, parse_value};
use spreadsheet_ods::error::OdsError;
use spreadsheet_ods::numtext::{check_f64_literal, parse_u32};
use spreadsheet_ods::temporal::{fmt_datetime, fmt_duration, parse_datetime_value, parse_duration};
use spreadsheet_ods::value::{CellDateTime, CellDuration, Value, ValueType};

fn dt(y: u32, mo: u32, d: u32, h: u32, mi: u32, s: u32, ns: u32) -> CellDateTime {
    CellDateTime { year: y, month: mo, day: d, hour: h, minute: mi, second: s, nanosecond: ns }
}

#[test]
fn duration_literal_decodes_to_seconds_and_nanos() {
    // PT1H30M15.5S is exactly 5415.5 seconds
    let d = parse_duration("PT1H30M15.5S").unwrap();
    assert_eq!(d.seconds, 5415);
    assert_eq!(d.nanoseconds, 500_000_000);
}

#[test]
fn duration_scan_is_permissive() {
    let d = parse_duration("PT0H0M0S").unwrap();
    assert_eq!(d.seconds, 0);
    assert_eq!(d.nanoseconds, 0);
    // unknown characters are ignored, digits accumulate in field order
    let d = parse_duration("xx2H5M1S").unwrap();
    assert_eq!(d.seconds, 2 * 3600 + 5 * 60 + 1);
    // ten or more fractional digits carry whole seconds over
    let d = parse_duration("PT0H0M0.2000000000S").unwrap();
    assert_eq!(d.seconds, 2);
    assert_eq!(d.nanoseconds, 0);
}

#[test]
fn duration_round_trips_through_its_printer() {
    let d = CellDuration { seconds: 5415, nanoseconds: 500_000_000 };
    assert_eq!(fmt_duration(d), "PT1H30M15.500000000S");
    let back = parse_duration(&fmt_duration(d)).unwrap();
    assert_eq!(back, d);
}

#[test]
fn ten_character_date_means_midnight() {
    let d = parse_datetime_value("2020-03-01").unwrap();
    assert_eq!(d, dt(2020, 3, 1, 0, 0, 0, 0));
}

#[test]
fn full_datetime_keeps_its_time_of_day() {
    let d = parse_datetime_value("2020-03-01T13:14:15").unwrap();
    assert_eq!(d, dt(2020, 3, 1, 13, 14, 15, 0));
    let d = parse_datetime_value("2020-03-01T13:14:15.25").unwrap();
    assert_eq!(d, dt(2020, 3, 1, 13, 14, 15, 250_000_000));
}

#[test]
fn bad_dates_are_rejected() {
    assert!(parse_datetime_value("2019-02-29").is_none());
    assert!(parse_datetime_value("2020-13-01").is_none());
    assert!(parse_datetime_value("2020-03-00").is_none());
    assert!(parse_datetime_value("2020-3-01x").is_none());
    assert!(parse_datetime_value("2020-03-01T25:00:00").is_none());
    // leap day of a leap year is fine
    assert!(parse_datetime_value("2020-02-29").is_some());
}

#[test]
fn datetime_round_trips_through_its_printer() {
    let d = dt(2020, 3, 1, 13, 14, 15, 250_000_000);
    assert_eq!(fmt_datetime(d), "2020-03-01T13:14:15.250000000");
    assert_eq!(parse_datetime_value(&fmt_datetime(d)).unwrap(), d);
}

#[test]
fn float_literal_shapes() {
    assert!(check_f64_literal("3"));
    assert!(check_f64_literal("3.5"));
    assert!(check_f64_literal("-3.5e-7"));
    assert!(check_f64_literal("+.5"));
    assert!(check_f64_literal("5."));
    assert!(check_f64_literal("inf"));
    assert!(check_f64_literal("Infinity"));
    assert!(check_f64_literal("NaN"));
    assert!(!check_f64_literal(""));
    assert!(!check_f64_literal("."));
    assert!(!check_f64_literal("1e"));
    assert!(!check_f64_literal("1e+"));
    assert!(!check_f64_literal("abc"));
    assert!(!check_f64_literal("1.2.3"));
}

#[test]
fn counts_parse_like_unsigned_integers() {
    assert_eq!(parse_u32("5"), Some(5));
    assert_eq!(parse_u32("+12"), Some(12));
    assert_eq!(parse_u32("4294967295"), Some(u32::MAX));
    assert_eq!(parse_u32("4294967296"), None);
    assert_eq!(parse_u32(""), None);
    assert_eq!(parse_u32("-1"), None);
    assert_eq!(parse_u32("1x"), None);
}

#[test]
fn missing_value_for_declared_type_fails() {
    let r = parse_value(Some(ValueType::Number), None, None, None);
    assert!(matches!(r, Err(OdsError::MissingValueForType(ValueType::Number))));
    let r = parse_value(Some(ValueType::DateTime), None, None, None);
    assert!(matches!(r, Err(OdsError::MissingValueForType(ValueType::DateTime))));
}

#[test]
fn missing_type_and_missing_currency_fail() {
    assert!(matches!(parse_value(None, None, None, None), Err(OdsError::UnknownValueType(None))));
    let r = parse_value(Some(ValueType::Currency), Some("2.5".to_string()), None, None);
    assert!(matches!(r, Err(OdsError::MissingCurrencyCode)));
}

#[test]
fn numeric_date_and_duration_parse_errors_carry_the_text() {
    let r = parse_value(Some(ValueType::Number), Some("abc".to_string()), None, None);
    assert!(matches!(r, Err(OdsError::NumericParseError(s)) if s == "abc"));
    let r = parse_value(Some(ValueType::DateTime), Some("2020-99-01".to_string()), None, None);
    assert!(matches!(r, Err(OdsError::DateParseError(s)) if s == "2020-99-01"));
    let r = parse_value(
        Some(ValueType::TimeDuration),
        Some("PT99999999999999999999H".to_string()),
        None,
        None,
    );
    assert!(matches!(r, Err(OdsError::DurationParseError(_))));
}

#[test]
fn unknown_value_type_token_fails() {
    assert!(matches!(
        decode_value_type("floatt"),
        Err(OdsError::UnknownValueType(Some(s))) if s == "floatt"
    ));
    assert!(matches!(decode_value_type("float"), Ok(ValueType::Number)));
    assert!(matches!(decode_value_type("string"), Ok(ValueType::Text)));
    assert!(matches!(decode_value_type("time"), Ok(ValueType::TimeDuration)));
}

#[test]
fn boolean_is_true_only_on_the_token_true() {
    let r = parse_value(Some(ValueType::Boolean), Some("true".to_string()), None, None).unwrap();
    assert!(matches!(r, Value::Boolean(true)));
    let r = parse_value(Some(ValueType::Boolean), Some("TRUE".to_string()), None, None).unwrap();
    assert!(matches!(r, Value::Boolean(false)));
}

#[test]
fn text_without_content_is_the_empty_string() {
    let r = parse_value(Some(ValueType::Text), None, None, None).unwrap();
    assert!(matches!(r, Value::Text(s) if s.is_empty()));
}

fn round_trip(v: Value) -> Value {
    let (vt, raw, content, currency) = encode_value(&v);
    parse_value(Some(vt), raw, content, currency).unwrap()
}

#[test]
fn encode_then_decode_reproduces_each_value() {
    assert!(matches!(round_trip(Value::Empty), Value::Empty));
    assert!(matches!(round_trip(Value::Boolean(true)), Value::Boolean(true)));
    assert!(matches!(round_trip(Value::Boolean(false)), Value::Boolean(false)));
    assert!(matches!(
        round_trip(Value::Number("3.25".to_string())),
        Value::Number(s) if s == "3.25"
    ));
    assert!(matches!(
        round_trip(Value::Percentage("0.5".to_string())),
        Value::Percentage(s) if s == "0.5"
    ));
    assert!(matches!(
        round_trip(Value::Currency("EUR".to_string(), "1.99".to_string())),
        Value::Currency(c, s) if c == "EUR" && s == "1.99"
    ));
    assert!(matches!(
        round_trip(Value::Text("hello world".to_string())),
        Value::Text(s) if s == "hello world"
    ));
    let d = dt(1999, 12, 31, 23, 59, 59, 999_999_999);
    assert!(matches!(round_trip(Value::DateTime(d)), Value::DateTime(x) if x == d));
    let du = CellDuration { seconds: 86_400, nanoseconds: 1 };
    assert!(matches!(round_trip(Value::TimeDuration(du)), Value::TimeDuration(x) if x == du));
}

#[test]
fn value_constructors_validate_their_literals() {
    assert!(Value::number("3.5").is_some());
    assert!(Value::number("x").is_none());
    assert!(Value::percentage("0.5").is_some());
    assert!(Value::percentage("").is_none());
    assert!(Value::currency("EUR", "2.5").is_some());
    assert!(Value::currency("EUR", "two").is_none());
}

#[test]
fn value_accessors_pick_the_right_variant() {
    let v = Value::Boolean(true);
    assert!(v.as_bool_or(false));
    assert_eq!(v.value_type(), ValueType::Boolean);
    let v = Value::Text("abc".to_string());
    assert_eq!(v.as_str_or("d"), "abc");
    assert_eq!(Value::Empty.as_str_or("d"), "d");
    let v = Value::Number("7.5".to_string());
    assert_eq!(v.as_literal_or("0"), "7.5");
    let d = dt(2020, 1, 2, 3, 4, 5, 6);
    let v = Value::DateTime(d);
    assert_eq!(v.as_datetime_opt(), Some(d));
    assert_eq!(v.as_datetime_or(dt(1, 1, 1, 0, 0, 0, 0)), d);
    let du = CellDuration { seconds: 1, nanoseconds: 2 };
    let v = Value::TimeDuration(du);
    assert_eq!(v.as_timeduration_or(CellDuration { seconds: 0, nanoseconds: 0 }), du);
}

//! The typed value decoder and its attribute-level encoder.
//!
//! Decoding maps a declared type, the raw value attribute, the accumulated
//! text content and the currency code to a typed [`Value`]; every failure is
//! reported with the declared type so a caller can see which cell and
//! attribute went wrong.  The encoder produces exactly the attribute strings
//! the decoder reads back, which is what the round-trip law at the bottom
//! states.

use vstd::prelude::*;
use crate::error::{OdsError, OdsErrorView};
use crate::numtext::{check_f64_literal, is_f64_literal, str_eq};
use crate::temporal::{
    fmt_datetime,
    fmt_duration,
    lemma_datetime_round_trip,
    lemma_duration_round_trip,
    lemma_parse_datetime_value_wf,
    lemma_parse_duration_wf,
    parse_datetime_value,
    parse_duration,
    spec_fmt_datetime,
    spec_fmt_duration,
    spec_parse_datetime_value,
    spec_parse_duration,
};
use crate::value::{Value, ValueType, ValueView};

verus! {

/// What a declared `office:value-type` attribute means.
pub open spec fn spec_decode_value_type(s: Seq<char>) -> Result<ValueType, OdsErrorView> {
    if s == "string"@ {
        Ok(ValueType::Text)
    } else if s == "float"@ {
        Ok(ValueType::Number)
    } else if s == "percentage"@ {
        Ok(ValueType::Percentage)
    } else if s == "date"@ {
        Ok(ValueType::DateTime)
    } else if s == "time"@ {
        Ok(ValueType::TimeDuration)
    } else if s == "boolean"@ {
        Ok(ValueType::Boolean)
    } else if s == "currency"@ {
        Ok(ValueType::Currency)
    } else {
        Err(OdsErrorView::UnknownValueType(Some(s)))
    }
}

/// Reads a declared value type; an unrecognized token is an error.
pub fn decode_value_type(s: &str) -> (r: Result<ValueType, OdsError>)
    ensures
        match (r, spec_decode_value_type(s@)) {
            (Ok(t), Ok(st)) => t == st,
            (Err(e), Err(se)) => e@ == se,
            _ => false,
        },
{
    if str_eq(s, "string") {
        Ok(ValueType::Text)
    } else if str_eq(s, "float") {
        Ok(ValueType::Number)
    } else if str_eq(s, "percentage") {
        Ok(ValueType::Percentage)
    } else if str_eq(s, "date") {
        Ok(ValueType::DateTime)
    } else if str_eq(s, "time") {
        Ok(ValueType::TimeDuration)
    } else if str_eq(s, "boolean") {
        Ok(ValueType::Boolean)
    } else if str_eq(s, "currency") {
        Ok(ValueType::Currency)
    } else {
        Err(OdsError::UnknownValueType(Some(s.to_owned())))
    }
}

/// The typed value of a cell, from its declared type, raw value attribute,
/// accumulated text and currency code.
///
/// Success and failure, exactly: with no declared type the cell is refused;
/// Empty always succeeds; Text succeeds with the content or the empty
/// string; the numeric kinds demand a raw value shaped like a
/// floating-point literal, and Currency additionally a currency code; dates
/// and durations demand their literals; Boolean is true exactly on the
/// token `true`.
pub open spec fn spec_parse_value(
    value_type: Option<ValueType>,
    cell_value: Option<Seq<char>>,
    cell_content: Option<Seq<char>>,
    cell_currency: Option<Seq<char>>,
) -> Result<ValueView, OdsErrorView> {
    match value_type {
        None => Err(OdsErrorView::UnknownValueType(None)),
        Some(vt) => match vt {
            ValueType::Empty => Ok(ValueView::Empty),
            ValueType::Text => Ok(
                ValueView::Text(
                    match cell_content {
                        Some(c) => c,
                        None => Seq::empty(),
                    },
                ),
            ),
            ValueType::TextM => Ok(
                ValueView::Text(
                    match cell_content {
                        Some(c) => c,
                        None => Seq::empty(),
                    },
                ),
            ),
            ValueType::Boolean => match cell_value {
                None => Err(OdsErrorView::MissingValueForType(ValueType::Boolean)),
                Some(v) => Ok(ValueView::Boolean(v == "true"@)),
            },
            ValueType::Number => match cell_value {
                None => Err(OdsErrorView::MissingValueForType(ValueType::Number)),
                Some(v) => if is_f64_literal(v) {
                    Ok(ValueView::Number(v))
                } else {
                    Err(OdsErrorView::NumericParseError(v))
                },
            },
            ValueType::Percentage => match cell_value {
                None => Err(OdsErrorView::MissingValueForType(ValueType::Percentage)),
                Some(v) => if is_f64_literal(v) {
                    Ok(ValueView::Percentage(v))
                } else {
                    Err(OdsErrorView::NumericParseError(v))
                },
            },
            ValueType::Currency => match cell_value {
                None => Err(OdsErrorView::MissingValueForType(ValueType::Currency)),
                Some(v) => if is_f64_literal(v) {
                    match cell_currency {
                        Some(c) => Ok(ValueView::Currency(c, v)),
                        None => Err(OdsErrorView::MissingCurrencyCode),
                    }
                } else {
                    Err(OdsErrorView::NumericParseError(v))
                },
            },
            ValueType::DateTime => match cell_value {
                None => Err(OdsErrorView::MissingValueForType(ValueType::DateTime)),
                Some(v) => match spec_parse_datetime_value(v) {
                    Some(dt) => Ok(ValueView::DateTime(dt)),
                    None => Err(OdsErrorView::DateParseError(v)),
                },
            },
            ValueType::TimeDuration => match cell_value {
                None => Err(OdsErrorView::MissingValueForType(ValueType::TimeDuration)),
                Some(v) => match spec_parse_duration(v) {
                    Some(d) => Ok(ValueView::TimeDuration(d)),
                    None => Err(OdsErrorView::DurationParseError(v)),
                },
            },
        },
    }
}

/// Everything the decoder hands back is well formed.
pub proof fn lemma_parse_value_wf(
    value_type: Option<ValueType>,
    cell_value: Option<Seq<char>>,
    cell_content: Option<Seq<char>>,
    cell_currency: Option<Seq<char>>,
)
    ensures
        match spec_parse_value(value_type, cell_value, cell_content, cell_currency) {
            Ok(v) => v.wf(),
            Err(_) => true,
        },
{
    match value_type {
        Some(ValueType::DateTime) => match cell_value {
            Some(v) => {
                lemma_parse_datetime_value_wf(v);
            },
            None => {},
        },
        Some(ValueType::TimeDuration) => match cell_value {
            Some(v) => {
                lemma_parse_duration_wf(v);
            },
            None => {},
        },
        _ => {},
    }
}

/// The typed value decoder.
pub fn parse_value(
    value_type: Option<ValueType>,
    cell_value: Option<String>,
    cell_content: Option<String>,
    cell_currency: Option<String>,
) -> (r: Result<Value, OdsError>)
    ensures
        match (r, spec_parse_value(
            value_type,
            cell_value.deep_view(),
            cell_content.deep_view(),
            cell_currency.deep_view(),
        )) {
            (Ok(v), Ok(sv)) => v@ == sv,
            (Err(e), Err(se)) => e@ == se,
            _ => false,
        },
{
    let vt = match value_type {
        None => {
            return Err(OdsError::UnknownValueType(None));
        },
        Some(vt) => vt,
    };
    match vt {
        ValueType::Empty => Ok(Value::Empty),
        ValueType::Text | ValueType::TextM => match cell_content {
            Some(c) => Ok(Value::Text(c)),
            None => {
                let r = Value::Text(String::new());
                proof {
                    assert(r@ == ValueView::Text(Seq::empty()));
                }
                Ok(r)
            },
        },
        ValueType::Boolean => match cell_value {
            None => Err(OdsError::MissingValueForType(ValueType::Boolean)),
            Some(v) => Ok(Value::Boolean(str_eq(v.as_str(), "true"))),
        },
        ValueType::Number => match cell_value {
            None => Err(OdsError::MissingValueForType(ValueType::Number)),
            Some(v) => {
                if check_f64_literal(v.as_str()) {
                    Ok(Value::Number(v))
                } else {
                    Err(OdsError::NumericParseError(v))
                }
            },
        },
        ValueType::Percentage => match cell_value {
            None => Err(OdsError::MissingValueForType(ValueType::Percentage)),
            Some(v) => {
                if check_f64_literal(v.as_str()) {
                    Ok(Value::Percentage(v))
                } else {
                    Err(OdsError::NumericParseError(v))
                }
            },
        },
        ValueType::Currency => match cell_value {
            None => Err(OdsError::MissingValueForType(ValueType::Currency)),
            Some(v) => {
                if check_f64_literal(v.as_str()) {
                    match cell_currency {
                        Some(c) => Ok(Value::Currency(c, v)),
                        None => Err(OdsError::MissingCurrencyCode),
                    }
                } else {
                    Err(OdsError::NumericParseError(v))
                }
            },
        },
        ValueType::DateTime => match cell_value {
            None => Err(OdsError::MissingValueForType(ValueType::DateTime)),
            Some(v) => match parse_datetime_value(v.as_str()) {
                Some(dt) => Ok(Value::DateTime(dt)),
                None => Err(OdsError::DateParseError(v)),
            },
        },
        ValueType::TimeDuration => match cell_value {
            None => Err(OdsError::MissingValueForType(ValueType::TimeDuration)),
            Some(v) => match parse_duration(v.as_str()) {
                Some(d) => Ok(Value::TimeDuration(d)),
                None => Err(OdsError::DurationParseError(v)),
            },
        },
    }
}

/// The raw value attribute the encoder writes for a value.
pub open spec fn spec_encode_raw(v: ValueView) -> Option<Seq<char>> {
    match v {
        ValueView::Number(s) => Some(s),
        ValueView::Percentage(s) => Some(s),
        ValueView::Currency(_, s) => Some(s),
        ValueView::Boolean(b) => Some(
            if b {
                "true"@
            } else {
                "false"@
            },
        ),
        ValueView::DateTime(dt) => Some(spec_fmt_datetime(dt)),
        ValueView::TimeDuration(d) => Some(spec_fmt_duration(d)),
        _ => None,
    }
}

/// The text content the encoder writes for a value.
pub open spec fn spec_encode_content(v: ValueView) -> Option<Seq<char>> {
    match v {
        ValueView::Text(t) => Some(t),
        _ => None,
    }
}

/// The currency code the encoder writes for a value.
pub open spec fn spec_encode_currency(v: ValueView) -> Option<Seq<char>> {
    match v {
        ValueView::Currency(c, _) => Some(c),
        _ => None,
    }
}

/// Encodes one cell value into the attribute strings the decoder reads:
/// declared type, raw value, text content, currency code.
pub fn encode_value(v: &Value) -> (r: (ValueType, Option<String>, Option<String>, Option<
    String,
>))
    ensures
        r.0 == v@.value_type(),
        r.1.deep_view() == spec_encode_raw(v@),
        r.2.deep_view() == spec_encode_content(v@),
        r.3.deep_view() == spec_encode_currency(v@),
{
    let vt = v.value_type();
    let raw: Option<String> = match v {
        Value::Number(s) => Some(s.clone()),
        Value::Percentage(s) => Some(s.clone()),
        Value::Currency(_, s) => Some(s.clone()),
        Value::Boolean(b) => {
            if *b {
                Some("true".to_owned())
            } else {
                Some("false".to_owned())
            }
        },
        Value::DateTime(dt) => Some(fmt_datetime(*dt)),
        Value::TimeDuration(d) => Some(fmt_duration(*d)),
        _ => None,
    };
    let content: Option<String> = match v {
        Value::Text(t) => Some(t.clone()),
        _ => None,
    };
    let currency: Option<String> = match v {
        Value::Currency(c, _) => Some(c.clone()),
        _ => None,
    };
    (vt, raw, content, currency)
}

/// Law: encoding a cell value and decoding it again reproduces an equal
/// value, exactly, for every well-formed value that is not structured rich
/// text.  Numeric kinds carry their literal unchanged, so equality of the
/// decoded value is literal equality; dates and durations go through their
/// printers and parsers, which invert each other.
pub proof fn lemma_value_round_trip(v: ValueView)
    requires
        v.wf(),
        !(v is TextM),
    ensures
        spec_parse_value(
            Some(v.value_type()),
            spec_encode_raw(v),
            spec_encode_content(v),
            spec_encode_currency(v),
        ) == Ok::<ValueView, OdsErrorView>(v),
{
    match v {
        ValueView::Empty => {},
        ValueView::Boolean(b) => {
            reveal_strlit("true");
            reveal_strlit("false");
            if !b {
                assert("false"@.len() != "true"@.len());
            }
        },
        ValueView::Number(_) => {},
        ValueView::Percentage(_) => {},
        ValueView::Currency(_, _) => {},
        ValueView::Text(_) => {},
        ValueView::TextM(_) => {},
        ValueView::DateTime(dt) => {
            lemma_datetime_round_trip(dt);
        },
        ValueView::TimeDuration(d) => {
            lemma_duration_round_trip(d);
        },
    }
}

} // verus!

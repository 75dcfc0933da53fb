//! The decode error taxonomy.
//!
//! Any of these aborts the whole decode: no partial workbook is ever handed
//! back.  Unrecognized elements and attributes are never errors; only the
//! conditions below are.

use vstd::prelude::*;
use crate::value::ValueType;

verus! {

#[derive(Debug)]
pub enum OdsError {
    /// The archive entry is missing or unreadable.
    Archive,
    /// A lexical or structural violation in the XML stream; carries context.
    MalformedXml(String),
    /// A declared value type that is absent (`None`) or unrecognized.
    UnknownValueType(Option<String>),
    /// A declared type with no raw value attribute.
    MissingValueForType(ValueType),
    /// A currency cell with no currency code.
    MissingCurrencyCode,
    /// A numeric attribute that is not a number; carries the text.
    NumericParseError(String),
    /// A date or date-time literal of the wrong shape; carries the text.
    DateParseError(String),
    /// A duration literal whose fields overflow; carries the text.
    DurationParseError(String),
}

pub enum OdsErrorView {
    Archive,
    MalformedXml(Seq<char>),
    UnknownValueType(Option<Seq<char>>),
    MissingValueForType(ValueType),
    MissingCurrencyCode,
    NumericParseError(Seq<char>),
    DateParseError(Seq<char>),
    DurationParseError(Seq<char>),
}

impl View for OdsError {
    type V = OdsErrorView;

    open spec fn view(&self) -> OdsErrorView {
        match self {
            OdsError::Archive => OdsErrorView::Archive,
            OdsError::MalformedXml(s) => OdsErrorView::MalformedXml(s@),
            OdsError::UnknownValueType(s) => OdsErrorView::UnknownValueType(
                match s {
                    Some(t) => Some(t@),
                    None => None,
                },
            ),
            OdsError::MissingValueForType(t) => OdsErrorView::MissingValueForType(*t),
            OdsError::MissingCurrencyCode => OdsErrorView::MissingCurrencyCode,
            OdsError::NumericParseError(s) => OdsErrorView::NumericParseError(s@),
            OdsError::DateParseError(s) => OdsErrorView::DateParseError(s@),
            OdsError::DurationParseError(s) => OdsErrorView::DurationParseError(s@),
        }
    }
}

impl OdsError {
    /// A short description, for callers that print errors.
    pub fn describe(&self) -> (r: String)
        ensures
            true,
    {
        match self {
            OdsError::Archive => "archive entry missing or unreadable".to_owned(),
            OdsError::MalformedXml(s) => "malformed xml: ".to_owned().concat(s.as_str()),
            OdsError::UnknownValueType(Some(s)) => "unknown value-type: ".to_owned().concat(
                s.as_str(),
            ),
            OdsError::UnknownValueType(None) => "cell with no value-type".to_owned(),
            OdsError::MissingValueForType(_) => "cell declares a type but has no value".to_owned(),
            OdsError::MissingCurrencyCode => "currency cell with no currency code".to_owned(),
            OdsError::NumericParseError(s) => "not a number: ".to_owned().concat(s.as_str()),
            OdsError::DateParseError(s) => "not a date: ".to_owned().concat(s.as_str()),
            OdsError::DurationParseError(s) => "not a duration: ".to_owned().concat(s.as_str()),
        }
    }
}

} // verus!

//! The typed content of a cell.
//!
//! Numeric kinds carry their decimal literal exactly as it stands in the
//! document; no arithmetic is ever applied to it, so equality of values is
//! equality of literals.  Callers that want machine floating point convert at
//! the boundary.  Dates and durations are held as plain calendar and clock
//! fields.

use vstd::prelude::*;
use crate::numtext::is_f64_literal;
use crate::text::TextVec;

verus! {

#[derive(Clone, Copy, PartialEq, Eq, Hash, Debug, Structural)]
pub enum ValueType {
    Empty,
    Boolean,
    Number,
    Percentage,
    Currency,
    Text,
    TextM,
    DateTime,
    TimeDuration,
}

impl Default for ValueType {
    fn default() -> (r: Self)
        ensures
            r == ValueType::Text,
    {
        ValueType::Text
    }
}

/// A small integer standing for each value type, used to key the
/// default-style map.
pub open spec fn value_type_key(t: ValueType) -> u64 {
    match t {
        ValueType::Empty => 0,
        ValueType::Boolean => 1,
        ValueType::Number => 2,
        ValueType::Percentage => 3,
        ValueType::Currency => 4,
        ValueType::Text => 5,
        ValueType::TextM => 6,
        ValueType::DateTime => 7,
        ValueType::TimeDuration => 8,
    }
}

pub fn value_type_key_exec(t: ValueType) -> (r: u64)
    ensures
        r == value_type_key(t),
{
    match t {
        ValueType::Empty => 0,
        ValueType::Boolean => 1,
        ValueType::Number => 2,
        ValueType::Percentage => 3,
        ValueType::Currency => 4,
        ValueType::Text => 5,
        ValueType::TextM => 6,
        ValueType::DateTime => 7,
        ValueType::TimeDuration => 8,
    }
}

pub open spec fn leap_year(y: int) -> bool {
    y % 4 == 0 && (y % 100 != 0 || y % 400 == 0)
}

pub open spec fn days_in_month(y: int, m: int) -> int {
    if m == 2 {
        if leap_year(y) {
            29
        } else {
            28
        }
    } else if m == 4 || m == 6 || m == 9 || m == 11 {
        30
    } else {
        31
    }
}

/// A calendar date with a time of day, no time zone.
#[derive(Clone, Copy, PartialEq, Eq, Debug, Structural)]
pub struct CellDateTime {
    pub year: u32,
    pub month: u32,
    pub day: u32,
    pub hour: u32,
    pub minute: u32,
    pub second: u32,
    pub nanosecond: u32,
}

impl CellDateTime {
    pub open spec fn wf(self) -> bool {
        &&& self.year <= 9999
        &&& 1 <= self.month <= 12
        &&& 1 <= self.day <= days_in_month(self.year as int, self.month as int)
        &&& self.hour <= 23
        &&& self.minute <= 59
        &&& self.second <= 59
        &&& self.nanosecond < 1_000_000_000
    }

    /// True at the first instant of the day.
    pub open spec fn is_midnight(self) -> bool {
        self.hour == 0 && self.minute == 0 && self.second == 0 && self.nanosecond == 0
    }
}

/// A non-negative interval of hours, minutes, seconds and a sub-second part.
#[derive(Clone, Copy, PartialEq, Eq, Debug, Structural)]
pub struct CellDuration {
    pub seconds: u64,
    pub nanoseconds: u32,
}

impl CellDuration {
    pub open spec fn wf(self) -> bool {
        self.nanoseconds < 1_000_000_000
    }
}

pub enum Value {
    Empty,
    Boolean(bool),
    /// The decimal literal of a 64-bit floating-point number.
    Number(String),
    /// The decimal literal of a 64-bit floating-point number.
    Percentage(String),
    /// Currency code and the decimal literal of the amount.
    Currency(String, String),
    Text(String),
    TextM(TextVec),
    DateTime(CellDateTime),
    TimeDuration(CellDuration),
}

pub enum ValueView {
    Empty,
    Boolean(bool),
    Number(Seq<char>),
    Percentage(Seq<char>),
    Currency(Seq<char>, Seq<char>),
    Text(Seq<char>),
    TextM(Seq<Seq<char>>),
    DateTime(CellDateTime),
    TimeDuration(CellDuration),
}

impl View for Value {
    type V = ValueView;

    open spec fn view(&self) -> ValueView {
        match self {
            Value::Empty => ValueView::Empty,
            Value::Boolean(b) => ValueView::Boolean(*b),
            Value::Number(s) => ValueView::Number(s@),
            Value::Percentage(s) => ValueView::Percentage(s@),
            Value::Currency(c, s) => ValueView::Currency(c@, s@),
            Value::Text(s) => ValueView::Text(s@),
            Value::TextM(t) => ValueView::TextM(t@),
            Value::DateTime(d) => ValueView::DateTime(*d),
            Value::TimeDuration(d) => ValueView::TimeDuration(*d),
        }
    }
}

impl ValueView {
    pub open spec fn value_type(self) -> ValueType {
        match self {
            ValueView::Empty => ValueType::Empty,
            ValueView::Boolean(_) => ValueType::Boolean,
            ValueView::Number(_) => ValueType::Number,
            ValueView::Percentage(_) => ValueType::Percentage,
            ValueView::Currency(_, _) => ValueType::Currency,
            ValueView::Text(_) => ValueType::Text,
            ValueView::TextM(_) => ValueType::TextM,
            ValueView::DateTime(_) => ValueType::DateTime,
            ValueView::TimeDuration(_) => ValueType::TimeDuration,
        }
    }

    /// Validity of a value: numeric literals have the shape of a
    /// floating-point literal, calendar and clock fields are in range.
    pub open spec fn wf(self) -> bool {
        match self {
            ValueView::Number(s) => is_f64_literal(s),
            ValueView::Percentage(s) => is_f64_literal(s),
            ValueView::Currency(_, s) => is_f64_literal(s),
            ValueView::DateTime(d) => d.wf(),
            ValueView::TimeDuration(d) => d.wf(),
            _ => true,
        }
    }
}

impl Value {
    /// The plain type tag of this value.
    pub fn value_type(&self) -> (t: ValueType)
        ensures
            t == self@.value_type(),
    {
        match self {
            Value::Empty => ValueType::Empty,
            Value::Boolean(_) => ValueType::Boolean,
            Value::Number(_) => ValueType::Number,
            Value::Percentage(_) => ValueType::Percentage,
            Value::Currency(_, _) => ValueType::Currency,
            Value::Text(_) => ValueType::Text,
            Value::TextM(_) => ValueType::TextM,
            Value::DateTime(_) => ValueType::DateTime,
            Value::TimeDuration(_) => ValueType::TimeDuration,
        }
    }

    /// The bool inside a Boolean value, the default otherwise.
    pub fn as_bool_or(&self, d: bool) -> (r: bool)
        ensures
            r == match self@ {
                ValueView::Boolean(b) => b,
                _ => d,
            },
    {
        match self {
            Value::Boolean(b) => *b,
            _ => d,
        }
    }

    /// The text inside a Text value, the default otherwise.
    pub fn as_str_or<'a>(&'a self, d: &'a str) -> (r: &'a str)
        ensures
            r@ == match self@ {
                ValueView::Text(s) => s,
                _ => d@,
            },
    {
        match self {
            Value::Text(s) => s.as_str(),
            _ => d,
        }
    }

    /// The numeric literal of a Number, Currency or Percentage value, the
    /// default otherwise.
    pub fn as_literal_or<'a>(&'a self, d: &'a str) -> (r: &'a str)
        ensures
            r@ == match self@ {
                ValueView::Number(s) => s,
                ValueView::Currency(_, s) => s,
                ValueView::Percentage(s) => s,
                _ => d@,
            },
    {
        match self {
            Value::Number(s) => s.as_str(),
            Value::Currency(_, s) => s.as_str(),
            Value::Percentage(s) => s.as_str(),
            _ => d,
        }
    }

    /// The date and time inside a DateTime value, the default otherwise.
    pub fn as_datetime_or(&self, d: CellDateTime) -> (r: CellDateTime)
        ensures
            r == match self@ {
                ValueView::DateTime(dt) => dt,
                _ => d,
            },
    {
        match self {
            Value::DateTime(dt) => *dt,
            _ => d,
        }
    }

    /// The date and time inside a DateTime value, if there is one.
    pub fn as_datetime_opt(&self) -> (r: Option<CellDateTime>)
        ensures
            r == match self@ {
                ValueView::DateTime(dt) => Some(dt),
                _ => None::<CellDateTime>,
            },
    {
        match self {
            Value::DateTime(dt) => Some(*dt),
            _ => None,
        }
    }

    /// The interval inside a TimeDuration value, the default otherwise.
    pub fn as_timeduration_or(&self, d: CellDuration) -> (r: CellDuration)
        ensures
            r == match self@ {
                ValueView::TimeDuration(td) => td,
                _ => d,
            },
    {
        match self {
            Value::TimeDuration(td) => *td,
            _ => d,
        }
    }

    /// A currency value, provided the amount has the shape of a
    /// floating-point literal.
    pub fn currency(currency: &str, value: &str) -> (r: Option<Value>)
        ensures
            match r {
                Some(v) => is_f64_literal(value@) && v@ == ValueView::Currency(currency@, value@),
                None => !is_f64_literal(value@),
            },
    {
        if crate::numtext::check_f64_literal(value) {
            Some(Value::Currency(currency.to_owned(), value.to_owned()))
        } else {
            None
        }
    }

    /// A percentage value, provided the amount has the shape of a
    /// floating-point literal.
    pub fn percentage(value: &str) -> (r: Option<Value>)
        ensures
            match r {
                Some(v) => is_f64_literal(value@) && v@ == ValueView::Percentage(value@),
                None => !is_f64_literal(value@),
            },
    {
        if crate::numtext::check_f64_literal(value) {
            Some(Value::Percentage(value.to_owned()))
        } else {
            None
        }
    }

    /// A number value, provided the literal has the shape of a
    /// floating-point literal.
    pub fn number(value: &str) -> (r: Option<Value>)
        ensures
            match r {
                Some(v) => is_f64_literal(value@) && v@ == ValueView::Number(value@),
                None => !is_f64_literal(value@),
            },
    {
        if crate::numtext::check_f64_literal(value) {
            Some(Value::Number(value.to_owned()))
        } else {
            None
        }
    }

    /// A copy with the same view.
    pub fn dup(&self) -> (r: Value)
        ensures
            r@ == self@,
    {
        match self {
            Value::Empty => Value::Empty,
            Value::Boolean(b) => Value::Boolean(*b),
            Value::Number(s) => Value::Number(s.clone()),
            Value::Percentage(s) => Value::Percentage(s.clone()),
            Value::Currency(c, s) => Value::Currency(c.clone(), s.clone()),
            Value::Text(s) => Value::Text(s.clone()),
            Value::TextM(t) => Value::TextM(t.dup()),
            Value::DateTime(d) => Value::DateTime(*d),
            Value::TimeDuration(d) => Value::TimeDuration(*d),
        }
    }
}

impl Default for Value {
    fn default() -> (r: Self)
        ensures
            r@ == ValueView::Empty,
    {
        Value::Empty
    }
}

} // verus!

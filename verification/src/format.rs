//! Value formats: named, ordered token sequences that say how a typed value
//! renders as text.
//!
//! The order of the parts is the rendered token order and is kept exactly as
//! encountered.

use vstd::prelude::*;
use crate::maps::StrMap;
use crate::value::ValueType;

verus! {

#[derive(Clone, Copy, PartialEq, Eq, Debug, Structural)]
pub enum FormatPartType {
    Boolean,
    Number,
    Scientific,
    Day,
    Month,
    Year,
    Era,
    DayOfWeek,
    WeekOfYear,
    Quarter,
    Hours,
    Minutes,
    Seconds,
    Fraction,
    AmPm,
    EmbeddedText,
    TextContent,
    Text,
    CurrencySymbol,
    StyleMap,
}

/// One token of a value format: its kind, a property bag, and an optional
/// literal text payload.
pub struct FormatPart {
    part_type: FormatPartType,
    prp: StrMap<String>,
    content: Option<String>,
}

pub struct FormatPartView {
    pub part_type: FormatPartType,
    pub prp: Map<Seq<char>, Seq<char>>,
    pub content: Option<Seq<char>>,
}

impl View for FormatPart {
    type V = FormatPartView;

    closed spec fn view(&self) -> FormatPartView {
        FormatPartView {
            part_type: self.part_type,
            prp: self.prp@,
            content: self.content.deep_view(),
        }
    }
}

impl DeepView for FormatPart {
    type V = FormatPartView;

    open spec fn deep_view(&self) -> FormatPartView {
        self.view()
    }
}

impl FormatPart {
    pub fn new(part_type: FormatPartType) -> (r: FormatPart)
        ensures
            r@ == (FormatPartView { part_type: part_type, prp: Map::empty(), content: None }),
    {
        FormatPart { part_type: part_type, prp: StrMap::new(), content: None }
    }

    pub fn part_type(&self) -> (r: FormatPartType)
        ensures
            r == self@.part_type,
    {
        self.part_type
    }

    pub fn set_prp(&mut self, k: &str, v: String)
        ensures
            final(self)@ == (FormatPartView {
                prp: old(self)@.prp.insert(k@, v@),
                ..old(self)@
            }),
    {
        self.prp.insert(k.to_owned(), v);
    }

    pub fn prp(&self, k: &str) -> (r: Option<&String>)
        ensures
            match r {
                Some(v) => self@.prp.contains_key(k@) && v@ == self@.prp[k@],
                None => !self@.prp.contains_key(k@),
            },
    {
        self.prp.get(k)
    }

    pub fn set_content(&mut self, content: String)
        ensures
            final(self)@ == (FormatPartView { content: Some(content@), ..old(self)@ }),
    {
        self.content = Some(content);
    }

    pub fn content(&self) -> (r: Option<&String>)
        ensures
            match r {
                Some(c) => self@.content == Some(c@),
                None => self@.content is None,
            },
    {
        self.content.as_ref()
    }
}

/// A named format: the value type it renders and its ordered parts.
pub struct ValueFormat {
    name: String,
    v_type: ValueType,
    prp: StrMap<String>,
    parts: Vec<FormatPart>,
}

pub struct ValueFormatView {
    pub name: Seq<char>,
    pub v_type: ValueType,
    pub prp: Map<Seq<char>, Seq<char>>,
    pub parts: Seq<FormatPartView>,
}

impl View for ValueFormat {
    type V = ValueFormatView;

    closed spec fn view(&self) -> ValueFormatView {
        ValueFormatView {
            name: self.name@,
            v_type: self.v_type,
            prp: self.prp@,
            parts: self.parts.deep_view(),
        }
    }
}

impl ValueFormat {
    pub fn new() -> (r: ValueFormat)
        ensures
            r@ == (ValueFormatView {
                name: Seq::empty(),
                v_type: ValueType::Text,
                prp: Map::empty(),
                parts: Seq::empty(),
            }),
    {
        let r = ValueFormat {
            name: String::new(),
            v_type: ValueType::Text,
            prp: StrMap::new(),
            parts: Vec::new(),
        };
        proof {
            assert(r.parts.deep_view() =~= Seq::<FormatPartView>::empty());
        }
        r
    }

    pub fn name(&self) -> (r: &String)
        ensures
            r@ == self@.name,
    {
        &self.name
    }

    pub fn set_name(&mut self, name: String)
        ensures
            final(self)@ == (ValueFormatView { name: name@, ..old(self)@ }),
    {
        self.name = name;
    }

    pub fn value_type(&self) -> (r: ValueType)
        ensures
            r == self@.v_type,
    {
        self.v_type
    }

    pub fn set_value_type(&mut self, v_type: ValueType)
        ensures
            final(self)@ == (ValueFormatView { v_type: v_type, ..old(self)@ }),
    {
        self.v_type = v_type;
    }

    pub fn set_prp(&mut self, k: &str, v: String)
        ensures
            final(self)@ == (ValueFormatView {
                prp: old(self)@.prp.insert(k@, v@),
                ..old(self)@
            }),
    {
        self.prp.insert(k.to_owned(), v);
    }

    pub fn prp(&self, k: &str) -> (r: Option<&String>)
        ensures
            match r {
                Some(v) => self@.prp.contains_key(k@) && v@ == self@.prp[k@],
                None => !self@.prp.contains_key(k@),
            },
    {
        self.prp.get(k)
    }

    /// Appends a part; encounter order is preserved.
    pub fn push_part(&mut self, part: FormatPart)
        ensures
            final(self)@ == (ValueFormatView {
                parts: old(self)@.parts.push(part@),
                ..old(self)@
            }),
    {
        let ghost p = part@;
        self.parts.push(part);
        proof {
            assert(self.parts.deep_view() =~= old(self).parts.deep_view().push(p));
        }
    }

    pub fn num_parts(&self) -> (n: usize)
        ensures
            n == self@.parts.len(),
    {
        self.parts.len()
    }

    pub fn part(&self, i: usize) -> (r: &FormatPart)
        requires
            i < self@.parts.len(),
        ensures
            r@ == self@.parts[i as int],
    {
        &self.parts[i]
    }
}

} // verus!

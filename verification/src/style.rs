//! Styles, font declarations and page layouts.
//!
//! A style carries a name, a family tag, an optional parent-style name, an
//! optional value-format name, and one property bag per family; properties
//! are plain string pairs with last-write-wins semantics.  Name references
//! are never validated here: a dangling name simply finds nothing at lookup
//! time.

use vstd::prelude::*;
use crate::maps::StrMap;

verus! {

#[derive(Clone, Copy, PartialEq, Eq, Debug, Structural)]
pub enum StyleFor {
    Table,
    TableColumn,
    TableRow,
    TableCell,
    Other,
}

impl Default for StyleFor {
    fn default() -> (r: Self)
        ensures
            r == StyleFor::Other,
    {
        StyleFor::Other
    }
}

pub struct Style {
    name: String,
    family: StyleFor,
    parent: Option<String>,
    value_format: Option<String>,
    table_prp: StrMap<String>,
    table_col_prp: StrMap<String>,
    table_row_prp: StrMap<String>,
    table_cell_prp: StrMap<String>,
    text_prp: StrMap<String>,
    paragraph_prp: StrMap<String>,
}

pub struct StyleView {
    pub name: Seq<char>,
    pub family: StyleFor,
    pub parent: Option<Seq<char>>,
    pub value_format: Option<Seq<char>>,
    pub table_prp: Map<Seq<char>, Seq<char>>,
    pub table_col_prp: Map<Seq<char>, Seq<char>>,
    pub table_row_prp: Map<Seq<char>, Seq<char>>,
    pub table_cell_prp: Map<Seq<char>, Seq<char>>,
    pub text_prp: Map<Seq<char>, Seq<char>>,
    pub paragraph_prp: Map<Seq<char>, Seq<char>>,
}

impl View for Style {
    type V = StyleView;

    closed spec fn view(&self) -> StyleView {
        StyleView {
            name: self.name@,
            family: self.family,
            parent: self.parent.deep_view(),
            value_format: self.value_format.deep_view(),
            table_prp: self.table_prp@,
            table_col_prp: self.table_col_prp@,
            table_row_prp: self.table_row_prp@,
            table_cell_prp: self.table_cell_prp@,
            text_prp: self.text_prp@,
            paragraph_prp: self.paragraph_prp@,
        }
    }
}

impl StyleView {
    /// A fresh style with the given name and family.
    pub open spec fn fresh(name: Seq<char>, family: StyleFor) -> StyleView {
        StyleView {
            name: name,
            family: family,
            parent: None,
            value_format: None,
            table_prp: Map::empty(),
            table_col_prp: Map::empty(),
            table_row_prp: Map::empty(),
            table_cell_prp: Map::empty(),
            text_prp: Map::empty(),
            paragraph_prp: Map::empty(),
        }
    }
}

impl Style {
    /// New, empty, with the family tag at its default.
    pub fn new() -> (r: Style)
        ensures
            r@ == StyleView::fresh(Seq::empty(), StyleFor::Other),
    {
        Style {
            name: String::new(),
            family: StyleFor::Other,
            parent: None,
            value_format: None,
            table_prp: StrMap::new(),
            table_col_prp: StrMap::new(),
            table_row_prp: StrMap::new(),
            table_cell_prp: StrMap::new(),
            text_prp: StrMap::new(),
            paragraph_prp: StrMap::new(),
        }
    }

    fn with_family(name: &str, value_format: &str, family: StyleFor) -> (r: Style)
        ensures
            r@ == (StyleView {
                value_format: Some(value_format@),
                ..StyleView::fresh(name@, family)
            }),
    {
        Style {
            name: name.to_owned(),
            family: family,
            parent: None,
            value_format: Some(value_format.to_owned()),
            table_prp: StrMap::new(),
            table_col_prp: StrMap::new(),
            table_row_prp: StrMap::new(),
            table_cell_prp: StrMap::new(),
            text_prp: StrMap::new(),
            paragraph_prp: StrMap::new(),
        }
    }

    /// A table style.
    pub fn table_style(name: &str, value_format: &str) -> (r: Style)
        ensures
            r@ == (StyleView {
                value_format: Some(value_format@),
                ..StyleView::fresh(name@, StyleFor::Table)
            }),
    {
        Self::with_family(name, value_format, StyleFor::Table)
    }

    /// A column style.
    pub fn col_style(name: &str, value_format: &str) -> (r: Style)
        ensures
            r@ == (StyleView {
                value_format: Some(value_format@),
                ..StyleView::fresh(name@, StyleFor::TableColumn)
            }),
    {
        Self::with_family(name, value_format, StyleFor::TableColumn)
    }

    /// A row style.
    pub fn row_style(name: &str, value_format: &str) -> (r: Style)
        ensures
            r@ == (StyleView {
                value_format: Some(value_format@),
                ..StyleView::fresh(name@, StyleFor::TableRow)
            }),
    {
        Self::with_family(name, value_format, StyleFor::TableRow)
    }

    /// A cell style.
    pub fn cell_style(name: &str, value_format: &str) -> (r: Style)
        ensures
            r@ == (StyleView {
                value_format: Some(value_format@),
                ..StyleView::fresh(name@, StyleFor::TableCell)
            }),
    {
        Self::with_family(name, value_format, StyleFor::TableCell)
    }

    pub fn name(&self) -> (r: &String)
        ensures
            r@ == self@.name,
    {
        &self.name
    }

    pub fn set_name(&mut self, name: String)
        ensures
            final(self)@ == (StyleView { name: name@, ..old(self)@ }),
    {
        self.name = name;
    }

    pub fn family(&self) -> (r: StyleFor)
        ensures
            r == self@.family,
    {
        self.family
    }

    pub fn set_family(&mut self, family: StyleFor)
        ensures
            final(self)@ == (StyleView { family: family, ..old(self)@ }),
    {
        self.family = family;
    }

    pub fn parent(&self) -> (r: Option<&String>)
        ensures
            match r {
                Some(p) => self@.parent == Some(p@),
                None => self@.parent is None,
            },
    {
        self.parent.as_ref()
    }

    pub fn set_parent(&mut self, parent: String)
        ensures
            final(self)@ == (StyleView { parent: Some(parent@), ..old(self)@ }),
    {
        self.parent = Some(parent);
    }

    pub fn value_format(&self) -> (r: Option<&String>)
        ensures
            match r {
                Some(p) => self@.value_format == Some(p@),
                None => self@.value_format is None,
            },
    {
        self.value_format.as_ref()
    }

    pub fn set_value_format(&mut self, value_format: String)
        ensures
            final(self)@ == (StyleView {
                value_format: Some(value_format@),
                ..old(self)@
            }),
    {
        self.value_format = Some(value_format);
    }

    pub fn set_table_prp(&mut self, k: &str, v: String)
        ensures
            final(self)@ == (StyleView {
                table_prp: old(self)@.table_prp.insert(k@, v@),
                ..old(self)@
            }),
    {
        self.table_prp.insert(k.to_owned(), v);
    }

    pub fn set_table_col_prp(&mut self, k: &str, v: String)
        ensures
            final(self)@ == (StyleView {
                table_col_prp: old(self)@.table_col_prp.insert(k@, v@),
                ..old(self)@
            }),
    {
        self.table_col_prp.insert(k.to_owned(), v);
    }

    pub fn set_table_row_prp(&mut self, k: &str, v: String)
        ensures
            final(self)@ == (StyleView {
                table_row_prp: old(self)@.table_row_prp.insert(k@, v@),
                ..old(self)@
            }),
    {
        self.table_row_prp.insert(k.to_owned(), v);
    }

    pub fn set_table_cell_prp(&mut self, k: &str, v: String)
        ensures
            final(self)@ == (StyleView {
                table_cell_prp: old(self)@.table_cell_prp.insert(k@, v@),
                ..old(self)@
            }),
    {
        self.table_cell_prp.insert(k.to_owned(), v);
    }

    pub fn set_text_prp(&mut self, k: &str, v: String)
        ensures
            final(self)@ == (StyleView {
                text_prp: old(self)@.text_prp.insert(k@, v@),
                ..old(self)@
            }),
    {
        self.text_prp.insert(k.to_owned(), v);
    }

    pub fn set_paragraph_prp(&mut self, k: &str, v: String)
        ensures
            final(self)@ == (StyleView {
                paragraph_prp: old(self)@.paragraph_prp.insert(k@, v@),
                ..old(self)@
            }),
    {
        self.paragraph_prp.insert(k.to_owned(), v);
    }

    pub fn table_prp(&self, k: &str) -> (r: Option<&String>)
        ensures
            match r {
                Some(v) => self@.table_prp.contains_key(k@) && v@ == self@.table_prp[k@],
                None => !self@.table_prp.contains_key(k@),
            },
    {
        self.table_prp.get(k)
    }

    pub fn table_col_prp(&self, k: &str) -> (r: Option<&String>)
        ensures
            match r {
                Some(v) => self@.table_col_prp.contains_key(k@) && v@ == self@.table_col_prp[k@],
                None => !self@.table_col_prp.contains_key(k@),
            },
    {
        self.table_col_prp.get(k)
    }

    pub fn table_row_prp(&self, k: &str) -> (r: Option<&String>)
        ensures
            match r {
                Some(v) => self@.table_row_prp.contains_key(k@) && v@ == self@.table_row_prp[k@],
                None => !self@.table_row_prp.contains_key(k@),
            },
    {
        self.table_row_prp.get(k)
    }

    pub fn table_cell_prp(&self, k: &str) -> (r: Option<&String>)
        ensures
            match r {
                Some(v) => self@.table_cell_prp.contains_key(k@) && v@
                    == self@.table_cell_prp[k@],
                None => !self@.table_cell_prp.contains_key(k@),
            },
    {
        self.table_cell_prp.get(k)
    }

    pub fn text_prp(&self, k: &str) -> (r: Option<&String>)
        ensures
            match r {
                Some(v) => self@.text_prp.contains_key(k@) && v@ == self@.text_prp[k@],
                None => !self@.text_prp.contains_key(k@),
            },
    {
        self.text_prp.get(k)
    }

    pub fn paragraph_prp(&self, k: &str) -> (r: Option<&String>)
        ensures
            match r {
                Some(v) => self@.paragraph_prp.contains_key(k@) && v@ == self@.paragraph_prp[k@],
                None => !self@.paragraph_prp.contains_key(k@),
            },
    {
        self.paragraph_prp.get(k)
    }
}

/// A font declaration: a name and its property bag.
pub struct FontFaceDecl {
    name: String,
    prp: StrMap<String>,
}

pub struct FontFaceDeclView {
    pub name: Seq<char>,
    pub prp: Map<Seq<char>, Seq<char>>,
}

impl View for FontFaceDecl {
    type V = FontFaceDeclView;

    closed spec fn view(&self) -> FontFaceDeclView {
        FontFaceDeclView { name: self.name@, prp: self.prp@ }
    }
}

impl FontFaceDecl {
    pub fn new() -> (r: FontFaceDecl)
        ensures
            r@ == (FontFaceDeclView { name: Seq::empty(), prp: Map::empty() }),
    {
        FontFaceDecl { name: String::new(), prp: StrMap::new() }
    }

    pub fn name(&self) -> (r: &String)
        ensures
            r@ == self@.name,
    {
        &self.name
    }

    pub fn set_name(&mut self, name: String)
        ensures
            final(self)@ == (FontFaceDeclView { name: name@, ..old(self)@ }),
    {
        self.name = name;
    }

    pub fn set_prp(&mut self, k: &str, v: String)
        ensures
            final(self)@ == (FontFaceDeclView {
                prp: old(self)@.prp.insert(k@, v@),
                ..old(self)@
            }),
    {
        self.prp.insert(k.to_owned(), v);
    }

    pub fn prp(&self, k: &str) -> (r: Option<&String>)
        ensures
            match r {
                Some(v) => self@.prp.contains_key(k@) && v@ == self@.prp[k@],
                None => !self@.prp.contains_key(k@),
            },
    {
        self.prp.get(k)
    }
}

/// A page layout: a name and its property bag.
pub struct PageLayout {
    name: String,
    prp: StrMap<String>,
}

pub struct PageLayoutView {
    pub name: Seq<char>,
    pub prp: Map<Seq<char>, Seq<char>>,
}

impl View for PageLayout {
    type V = PageLayoutView;

    closed spec fn view(&self) -> PageLayoutView {
        PageLayoutView { name: self.name@, prp: self.prp@ }
    }
}

impl PageLayout {
    pub fn new(name: &str) -> (r: PageLayout)
        ensures
            r@ == (PageLayoutView { name: name@, prp: Map::empty() }),
    {
        PageLayout { name: name.to_owned(), prp: StrMap::new() }
    }

    pub fn name(&self) -> (r: &String)
        ensures
            r@ == self@.name,
    {
        &self.name
    }

    pub fn set_name(&mut self, name: String)
        ensures
            final(self)@ == (PageLayoutView { name: name@, ..old(self)@ }),
    {
        self.name = name;
    }

    pub fn set_prp(&mut self, k: &str, v: String)
        ensures
            final(self)@ == (PageLayoutView {
                prp: old(self)@.prp.insert(k@, v@),
                ..old(self)@
            }),
    {
        self.prp.insert(k.to_owned(), v);
    }

    pub fn prp(&self, k: &str) -> (r: Option<&String>)
        ensures
            match r {
                Some(v) => self@.prp.contains_key(k@) && v@ == self@.prp[k@],
                None => !self@.prp.contains_key(k@),
            },
    {
        self.prp.get(k)
    }
}

} // verus!

//! Reading of OpenDocument spreadsheet content.
//!
//! A workbook is an ordered list of sheets together with name-keyed catalogs
//! of fonts, styles, value formats and page layouts.  A sheet is a sparse
//! grid of cells: a coordinate without an entry means an empty, unspanned,
//! unstyled cell, and nothing ever materializes such coordinates.  The
//! decoder in [`read`] fills these structures from the document's XML.

pub mod archive;
pub mod cellvalue;
pub mod error;
pub mod format;
pub mod maps;
pub mod numtext;
pub mod read;
pub mod refs;
pub mod style;
pub mod temporal;
pub mod text;
pub mod value;
pub mod xml;

use vstd::prelude::*;
use crate::format::{ValueFormat, ValueFormatView};
use crate::maps::{NumMap, StrMap};
use crate::refs::{CellRange, ColRange, RowRange};
use crate::style::{FontFaceDecl, FontFaceDeclView, PageLayout, PageLayoutView, Style, StyleView};
use crate::value::{Value, ValueType, ValueView, value_type_key, value_type_key_exec};

verus! {

/// Cell index type for row/column indexes.
pub type Ucell = u32;

/// Appends `append` to the accumulated text, starting a fresh string when
/// nothing has been accumulated yet.
pub fn text_append(text: Option<String>, append: &str) -> (r: Option<String>)
    ensures
        match (text, r) {
            (Some(t), Some(s)) => s@ == t@ + append@,
            (None, Some(s)) => s@ == append@,
            _ => false,
        },
{
    match text {
        Some(s) => Some(s.concat(append)),
        None => Some(append.to_owned()),
    }
}

/// Appends `append` when text has been accumulated, otherwise starts from
/// `default`.
pub fn text_append_or(text: Option<String>, append: &str, default: &str) -> (r: Option<String>)
    ensures
        match (text, r) {
            (Some(t), Some(s)) => s@ == t@ + append@,
            (None, Some(s)) => s@ == default@,
            _ => false,
        },
{
    match text {
        Some(s) => Some(s.concat(append)),
        None => Some(default.to_owned()),
    }
}

/// The packed grid key of a coordinate pair.
pub open spec fn cell_key(row: Ucell, col: Ucell) -> u64 {
    (row as int * 0x1_0000_0000 + col as int) as u64
}

pub open spec fn cell_key_row(k: u64) -> Ucell {
    (k / 0x1_0000_0000) as u32
}

pub open spec fn cell_key_col(k: u64) -> Ucell {
    (k % 0x1_0000_0000) as u32
}

pub fn cell_key_exec(row: Ucell, col: Ucell) -> (k: u64)
    ensures
        k == cell_key(row, col),
        cell_key_row(k) == row,
        cell_key_col(k) == col,
{
    let k = row as u64 * 0x1_0000_0000 + col as u64;
    proof {
        vstd::arithmetic::div_mod::lemma_fundamental_div_mod_converse(
            k as int,
            0x1_0000_0000,
            row as int,
            col as int,
        );
    }
    k
}

/// One cell: a typed value, an opaque formula, a style name, and its spans.
pub struct SCell {
    value: Value,
    formula: Option<String>,
    style: Option<String>,
    span: (Ucell, Ucell),
}

pub struct CellView {
    pub value: ValueView,
    pub formula: Option<Seq<char>>,
    pub style: Option<Seq<char>>,
    pub row_span: Ucell,
    pub col_span: Ucell,
}

impl CellView {
    /// What an absent grid entry means.
    pub open spec fn empty_cell() -> CellView {
        CellView { value: ValueView::Empty, formula: None, style: None, row_span: 1, col_span: 1 }
    }
}

impl View for SCell {
    type V = CellView;

    closed spec fn view(&self) -> CellView {
        CellView {
            value: self.value@,
            formula: self.formula.deep_view(),
            style: self.style.deep_view(),
            row_span: self.span.0,
            col_span: self.span.1,
        }
    }
}

impl DeepView for SCell {
    type V = CellView;

    open spec fn deep_view(&self) -> CellView {
        self.view()
    }
}

impl SCell {
    /// New, empty.
    pub fn new() -> (r: SCell)
        ensures
            r@ == CellView::empty_cell(),
    {
        SCell { value: Value::Empty, formula: None, style: None, span: (1, 1) }
    }

    /// New, with a value.
    pub fn with_value(value: Value) -> (r: SCell)
        ensures
            r@ == (CellView { value: value@, ..CellView::empty_cell() }),
    {
        SCell { value, formula: None, style: None, span: (1, 1) }
    }

    pub fn value(&self) -> (r: &Value)
        ensures
            r@ == self@.value,
    {
        &self.value
    }

    pub fn set_value(&mut self, value: Value)
        ensures
            final(self)@ == (CellView { value: value@, ..old(self)@ }),
    {
        self.value = value;
    }

    pub fn formula(&self) -> (r: Option<&String>)
        ensures
            match r {
                Some(f) => self@.formula == Some(f@),
                None => self@.formula is None,
            },
    {
        self.formula.as_ref()
    }

    pub fn set_formula(&mut self, formula: String)
        ensures
            final(self)@ == (CellView { formula: Some(formula@), ..old(self)@ }),
    {
        self.formula = Some(formula);
    }

    pub fn style(&self) -> (r: Option<&String>)
        ensures
            match r {
                Some(s) => self@.style == Some(s@),
                None => self@.style is None,
            },
    {
        self.style.as_ref()
    }

    pub fn set_style(&mut self, style: String)
        ensures
            final(self)@ == (CellView { style: Some(style@), ..old(self)@ }),
    {
        self.style = Some(style);
    }

    /// Sets the row span; spans are always at least one.
    pub fn set_row_span(&mut self, rows: Ucell)
        requires
            rows >= 1,
        ensures
            final(self)@ == (CellView { row_span: rows, ..old(self)@ }),
    {
        self.span.0 = rows;
    }

    pub fn row_span(&self) -> (r: Ucell)
        ensures
            r == self@.row_span,
    {
        self.span.0
    }

    /// Sets the column span; spans are always at least one.
    pub fn set_col_span(&mut self, cols: Ucell)
        requires
            cols >= 1,
        ensures
            final(self)@ == (CellView { col_span: cols, ..old(self)@ }),
    {
        self.span.1 = cols;
    }

    pub fn col_span(&self) -> (r: Ucell)
        ensures
            r == self@.col_span,
    {
        self.span.1
    }

    /// A copy with the same view.
    pub fn dup(&self) -> (r: SCell)
        ensures
            r@ == self@,
    {
        SCell {
            value: self.value.dup(),
            formula: match &self.formula {
                Some(f) => Some(f.clone()),
                None => None,
            },
            style: match &self.style {
                Some(s) => Some(s.clone()),
                None => None,
            },
            span: (self.span.0, self.span.1),
        }
    }
}

/// The cell at a coordinate, with absence meaning the empty cell.
pub open spec fn cell_or_empty(m: Map<u64, CellView>, k: u64) -> CellView {
    if m.contains_key(k) {
        m[k]
    } else {
        CellView::empty_cell()
    }
}

/// One sheet: name, table style, the sparse grid, per-column and per-row
/// style names, header ranges and print ranges.
pub struct Sheet {
    name: String,
    style: Option<String>,
    data: NumMap<SCell>,
    col_style: NumMap<String>,
    col_cell_style: NumMap<String>,
    row_style: NumMap<String>,
    header_rows: Option<RowRange>,
    header_cols: Option<ColRange>,
    print_ranges: Option<Vec<CellRange>>,
}

pub struct SheetView {
    pub name: Seq<char>,
    pub style: Option<Seq<char>>,
    /// Grid entries, keyed by [`cell_key`].
    pub data: Map<u64, CellView>,
    pub col_style: Map<u64, Seq<char>>,
    pub col_cell_style: Map<u64, Seq<char>>,
    pub row_style: Map<u64, Seq<char>>,
    pub header_rows: Option<RowRange>,
    pub header_cols: Option<ColRange>,
    pub print_ranges: Option<Seq<CellRange>>,
}

impl SheetView {
    pub open spec fn empty_sheet() -> SheetView {
        SheetView {
            name: Seq::empty(),
            style: None,
            data: Map::empty(),
            col_style: Map::empty(),
            col_cell_style: Map::empty(),
            row_style: Map::empty(),
            header_rows: None,
            header_cols: None,
            print_ranges: None,
        }
    }
}

impl View for Sheet {
    type V = SheetView;

    closed spec fn view(&self) -> SheetView {
        SheetView {
            name: self.name@,
            style: self.style.deep_view(),
            data: self.data@,
            col_style: self.col_style@,
            col_cell_style: self.col_cell_style@,
            row_style: self.row_style@,
            header_rows: self.header_rows,
            header_cols: self.header_cols,
            print_ranges: match &self.print_ranges {
                Some(v) => Some(v@),
                None => None,
            },
        }
    }
}

impl DeepView for Sheet {
    type V = SheetView;

    open spec fn deep_view(&self) -> SheetView {
        self.view()
    }
}

impl Sheet {
    /// New, empty.
    pub fn new() -> (r: Sheet)
        ensures
            r@ == SheetView::empty_sheet(),
    {
        Sheet {
            name: String::new(),
            style: None,
            data: NumMap::new(),
            col_style: NumMap::new(),
            col_cell_style: NumMap::new(),
            row_style: NumMap::new(),
            header_rows: None,
            header_cols: None,
            print_ranges: None,
        }
    }

    /// New, empty, with a name.
    pub fn with_name(name: &str) -> (r: Sheet)
        ensures
            r@ == (SheetView { name: name@, ..SheetView::empty_sheet() }),
    {
        let mut s = Sheet::new();
        s.set_name(name);
        s
    }

    pub fn set_name(&mut self, name: &str)
        ensures
            final(self)@ == (SheetView { name: name@, ..old(self)@ }),
    {
        self.name = name.to_owned();
    }

    pub fn name(&self) -> (r: &String)
        ensures
            r@ == self@.name,
    {
        &self.name
    }

    pub fn set_style(&mut self, style: &str)
        ensures
            final(self)@ == (SheetView { style: Some(style@), ..old(self)@ }),
    {
        self.style = Some(style.to_owned());
    }

    pub fn style(&self) -> (r: Option<&String>)
        ensures
            match r {
                Some(s) => self@.style == Some(s@),
                None => self@.style is None,
            },
    {
        self.style.as_ref()
    }

    /// Column wide style.
    pub fn set_column_style(&mut self, col: Ucell, style: &str)
        ensures
            final(self)@ == (SheetView {
                col_style: old(self)@.col_style.insert(col as u64, style@),
                ..old(self)@
            }),
    {
        self.col_style.insert(col as u64, style.to_owned());
    }

    pub fn column_style(&self, col: Ucell) -> (r: Option<&String>)
        ensures
            match r {
                Some(s) => self@.col_style.contains_key(col as u64) && s@ == self@.col_style[
                    col as u64],
                None => !self@.col_style.contains_key(col as u64),
            },
    {
        self.col_style.get(col as u64)
    }

    /// Default cell style for a column.
    pub fn set_column_cell_style(&mut self, col: Ucell, style: &str)
        ensures
            final(self)@ == (SheetView {
                col_cell_style: old(self)@.col_cell_style.insert(col as u64, style@),
                ..old(self)@
            }),
    {
        self.col_cell_style.insert(col as u64, style.to_owned());
    }

    pub fn column_cell_style(&self, col: Ucell) -> (r: Option<&String>)
        ensures
            match r {
                Some(s) => self@.col_cell_style.contains_key(col as u64) && s@
                    == self@.col_cell_style[col as u64],
                None => !self@.col_cell_style.contains_key(col as u64),
            },
    {
        self.col_cell_style.get(col as u64)
    }

    /// Row style.
    pub fn set_row_style(&mut self, row: Ucell, style: &str)
        ensures
            final(self)@ == (SheetView {
                row_style: old(self)@.row_style.insert(row as u64, style@),
                ..old(self)@
            }),
    {
        self.row_style.insert(row as u64, style.to_owned());
    }

    pub fn row_style(&self, row: Ucell) -> (r: Option<&String>)
        ensures
            match r {
                Some(s) => self@.row_style.contains_key(row as u64) && s@ == self@.row_style[
                    row as u64],
                None => !self@.row_style.contains_key(row as u64),
            },
    {
        self.row_style.get(row as u64)
    }

    /// The cell at the coordinate, if the grid holds an entry there.
    pub fn cell(&self, row: Ucell, col: Ucell) -> (r: Option<&SCell>)
        ensures
            match r {
                Some(c) => self@.data.contains_key(cell_key(row, col)) && c@ == self@.data[
                    cell_key(row, col)],
                None => !self@.data.contains_key(cell_key(row, col)),
            },
    {
        let k = cell_key_exec(row, col);
        self.data.get(k)
    }

    /// Makes sure the grid holds an entry at the coordinate.
    pub fn create_cell(&mut self, row: Ucell, col: Ucell)
        ensures
            final(self)@ == (SheetView {
                data: old(self)@.data.insert(
                    cell_key(row, col),
                    cell_or_empty(old(self)@.data, cell_key(row, col)),
                ),
                ..old(self)@
            }),
    {
        let k = cell_key_exec(row, col);
        let c = match self.data.remove(k) {
            Some(c) => c,
            None => SCell::new(),
        };
        self.data.insert(k, c);
        proof {
            assert(self.data@ =~= old(self)@.data.insert(
                cell_key(row, col),
                cell_or_empty(old(self)@.data, cell_key(row, col)),
            ));
        }
    }

    /// Adds a cell, replacing an existing one; hands back what stood there.
    pub fn add_cell(&mut self, row: Ucell, col: Ucell, cell: SCell) -> (r: Option<SCell>)
        ensures
            final(self)@ == (SheetView {
                data: old(self)@.data.insert(cell_key(row, col), cell@),
                ..old(self)@
            }),
            match r {
                Some(c) => old(self)@.data.contains_key(cell_key(row, col)) && c@ == old(
                    self,
                )@.data[cell_key(row, col)],
                None => !old(self)@.data.contains_key(cell_key(row, col)),
            },
    {
        let k = cell_key_exec(row, col);
        let r = self.data.remove(k);
        self.data.insert(k, cell);
        proof {
            assert(self.data@ =~= old(self)@.data.insert(cell_key(row, col), cell@));
        }
        r
    }

    /// Removes a cell.
    pub fn remove_cell(&mut self, row: Ucell, col: Ucell) -> (r: Option<SCell>)
        ensures
            final(self)@ == (SheetView {
                data: old(self)@.data.remove(cell_key(row, col)),
                ..old(self)@
            }),
            match r {
                Some(c) => old(self)@.data.contains_key(cell_key(row, col)) && c@ == old(
                    self,
                )@.data[cell_key(row, col)],
                None => !old(self)@.data.contains_key(cell_key(row, col)),
            },
    {
        let k = cell_key_exec(row, col);
        self.data.remove(k)
    }

    /// Sets a value, creating the cell if necessary.
    pub fn set_value(&mut self, row: Ucell, col: Ucell, value: Value)
        ensures
            final(self)@ == (SheetView {
                data: old(self)@.data.insert(
                    cell_key(row, col),
                    (CellView {
                        value: value@,
                        ..cell_or_empty(old(self)@.data, cell_key(row, col))
                    }),
                ),
                ..old(self)@
            }),
    {
        let k = cell_key_exec(row, col);
        let mut c = match self.data.remove(k) {
            Some(c) => c,
            None => SCell::new(),
        };
        c.set_value(value);
        self.data.insert(k, c);
        proof {
            assert(self.data@ =~= old(self)@.data.insert(
                cell_key(row, col),
                (CellView {
                    value: value@,
                    ..cell_or_empty(old(self)@.data, cell_key(row, col))
                }),
            ));
        }
    }

    /// Sets a value and a style, creating the cell if necessary.
    pub fn set_styled_value(&mut self, row: Ucell, col: Ucell, value: Value, style: &str)
        ensures
            final(self)@ == (SheetView {
                data: old(self)@.data.insert(
                    cell_key(row, col),
                    (CellView {
                        value: value@,
                        style: Some(style@),
                        ..cell_or_empty(old(self)@.data, cell_key(row, col))
                    }),
                ),
                ..old(self)@
            }),
    {
        let k = cell_key_exec(row, col);
        let mut c = match self.data.remove(k) {
            Some(c) => c,
            None => SCell::new(),
        };
        c.set_value(value);
        c.set_style(style.to_owned());
        self.data.insert(k, c);
        proof {
            assert(self.data@ =~= old(self)@.data.insert(
                cell_key(row, col),
                (CellView {
                    value: value@,
                    style: Some(style@),
                    ..cell_or_empty(old(self)@.data, cell_key(row, col))
                }),
            ));
        }
    }

    /// The value at a coordinate; an absent entry reads as Empty.
    pub fn value(&self, row: Ucell, col: Ucell) -> (r: Value)
        ensures
            r@ == cell_or_empty(self@.data, cell_key(row, col)).value,
    {
        let k = cell_key_exec(row, col);
        match self.data.get(k) {
            Some(c) => c.value().dup(),
            None => Value::Empty,
        }
    }

    /// Sets a formula, creating the cell if necessary.
    pub fn set_formula(&mut self, row: Ucell, col: Ucell, formula: &str)
        ensures
            final(self)@ == (SheetView {
                data: old(self)@.data.insert(
                    cell_key(row, col),
                    (CellView {
                        formula: Some(formula@),
                        ..cell_or_empty(old(self)@.data, cell_key(row, col))
                    }),
                ),
                ..old(self)@
            }),
    {
        let k = cell_key_exec(row, col);
        let mut c = match self.data.remove(k) {
            Some(c) => c,
            None => SCell::new(),
        };
        c.set_formula(formula.to_owned());
        self.data.insert(k, c);
        proof {
            assert(self.data@ =~= old(self)@.data.insert(
                cell_key(row, col),
                (CellView {
                    formula: Some(formula@),
                    ..cell_or_empty(old(self)@.data, cell_key(row, col))
                }),
            ));
        }
    }

    pub fn formula(&self, row: Ucell, col: Ucell) -> (r: Option<&String>)
        ensures
            match r {
                Some(f) => cell_or_empty(self@.data, cell_key(row, col)).formula == Some(f@),
                None => cell_or_empty(self@.data, cell_key(row, col)).formula is None,
            },
    {
        let k = cell_key_exec(row, col);
        match self.data.get(k) {
            Some(c) => c.formula(),
            None => None,
        }
    }

    /// Sets the cell style, creating the cell if necessary.
    pub fn set_cell_style(&mut self, row: Ucell, col: Ucell, style: &str)
        ensures
            final(self)@ == (SheetView {
                data: old(self)@.data.insert(
                    cell_key(row, col),
                    (CellView {
                        style: Some(style@),
                        ..cell_or_empty(old(self)@.data, cell_key(row, col))
                    }),
                ),
                ..old(self)@
            }),
    {
        let k = cell_key_exec(row, col);
        let mut c = match self.data.remove(k) {
            Some(c) => c,
            None => SCell::new(),
        };
        c.set_style(style.to_owned());
        self.data.insert(k, c);
        proof {
            assert(self.data@ =~= old(self)@.data.insert(
                cell_key(row, col),
                (CellView {
                    style: Some(style@),
                    ..cell_or_empty(old(self)@.data, cell_key(row, col))
                }),
            ));
        }
    }

    pub fn cell_style(&self, row: Ucell, col: Ucell) -> (r: Option<&String>)
        ensures
            match r {
                Some(s) => cell_or_empty(self@.data, cell_key(row, col)).style == Some(s@),
                None => cell_or_empty(self@.data, cell_key(row, col)).style is None,
            },
    {
        let k = cell_key_exec(row, col);
        match self.data.get(k) {
            Some(c) => c.style(),
            None => None,
        }
    }

    /// Sets the row span of a cell, creating it if necessary.
    pub fn set_row_span(&mut self, row: Ucell, col: Ucell, span: Ucell)
        requires
            span >= 1,
        ensures
            final(self)@ == (SheetView {
                data: old(self)@.data.insert(
                    cell_key(row, col),
                    (CellView {
                        row_span: span,
                        ..cell_or_empty(old(self)@.data, cell_key(row, col))
                    }),
                ),
                ..old(self)@
            }),
    {
        let k = cell_key_exec(row, col);
        let mut c = match self.data.remove(k) {
            Some(c) => c,
            None => SCell::new(),
        };
        c.set_row_span(span);
        self.data.insert(k, c);
        proof {
            assert(self.data@ =~= old(self)@.data.insert(
                cell_key(row, col),
                (CellView {
                    row_span: span,
                    ..cell_or_empty(old(self)@.data, cell_key(row, col))
                }),
            ));
        }
    }

    pub fn row_span(&self, row: Ucell, col: Ucell) -> (r: Ucell)
        ensures
            r == cell_or_empty(self@.data, cell_key(row, col)).row_span,
    {
        let k = cell_key_exec(row, col);
        match self.data.get(k) {
            Some(c) => c.row_span(),
            None => 1,
        }
    }

    /// Sets the column span of a cell, creating it if necessary.
    pub fn set_col_span(&mut self, row: Ucell, col: Ucell, span: Ucell)
        requires
            span >= 1,
        ensures
            final(self)@ == (SheetView {
                data: old(self)@.data.insert(
                    cell_key(row, col),
                    (CellView {
                        col_span: span,
                        ..cell_or_empty(old(self)@.data, cell_key(row, col))
                    }),
                ),
                ..old(self)@
            }),
    {
        let k = cell_key_exec(row, col);
        let mut c = match self.data.remove(k) {
            Some(c) => c,
            None => SCell::new(),
        };
        c.set_col_span(span);
        self.data.insert(k, c);
        proof {
            assert(self.data@ =~= old(self)@.data.insert(
                cell_key(row, col),
                (CellView {
                    col_span: span,
                    ..cell_or_empty(old(self)@.data, cell_key(row, col))
                }),
            ));
        }
    }

    pub fn col_span(&self, row: Ucell, col: Ucell) -> (r: Ucell)
        ensures
            r == cell_or_empty(self@.data, cell_key(row, col)).col_span,
    {
        let k = cell_key_exec(row, col);
        match self.data.get(k) {
            Some(c) => c.col_span(),
            None => 1,
        }
    }

    /// One past the largest used row and column; at least one each, and the
    /// bound saturates at the index limit.
    pub fn used_grid_size(&self) -> (r: (Ucell, Ucell))
        ensures
            r.0 >= 1 && r.1 >= 1,
            forall|k: u64|
                self@.data.contains_key(k) ==> (cell_key_row(k) < r.0 || r.0 == u32::MAX) && (
                cell_key_col(k) < r.1 || r.1 == u32::MAX),
            r.0 > 1 ==> exists|k: u64| self@.data.contains_key(k) && cell_key_row(k) >= r.0 - 1,
            r.1 > 1 ==> exists|k: u64| self@.data.contains_key(k) && cell_key_col(k) >= r.1 - 1,
    {
        let keys = self.data.keys();
        let mut mr: Ucell = 0;
        let mut mc: Ucell = 0;
        let mut i: usize = 0;
        while i < keys.len()
            invariant
                0 <= i <= keys.len(),
                forall|k: u64| keys@.contains(k) <==> self@.data.contains_key(k),
                forall|j: int|
                    0 <= j < i ==> cell_key_row(#[trigger] keys@[j]) <= mr && cell_key_col(
                        keys@[j],
                    ) <= mc,
                mr > 0 ==> exists|k: u64| self@.data.contains_key(k) && cell_key_row(k) >= mr,
                mc > 0 ==> exists|k: u64| self@.data.contains_key(k) && cell_key_col(k) >= mc,
            decreases keys.len() - i,
        {
            let k = keys[i];
            proof {
                assert(keys@.contains(keys@[i as int]));
            }
            let row = (k / 0x1_0000_0000) as u32;
            let col = (k % 0x1_0000_0000) as u32;
            if row > mr {
                mr = row;
            }
            if col > mc {
                mc = col;
            }
            i = i + 1;
        }
        proof {
            assert forall|k: u64|
                self@.data.contains_key(k) implies cell_key_row(k) <= mr && cell_key_col(k)
                <= mc by {
                assert(keys@.contains(k));
                let j = choose|j: int| 0 <= j < keys@.len() && keys@[j] == k;
                assert(cell_key_row(keys@[j]) <= mr && cell_key_col(keys@[j]) <= mc);
            }
        }
        let r0: Ucell = if mr == u32::MAX {
            u32::MAX
        } else {
            mr + 1
        };
        let r1: Ucell = if mc == u32::MAX {
            u32::MAX
        } else {
            mc + 1
        };
        (r0, r1)
    }

    /// Defines the inclusive header-row range.
    pub fn set_header_rows(&mut self, row_start: Ucell, row_end: Ucell)
        ensures
            final(self)@ == (SheetView {
                header_rows: Some((RowRange { from: row_start, to: row_end })),
                ..old(self)@
            }),
    {
        self.header_rows = Some(RowRange::new(row_start, row_end));
    }

    pub fn clear_header_rows(&mut self)
        ensures
            final(self)@ == (SheetView { header_rows: None, ..old(self)@ }),
    {
        self.header_rows = None;
    }

    pub fn header_rows(&self) -> (r: Option<RowRange>)
        ensures
            r == self@.header_rows,
    {
        self.header_rows
    }

    /// Defines the inclusive header-column range.
    pub fn set_header_cols(&mut self, col_start: Ucell, col_end: Ucell)
        ensures
            final(self)@ == (SheetView {
                header_cols: Some((ColRange { from: col_start, to: col_end })),
                ..old(self)@
            }),
    {
        self.header_cols = Some(ColRange::new(col_start, col_end));
    }

    pub fn clear_header_cols(&mut self)
        ensures
            final(self)@ == (SheetView { header_cols: None, ..old(self)@ }),
    {
        self.header_cols = None;
    }

    pub fn header_cols(&self) -> (r: Option<ColRange>)
        ensures
            r == self@.header_cols,
    {
        self.header_cols
    }

    /// Appends a print range.
    pub fn add_print_range(&mut self, range: CellRange)
        ensures
            final(self)@ == (SheetView {
                print_ranges: Some(
                    match old(self)@.print_ranges {
                        Some(v) => v.push(range),
                        None => seq![range],
                    },
                ),
                ..old(self)@
            }),
    {
        match &mut self.print_ranges {
            Some(v) => {
                v.push(range);
            },
            None => {
                let mut v: Vec<CellRange> = Vec::new();
                v.push(range);
                proof {
                    assert(v@ =~= seq![range]);
                }
                self.print_ranges = Some(v);
            },
        }
    }

    /// Replaces the whole print-range list.
    pub fn set_print_ranges(&mut self, ranges: Option<Vec<CellRange>>)
        ensures
            final(self)@ == (SheetView {
                print_ranges: match ranges {
                    Some(v) => Some(v@),
                    None => None,
                },
                ..old(self)@
            }),
    {
        self.print_ranges = ranges;
    }

    pub fn clear_print_ranges(&mut self)
        ensures
            final(self)@ == (SheetView { print_ranges: None, ..old(self)@ }),
    {
        self.print_ranges = None;
    }

    pub fn print_ranges(&self) -> (r: Option<&Vec<CellRange>>)
        ensures
            match r {
                Some(v) => self@.print_ranges == Some(v@),
                None => self@.print_ranges is None,
            },
    {
        self.print_ranges.as_ref()
    }

    /// Creates a column style holding the width and registers it.
    pub fn set_col_width(&mut self, workbook: &mut WorkBook, col: Ucell, width: &str)
        ensures
            final(self)@ == (SheetView {
                col_style: old(self)@.col_style.insert(col as u64, spec_col_style_name(col as u64)),
                ..old(self)@
            }),
            final(workbook)@.styles.contains_key(spec_col_style_name(col as u64)),
    {
        let style_name = col_style_name(col);
        let mut col_style = match workbook.remove_style(style_name.as_str()) {
            Some(style) => style,
            None => Style::col_style(style_name.as_str(), ""),
        };
        col_style.set_table_col_prp("style:column-width", width.to_owned());
        col_style.set_table_col_prp("style:use-optimal-column-width", "false".to_owned());
        workbook.add_style_named(style_name.as_str(), col_style);
        self.set_column_style(col, style_name.as_str());
    }

    /// Creates a row style holding the height and registers it.
    pub fn set_row_height(&mut self, workbook: &mut WorkBook, row: Ucell, height: &str)
        ensures
            final(self)@ == (SheetView {
                row_style: old(self)@.row_style.insert(row as u64, spec_row_style_name(row as u64)),
                ..old(self)@
            }),
            final(workbook)@.styles.contains_key(spec_row_style_name(row as u64)),
    {
        let style_name = row_style_name(row);
        let mut row_style = match workbook.remove_style(style_name.as_str()) {
            Some(style) => style,
            None => Style::row_style(style_name.as_str(), ""),
        };
        row_style.set_table_row_prp("style:row-height", height.to_owned());
        row_style.set_table_row_prp("style:use-optimal-row-height", "false".to_owned());
        workbook.add_style_named(style_name.as_str(), row_style);
        self.set_row_style(row, style_name.as_str());
    }
}

/// The generated name of a column-width style.
pub open spec fn spec_col_style_name(col: u64) -> Seq<char> {
    "co"@ + crate::numtext::dec_str(col as int)
}

/// The generated name of a row-height style.
pub open spec fn spec_row_style_name(row: u64) -> Seq<char> {
    "ro"@ + crate::numtext::dec_str(row as int)
}

fn col_style_name(col: Ucell) -> (r: String)
    ensures
        r@ == spec_col_style_name(col as u64),
{
    proof {
        reveal_strlit("co");
    }
    let mut s = "co".to_owned();
    let d = crate::numtext::dec_u64_string(col as u64);
    s.append(d.as_str());
    s
}

fn row_style_name(row: Ucell) -> (r: String)
    ensures
        r@ == spec_row_style_name(row as u64),
{
    proof {
        reveal_strlit("ro");
    }
    let mut s = "ro".to_owned();
    let d = crate::numtext::dec_u64_string(row as u64);
    s.append(d.as_str());
    s
}

/// The workbook: sheets in document order and the name-keyed catalogs.
pub struct WorkBook {
    sheets: Vec<Sheet>,
    fonts: StrMap<FontFaceDecl>,
    styles: StrMap<Style>,
    formats: StrMap<ValueFormat>,
    def_styles: NumMap<String>,
    page_layouts: StrMap<PageLayout>,
    file: Option<String>,
}

pub struct WorkBookView {
    pub sheets: Seq<SheetView>,
    pub fonts: Map<Seq<char>, FontFaceDeclView>,
    pub styles: Map<Seq<char>, StyleView>,
    pub formats: Map<Seq<char>, ValueFormatView>,
    /// Keyed by [`crate::value::value_type_key`].
    pub def_styles: Map<u64, Seq<char>>,
    pub page_layouts: Map<Seq<char>, PageLayoutView>,
    pub file: Option<Seq<char>>,
}

impl WorkBookView {
    pub open spec fn empty_book() -> WorkBookView {
        WorkBookView {
            sheets: Seq::empty(),
            fonts: Map::empty(),
            styles: Map::empty(),
            formats: Map::empty(),
            def_styles: Map::empty(),
            page_layouts: Map::empty(),
            file: None,
        }
    }
}

impl View for WorkBook {
    type V = WorkBookView;

    closed spec fn view(&self) -> WorkBookView {
        WorkBookView {
            sheets: self.sheets.deep_view(),
            fonts: self.fonts@,
            styles: self.styles@,
            formats: self.formats@,
            def_styles: self.def_styles@,
            page_layouts: self.page_layouts@,
            file: self.file.deep_view(),
        }
    }
}

impl WorkBook {
    pub fn new() -> (r: WorkBook)
        ensures
            r@ == WorkBookView::empty_book(),
    {
        let r = WorkBook {
            sheets: Vec::new(),
            fonts: StrMap::new(),
            styles: StrMap::new(),
            formats: StrMap::new(),
            def_styles: NumMap::new(),
            page_layouts: StrMap::new(),
            file: None,
        };
        proof {
            assert(r.sheets.deep_view() =~= Seq::<SheetView>::empty());
        }
        r
    }

    /// Number of sheets.
    pub fn num_sheets(&self) -> (n: usize)
        ensures
            n == self@.sheets.len(),
    {
        self.sheets.len()
    }

    /// A sheet by position.
    pub fn sheet(&self, n: usize) -> (r: &Sheet)
        requires
            n < self@.sheets.len(),
        ensures
            r@ == self@.sheets[n as int],
    {
        &self.sheets[n]
    }

    /// Inserts a sheet at a position.
    pub fn insert_sheet(&mut self, i: usize, sheet: Sheet)
        requires
            i <= old(self)@.sheets.len(),
        ensures
            final(self)@ == (WorkBookView {
                sheets: old(self)@.sheets.insert(i as int, sheet@),
                ..old(self)@
            }),
    {
        let ghost sv = sheet@;
        self.sheets.insert(i, sheet);
        proof {
            assert(self.sheets.deep_view() =~= old(self)@.sheets.insert(i as int, sv));
        }
    }

    /// Appends a sheet.
    pub fn push_sheet(&mut self, sheet: Sheet)
        ensures
            final(self)@ == (WorkBookView {
                sheets: old(self)@.sheets.push(sheet@),
                ..old(self)@
            }),
    {
        let ghost sv = sheet@;
        self.sheets.push(sheet);
        proof {
            assert(self.sheets.deep_view() =~= old(self)@.sheets.push(sv));
        }
    }

    /// Removes a sheet.
    pub fn remove_sheet(&mut self, n: usize) -> (r: Sheet)
        requires
            n < old(self)@.sheets.len(),
        ensures
            final(self)@ == (WorkBookView {
                sheets: old(self)@.sheets.remove(n as int),
                ..old(self)@
            }),
            r@ == old(self)@.sheets[n as int],
    {
        let r = self.sheets.remove(n);
        proof {
            assert(self.sheets.deep_view() =~= old(self)@.sheets.remove(n as int));
        }
        r
    }

    /// Records the default style name for a value type.
    pub fn add_def_style(&mut self, value_type: ValueType, style: &str)
        ensures
            final(self)@ == (WorkBookView {
                def_styles: old(self)@.def_styles.insert(value_type_key(value_type), style@),
                ..old(self)@
            }),
    {
        let k = value_type_key_exec(value_type);
        self.def_styles.insert(k, style.to_owned());
    }

    /// The default style name for a value type.
    pub fn def_style(&self, value_type: ValueType) -> (r: Option<&String>)
        ensures
            match r {
                Some(s) => self@.def_styles.contains_key(value_type_key(value_type)) && s@
                    == self@.def_styles[value_type_key(value_type)],
                None => !self@.def_styles.contains_key(value_type_key(value_type)),
            },
    {
        let k = value_type_key_exec(value_type);
        self.def_styles.get(k)
    }

    /// Follows a cell style name to its value format, if both resolve.
    pub fn find_value_format(&self, style_name: &str) -> (r: Option<&ValueFormat>)
        ensures
            match r {
                Some(f) => self@.styles.contains_key(style_name@) && match self@.styles[
                    style_name@].value_format {
                    Some(vf) => self@.formats.contains_key(vf) && f@ == self@.formats[vf],
                    None => false,
                },
                None => !self@.styles.contains_key(style_name@) || match self@.styles[
                    style_name@].value_format {
                    Some(vf) => !self@.formats.contains_key(vf),
                    None => true,
                },
            },
    {
        match self.styles.get(style_name) {
            Some(style) => match style.value_format() {
                Some(value_format_name) => self.formats.get(value_format_name.as_str()),
                None => None,
            },
            None => None,
        }
    }

    /// Adds a font, replacing one of the same name.
    pub fn add_font(&mut self, font: FontFaceDecl)
        ensures
            final(self)@ == (WorkBookView {
                fonts: old(self)@.fonts.insert(font@.name, font@),
                ..old(self)@
            }),
    {
        let name = font.name().clone();
        self.fonts.insert(name, font);
    }

    pub fn remove_font(&mut self, name: &str) -> (r: Option<FontFaceDecl>)
        ensures
            final(self)@ == (WorkBookView {
                fonts: old(self)@.fonts.remove(name@),
                ..old(self)@
            }),
            match r {
                Some(f) => old(self)@.fonts.contains_key(name@) && f@ == old(self)@.fonts[name@],
                None => !old(self)@.fonts.contains_key(name@),
            },
    {
        self.fonts.remove(name)
    }

    pub fn font(&self, name: &str) -> (r: Option<&FontFaceDecl>)
        ensures
            match r {
                Some(f) => self@.fonts.contains_key(name@) && f@ == self@.fonts[name@],
                None => !self@.fonts.contains_key(name@),
            },
    {
        self.fonts.get(name)
    }

    /// Adds a style, replacing one of the same name.
    pub fn add_style(&mut self, style: Style)
        ensures
            final(self)@ == (WorkBookView {
                styles: old(self)@.styles.insert(style@.name, style@),
                ..old(self)@
            }),
    {
        let name = style.name().clone();
        self.styles.insert(name, style);
    }

    /// Adds a style under an explicit name.
    pub fn add_style_named(&mut self, name: &str, style: Style)
        ensures
            final(self)@ == (WorkBookView {
                styles: old(self)@.styles.insert(name@, style@),
                ..old(self)@
            }),
    {
        self.styles.insert(name.to_owned(), style);
    }

    pub fn remove_style(&mut self, name: &str) -> (r: Option<Style>)
        ensures
            final(self)@ == (WorkBookView {
                styles: old(self)@.styles.remove(name@),
                ..old(self)@
            }),
            match r {
                Some(s) => old(self)@.styles.contains_key(name@) && s@ == old(self)@.styles[
                    name@],
                None => !old(self)@.styles.contains_key(name@),
            },
    {
        self.styles.remove(name)
    }

    pub fn style(&self, name: &str) -> (r: Option<&Style>)
        ensures
            match r {
                Some(s) => self@.styles.contains_key(name@) && s@ == self@.styles[name@],
                None => !self@.styles.contains_key(name@),
            },
    {
        self.styles.get(name)
    }

    /// Adds a value format, replacing one of the same name.
    pub fn add_format(&mut self, vstyle: ValueFormat)
        ensures
            final(self)@ == (WorkBookView {
                formats: old(self)@.formats.insert(vstyle@.name, vstyle@),
                ..old(self)@
            }),
    {
        let name = vstyle.name().clone();
        self.formats.insert(name, vstyle);
    }

    pub fn remove_format(&mut self, name: &str) -> (r: Option<ValueFormat>)
        ensures
            final(self)@ == (WorkBookView {
                formats: old(self)@.formats.remove(name@),
                ..old(self)@
            }),
            match r {
                Some(f) => old(self)@.formats.contains_key(name@) && f@ == old(self)@.formats[
                    name@],
                None => !old(self)@.formats.contains_key(name@),
            },
    {
        self.formats.remove(name)
    }

    pub fn format(&self, name: &str) -> (r: Option<&ValueFormat>)
        ensures
            match r {
                Some(f) => self@.formats.contains_key(name@) && f@ == self@.formats[name@],
                None => !self@.formats.contains_key(name@),
            },
    {
        self.formats.get(name)
    }

    /// Adds a page layout, replacing one of the same name.
    pub fn add_pagelayout(&mut self, pagelayout: PageLayout)
        ensures
            final(self)@ == (WorkBookView {
                page_layouts: old(self)@.page_layouts.insert(pagelayout@.name, pagelayout@),
                ..old(self)@
            }),
    {
        let name = pagelayout.name().clone();
        self.page_layouts.insert(name, pagelayout);
    }

    pub fn remove_pagelayout(&mut self, name: &str) -> (r: Option<PageLayout>)
        ensures
            final(self)@ == (WorkBookView {
                page_layouts: old(self)@.page_layouts.remove(name@),
                ..old(self)@
            }),
            match r {
                Some(p) => old(self)@.page_layouts.contains_key(name@) && p@ == old(
                    self,
                )@.page_layouts[name@],
                None => !old(self)@.page_layouts.contains_key(name@),
            },
    {
        self.page_layouts.remove(name)
    }

    pub fn pagelayout(&self, name: &str) -> (r: Option<&PageLayout>)
        ensures
            match r {
                Some(p) => self@.page_layouts.contains_key(name@) && p@ == self@.page_layouts[
                    name@],
                None => !self@.page_layouts.contains_key(name@),
            },
    {
        self.page_layouts.get(name)
    }

    /// Remembers which file this book was read from.
    pub fn set_file(&mut self, file: String)
        ensures
            final(self)@ == (WorkBookView { file: Some(file@), ..old(self)@ }),
    {
        self.file = Some(file);
    }

    pub fn file(&self) -> (r: Option<&String>)
        ensures
            match r {
                Some(f) => self@.file == Some(f@),
                None => self@.file is None,
            },
    {
        self.file.as_ref()
    }
}

} // verus!

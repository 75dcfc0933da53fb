//! The document decoder: a state machine over the XML event stream.
//!
//! Each event is one step.  The running state is the workbook built so far,
//! the sheet under construction, the row and cell-column cursors, a pending
//! row-repeat count, a separate pseudo-column cursor used only while
//! processing column declarations, the pending header-range start marks, and
//! a mode that says whether the machine is at the top level, inside the
//! font section, inside the styles section, or inside an open cell.  The
//! specification functions give the meaning of every step; the executable
//! decoder is proved to fold them over the whole event list.
//!
//! A cell with content in a repeated row materializes one grid entry per
//! repeated row and per repeated column; a pure filler only advances the
//! cursors, however large its repeat.  Cursors and repeat counts saturate
//! at the index limit instead of wrapping; a header range that closes
//! before any row or column was consumed degenerates to an end of zero.

use vstd::prelude::*;
use crate::cellvalue::{
    decode_value_type,
    parse_value,
    spec_decode_value_type,
    spec_parse_value,
};
use crate::error::{OdsError, OdsErrorView};
use crate::format::{FormatPart, FormatPartType, FormatPartView, ValueFormat, ValueFormatView};
use crate::numtext::{parse_u32, spec_parse_u32, str_eq};
use crate::refs::{parse_cellranges, spec_parse_cellranges, ColRange, RowRange};
use crate::style::{FontFaceDecl, FontFaceDeclView, Style, StyleFor, StyleView};
use crate::value::ValueType;
use crate::xml::{AttrView, EventView, XmlAttr, XmlEvent};
use crate::{
    cell_key,
    CellView,
    SCell,
    Sheet,
    SheetView,
    Ucell,
    WorkBook,
    WorkBookView,
};

verus! {

pub open spec fn sat_add(a: Ucell, b: Ucell) -> Ucell {
    if a as int + b as int > u32::MAX as int {
        u32::MAX
    } else {
        (a as int + b as int) as u32
    }
}

pub open spec fn sat_dec(a: Ucell) -> Ucell {
    if a == 0 {
        0
    } else {
        (a - 1) as u32
    }
}

fn sat_add_exec(a: Ucell, b: Ucell) -> (r: Ucell)
    ensures
        r == sat_add(a, b),
{
    if b > u32::MAX - a {
        u32::MAX
    } else {
        a + b
    }
}

fn sat_dec_exec(a: Ucell) -> (r: Ucell)
    ensures
        r == sat_dec(a),
{
    if a == 0 {
        0
    } else {
        a - 1
    }
}

// ---------------------------------------------------------------------------
// table attributes

/// Table attributes: name, table style and the print-range list.  A
/// print-range attribute that is not empty must parse.
pub open spec fn spec_read_table(sheet: SheetView, attrs: Seq<AttrView>) -> Result<
    SheetView,
    OdsErrorView,
>
    decreases attrs.len(),
{
    if attrs.len() == 0 {
        Ok(sheet)
    } else {
        match spec_read_table(sheet, attrs.drop_last()) {
            Err(e) => Err(e),
            Ok(s) => {
                let a = attrs.last();
                if a.key == "table:name"@ {
                    Ok(SheetView { name: a.value, ..s })
                } else if a.key == "table:style-name"@ {
                    Ok(SheetView { style: Some(a.value), ..s })
                } else if a.key == "table:print-ranges"@ {
                    if a.value.len() == 0 {
                        Ok(SheetView { print_ranges: None, ..s })
                    } else {
                        match spec_parse_cellranges(a.value) {
                            Some(rs) => Ok(SheetView { print_ranges: Some(rs), ..s }),
                            None => Err(OdsErrorView::MalformedXml(a.value)),
                        }
                    }
                } else {
                    Ok(s)
                }
            },
        }
    }
}


proof fn lemma_read_table_err_persists(sheet: SheetView, attrs: Seq<AttrView>, j: int)
    requires
        0 <= j <= attrs.len(),
        spec_read_table(sheet, attrs.take(j)) is Err,
    ensures
        spec_read_table(sheet, attrs) == spec_read_table(sheet, attrs.take(j)),
    decreases attrs.len() - j,
{
    if j == attrs.len() {
        assert(attrs.take(j) =~= attrs);
    } else {
        assert(attrs.take(j + 1).drop_last() =~= attrs.take(j));
        lemma_read_table_err_persists(sheet, attrs, j + 1);
    }
}

proof fn lemma_read_row_err_persists(init_style: Option<Seq<char>>, attrs: Seq<AttrView>, j: int)
    requires
        0 <= j <= attrs.len(),
        spec_read_row(init_style, attrs.take(j)) is Err,
    ensures
        spec_read_row(init_style, attrs) == spec_read_row(init_style, attrs.take(j)),
    decreases attrs.len() - j,
{
    if j == attrs.len() {
        assert(attrs.take(j) =~= attrs);
    } else {
        assert(attrs.take(j + 1).drop_last() =~= attrs.take(j));
        lemma_read_row_err_persists(init_style, attrs, j + 1);
    }
}

proof fn lemma_read_col_err_persists(attrs: Seq<AttrView>, j: int)
    requires
        0 <= j <= attrs.len(),
        spec_read_col(attrs.take(j)) is Err,
    ensures
        spec_read_col(attrs) == spec_read_col(attrs.take(j)),
    decreases attrs.len() - j,
{
    if j == attrs.len() {
        assert(attrs.take(j) =~= attrs);
    } else {
        assert(attrs.take(j + 1).drop_last() =~= attrs.take(j));
        lemma_read_col_err_persists(attrs, j + 1);
    }
}

fn read_table(sheet: &mut Sheet, attrs: &Vec<XmlAttr>) -> (r: Result<(), OdsError>)
    ensures
        match (r, spec_read_table(old(sheet)@, attrs.deep_view())) {
            (Ok(()), Ok(sv)) => final(sheet)@ == sv,
            (Err(e), Err(se)) => e@ == se,
            _ => false,
        },
{
    let ghost av = attrs.deep_view();
    let n = attrs.len();
    let mut i: usize = 0;
    while i < n
        invariant
            0 <= i <= n == attrs.len(),
            av == attrs.deep_view(),
            spec_read_table(old(sheet)@, av.take(i as int)) == Ok::<SheetView, OdsErrorView>(
                sheet@,
            ),
        decreases n - i,
    {
        proof {
            assert(av.take(i + 1).drop_last() =~= av.take(i as int));
            assert(av.take(i + 1).last() == av[i as int]);
        }
        let a = &attrs[i];
        if str_eq(a.key.as_str(), "table:name") {
            sheet.set_name(a.value.as_str());
        } else if str_eq(a.key.as_str(), "table:style-name") {
            sheet.set_style(a.value.as_str());
        } else if str_eq(a.key.as_str(), "table:print-ranges") {
            if a.value.unicode_len() == 0 {
                sheet.set_print_ranges(None);
            } else {
                match parse_cellranges(a.value.as_str()) {
                    Some(rs) => {
                        sheet.set_print_ranges(Some(rs));
                    },
                    None => {
                        proof {
                            lemma_read_table_err_persists(old(sheet)@, av, i + 1);
                        }
                        return Err(OdsError::MalformedXml(a.value.clone()));
                    },
                }
            }
        }
        i = i + 1;
    }
    proof {
        assert(av.take(n as int) =~= av);
    }
    Ok(())
}

// ---------------------------------------------------------------------------
// row attributes

/// Row attributes: the repeat count, one by default, and the row style.
pub open spec fn spec_read_row(init_style: Option<Seq<char>>, attrs: Seq<AttrView>) -> Result<
    (Ucell, Option<Seq<char>>),
    OdsErrorView,
>
    decreases attrs.len(),
{
    if attrs.len() == 0 {
        Ok((1u32, init_style))
    } else {
        match spec_read_row(init_style, attrs.drop_last()) {
            Err(e) => Err(e),
            Ok((rep, st)) => {
                let a = attrs.last();
                if a.key == "table:number-rows-repeated"@ {
                    match spec_parse_u32(a.value) {
                        Some(v) => Ok((v, st)),
                        None => Err(OdsErrorView::NumericParseError(a.value)),
                    }
                } else if a.key == "table:style-name"@ {
                    Ok((rep, Some(a.value)))
                } else {
                    Ok((rep, st))
                }
            },
        }
    }
}

fn read_row_attrs(init_style: &Option<String>, attrs: &Vec<XmlAttr>) -> (r: Result<
    (Ucell, Option<String>),
    OdsError,
>)
    ensures
        match (r, spec_read_row(init_style.deep_view(), attrs.deep_view())) {
            (Ok((rep, st)), Ok((srep, sst))) => rep == srep && st.deep_view() == sst,
            (Err(e), Err(se)) => e@ == se,
            _ => false,
        },
{
    let ghost av = attrs.deep_view();
    let ghost init_v = init_style.deep_view();
    let n = attrs.len();
    let mut rep: Ucell = 1;
    let mut st: Option<String> = match init_style {
        Some(s) => Some(s.clone()),
        None => None,
    };
    let mut i: usize = 0;
    while i < n
        invariant
            0 <= i <= n == attrs.len(),
            av == attrs.deep_view(),
            init_v == init_style.deep_view(),
            spec_read_row(init_v, av.take(i as int)) == Ok::<
                (Ucell, Option<Seq<char>>),
                OdsErrorView,
            >((rep, st.deep_view())),
        decreases n - i,
    {
        proof {
            assert(av.take(i + 1).drop_last() =~= av.take(i as int));
            assert(av.take(i + 1).last() == av[i as int]);
        }
        let a = &attrs[i];
        if str_eq(a.key.as_str(), "table:number-rows-repeated") {
            match parse_u32(a.value.as_str()) {
                Some(v) => {
                    rep = v;
                },
                None => {
                    proof {
                        lemma_read_row_err_persists(init_v, av, i + 1);
                    }
                    return Err(OdsError::NumericParseError(a.value.clone()));
                },
            }
        } else if str_eq(a.key.as_str(), "table:style-name") {
            st = Some(a.value.clone());
        }
        i = i + 1;
    }
    proof {
        assert(av.take(n as int) =~= av);
    }
    Ok((rep, st))
}

// ---------------------------------------------------------------------------
// column declarations

/// Column-declaration attributes: style, default cell style, repeat count.
pub open spec fn spec_read_col(attrs: Seq<AttrView>) -> Result<
    (Option<Seq<char>>, Option<Seq<char>>, Ucell),
    OdsErrorView,
>
    decreases attrs.len(),
{
    if attrs.len() == 0 {
        Ok((None, None, 1u32))
    } else {
        match spec_read_col(attrs.drop_last()) {
            Err(e) => Err(e),
            Ok((st, cst, rep)) => {
                let a = attrs.last();
                if a.key == "table:style-name"@ {
                    Ok((Some(a.value), cst, rep))
                } else if a.key == "table:number-columns-repeated"@ {
                    match spec_parse_u32(a.value) {
                        Some(v) => Ok((st, cst, v)),
                        None => Err(OdsErrorView::NumericParseError(a.value)),
                    }
                } else if a.key == "table:default-cell-style-name"@ {
                    Ok((st, Some(a.value), rep))
                } else {
                    Ok((st, cst, rep))
                }
            },
        }
    }
}

fn read_col_attrs(attrs: &Vec<XmlAttr>) -> (r: Result<
    (Option<String>, Option<String>, Ucell),
    OdsError,
>)
    ensures
        match (r, spec_read_col(attrs.deep_view())) {
            (Ok((st, cst, rep)), Ok((sst, scst, srep))) => st.deep_view() == sst
                && cst.deep_view() == scst && rep == srep,
            (Err(e), Err(se)) => e@ == se,
            _ => false,
        },
{
    let ghost av = attrs.deep_view();
    let n = attrs.len();
    let mut st: Option<String> = None;
    let mut cst: Option<String> = None;
    let mut rep: Ucell = 1;
    let mut i: usize = 0;
    while i < n
        invariant
            0 <= i <= n == attrs.len(),
            av == attrs.deep_view(),
            spec_read_col(av.take(i as int)) == Ok::<
                (Option<Seq<char>>, Option<Seq<char>>, Ucell),
                OdsErrorView,
            >((st.deep_view(), cst.deep_view(), rep)),
        decreases n - i,
    {
        proof {
            assert(av.take(i + 1).drop_last() =~= av.take(i as int));
            assert(av.take(i + 1).last() == av[i as int]);
        }
        let a = &attrs[i];
        if str_eq(a.key.as_str(), "table:style-name") {
            st = Some(a.value.clone());
        } else if str_eq(a.key.as_str(), "table:number-columns-repeated") {
            match parse_u32(a.value.as_str()) {
                Some(v) => {
                    rep = v;
                },
                None => {
                    proof {
                        lemma_read_col_err_persists(av, i + 1);
                    }
                    return Err(OdsError::NumericParseError(a.value.clone()));
                },
            }
        } else if str_eq(a.key.as_str(), "table:default-cell-style-name") {
            cst = Some(a.value.clone());
        }
        i = i + 1;
    }
    proof {
        assert(av.take(n as int) =~= av);
    }
    Ok((st, cst, rep))
}

/// Registers the style names for `repeat` consecutive pseudo-columns and
/// advances the pseudo-column cursor, saturating.
pub open spec fn spec_apply_columns(
    sheet: SheetView,
    tcol: Ucell,
    style: Option<Seq<char>>,
    cell_style: Option<Seq<char>>,
    repeat: Ucell,
) -> (SheetView, Ucell)
    decreases repeat,
{
    if repeat == 0 {
        (sheet, tcol)
    } else {
        let s1 = match style {
            Some(st) => SheetView { col_style: sheet.col_style.insert(tcol as u64, st), ..sheet },
            None => sheet,
        };
        let s2 = match cell_style {
            Some(cst) => SheetView {
                col_cell_style: s1.col_cell_style.insert(tcol as u64, cst),
                ..s1
            },
            None => s1,
        };
        spec_apply_columns(s2, sat_add(tcol, 1), style, cell_style, (repeat - 1) as u32)
    }
}

/// Law: a column declaration with a style name registers that style for
/// `repeat` consecutive pseudo-column indices starting at the cursor, its
/// default-cell-style name likewise, the cursor advances by `repeat`, and
/// every other column and every other part of the sheet stands unchanged.
/// Stated below the cursor's saturation limit, where the consecutive
/// indices exist.
#[verifier::rlimit(100)]
pub proof fn lemma_apply_columns_registers(
    sheet: SheetView,
    tcol: Ucell,
    style: Option<Seq<char>>,
    cell_style: Option<Seq<char>>,
    repeat: Ucell,
)
    requires
        tcol as int + repeat as int <= u32::MAX as int,
    ensures
        spec_apply_columns(sheet, tcol, style, cell_style, repeat).1 == tcol + repeat,
        spec_apply_columns(sheet, tcol, style, cell_style, repeat).0 == (SheetView {
            col_style: spec_apply_columns(sheet, tcol, style, cell_style, repeat).0.col_style,
            col_cell_style: spec_apply_columns(
                sheet,
                tcol,
                style,
                cell_style,
                repeat,
            ).0.col_cell_style,
            ..sheet
        }),
        forall|k: u64|
            #![trigger spec_apply_columns(sheet, tcol, style, cell_style, repeat).0.col_style.contains_key(k)]
            {
                let mm = spec_apply_columns(sheet, tcol, style, cell_style, repeat).0.col_style;
                if style is Some && tcol as u64 <= k && k < tcol as u64 + repeat as u64 {
                    mm.contains_key(k) && mm[k] == style.unwrap()
                } else {
                    (mm.contains_key(k) <==> sheet.col_style.contains_key(k)) && (
                    mm.contains_key(k) ==> mm[k] == sheet.col_style[k])
                }
            },
        forall|k: u64|
            #![trigger spec_apply_columns(sheet, tcol, style, cell_style, repeat).0.col_cell_style.contains_key(k)]
            {
                let mm = spec_apply_columns(
                    sheet,
                    tcol,
                    style,
                    cell_style,
                    repeat,
                ).0.col_cell_style;
                if cell_style is Some && tcol as u64 <= k && k < tcol as u64 + repeat as u64 {
                    mm.contains_key(k) && mm[k] == cell_style.unwrap()
                } else {
                    (mm.contains_key(k) <==> sheet.col_cell_style.contains_key(k)) && (
                    mm.contains_key(k) ==> mm[k] == sheet.col_cell_style[k])
                }
            },
    decreases repeat,
{
    let r = spec_apply_columns(sheet, tcol, style, cell_style, repeat);
    if repeat > 0 {
        let s1 = match style {
            Some(st) => SheetView { col_style: sheet.col_style.insert(tcol as u64, st), ..sheet },
            None => sheet,
        };
        let s2 = match cell_style {
            Some(cst) => SheetView {
                col_cell_style: s1.col_cell_style.insert(tcol as u64, cst),
                ..s1
            },
            None => s1,
        };
        assert(sat_add(tcol, 1) == tcol + 1);
        lemma_apply_columns_registers(s2, (tcol + 1) as u32, style, cell_style, (repeat - 1) as u32);
        let r2 = spec_apply_columns(s2, (tcol + 1) as u32, style, cell_style, (repeat - 1) as u32);
        assert(r == r2);
        assert forall|k: u64|
            #![trigger spec_apply_columns(sheet, tcol, style, cell_style, repeat).0.col_style.contains_key(k)]
            {
                let mm = spec_apply_columns(sheet, tcol, style, cell_style, repeat).0.col_style;
                if style is Some && tcol as u64 <= k && k < tcol as u64 + repeat as u64 {
                    mm.contains_key(k) && mm[k] == style.unwrap()
                } else {
                    (mm.contains_key(k) <==> sheet.col_style.contains_key(k)) && (
                    mm.contains_key(k) ==> mm[k] == sheet.col_style[k])
                }
            } by {
            let lo2 = (tcol + 1) as u64;
            let hi2 = lo2 + (repeat - 1) as u64;
            assert(r2.0.col_style.contains_key(k) == r.0.col_style.contains_key(k));
            if k == tcol as u64 {
                assert(!(lo2 <= k && k < hi2));
            }
        }
        assert forall|k: u64|
            #![trigger spec_apply_columns(sheet, tcol, style, cell_style, repeat).0.col_cell_style.contains_key(k)]
            {
                let mm = spec_apply_columns(
                    sheet,
                    tcol,
                    style,
                    cell_style,
                    repeat,
                ).0.col_cell_style;
                if cell_style is Some && tcol as u64 <= k && k < tcol as u64 + repeat as u64 {
                    mm.contains_key(k) && mm[k] == cell_style.unwrap()
                } else {
                    (mm.contains_key(k) <==> sheet.col_cell_style.contains_key(k)) && (
                    mm.contains_key(k) ==> mm[k] == sheet.col_cell_style[k])
                }
            } by {
            let lo2 = (tcol + 1) as u64;
            let hi2 = lo2 + (repeat - 1) as u64;
            assert(r2.0.col_cell_style.contains_key(k) == r.0.col_cell_style.contains_key(k));
            if k == tcol as u64 {
                assert(!(lo2 <= k && k < hi2));
            }
        }
        assert(r.0 == (SheetView {
            col_style: r.0.col_style,
            col_cell_style: r.0.col_cell_style,
            ..sheet
        }));
    } else {
        assert(r.0 == sheet && r.1 == tcol);
    }
}

fn apply_columns(
    sheet: &mut Sheet,
    tcol: Ucell,
    style: &Option<String>,
    cell_style: &Option<String>,
    repeat: Ucell,
) -> (r: Ucell)
    ensures
        (final(sheet)@, r) == spec_apply_columns(
            old(sheet)@,
            tcol,
            style.deep_view(),
            cell_style.deep_view(),
            repeat,
        ),
{
    let mut t: Ucell = tcol;
    let mut rem: Ucell = repeat;
    while rem > 0
        invariant
            spec_apply_columns(
                old(sheet)@,
                tcol,
                style.deep_view(),
                cell_style.deep_view(),
                repeat,
            ) == spec_apply_columns(sheet@, t, style.deep_view(), cell_style.deep_view(), rem),
        decreases rem,
    {
        match style {
            Some(st) => {
                sheet.set_column_style(t, st.as_str());
            },
            None => {},
        }
        match cell_style {
            Some(cst) => {
                sheet.set_column_cell_style(t, cst.as_str());
            },
            None => {},
        }
        t = sat_add_exec(t, 1);
        rem = rem - 1;
    }
    t
}

// ---------------------------------------------------------------------------
// repeated cell insertion

/// Inserts the cell at one column for every repeated row, walking down from
/// the row cursor.  A repeat of zero still inserts once, as the decoder
/// always has.
pub open spec fn spec_insert_rows(
    data: Map<u64, CellView>,
    row: Ucell,
    row_repeat: Ucell,
    col: Ucell,
    cell: CellView,
) -> Map<u64, CellView>
    decreases row_repeat,
{
    if row_repeat > 1 {
        spec_insert_rows(
            data.insert(cell_key(row, col), cell),
            sat_add(row, 1),
            (row_repeat - 1) as u32,
            col,
            cell,
        )
    } else {
        data.insert(cell_key(row, col), cell)
    }
}

/// Inserts the cell once per column repeat and once per repeated row, and
/// advances the column cursor by the column repeat.  A repeat of zero still
/// inserts once, as the decoder always has.
pub open spec fn spec_insert_repeated(
    data: Map<u64, CellView>,
    row: Ucell,
    row_repeat: Ucell,
    col: Ucell,
    cell: CellView,
    repeat: Ucell,
) -> (Map<u64, CellView>, Ucell)
    decreases repeat,
{
    if repeat > 1 {
        spec_insert_repeated(
            spec_insert_rows(data, row, row_repeat, col, cell),
            row,
            row_repeat,
            sat_add(col, 1),
            cell,
            (repeat - 1) as u32,
        )
    } else {
        (spec_insert_rows(data, row, row_repeat, col, cell), sat_add(col, 1))
    }
}

fn insert_rows(sheet: &mut Sheet, row: Ucell, row_repeat: Ucell, col: Ucell, cell: SCell)
    ensures
        final(sheet)@ == (SheetView {
            data: spec_insert_rows(old(sheet)@.data, row, row_repeat, col, cell@),
            ..old(sheet)@
        }),
{
    let mut r: Ucell = row;
    let mut rem: Ucell = row_repeat;
    while rem > 1
        invariant
            sheet@ == (SheetView { data: sheet@.data, ..old(sheet)@ }),
            spec_insert_rows(old(sheet)@.data, row, row_repeat, col, cell@)
                == spec_insert_rows(sheet@.data, r, rem, col, cell@),
        decreases rem,
    {
        sheet.add_cell(r, col, cell.dup());
        r = sat_add_exec(r, 1);
        rem = rem - 1;
    }
    sheet.add_cell(r, col, cell);
}

fn insert_repeated(
    sheet: &mut Sheet,
    row: Ucell,
    row_repeat: Ucell,
    col: Ucell,
    cell: SCell,
    repeat: Ucell,
) -> (r: Ucell)
    ensures
        final(sheet)@ == (SheetView {
            data: spec_insert_repeated(old(sheet)@.data, row, row_repeat, col, cell@, repeat).0,
            ..old(sheet)@
        }),
        r == spec_insert_repeated(old(sheet)@.data, row, row_repeat, col, cell@, repeat).1,
{
    let mut c: Ucell = col;
    let mut rem: Ucell = repeat;
    while rem > 1
        invariant
            sheet@ == (SheetView { data: sheet@.data, ..old(sheet)@ }),
            spec_insert_repeated(old(sheet)@.data, row, row_repeat, col, cell@, repeat)
                == spec_insert_repeated(sheet@.data, row, row_repeat, c, cell@, rem),
        decreases rem,
    {
        insert_rows(sheet, row, row_repeat, c, cell.dup());
        c = sat_add_exec(c, 1);
        rem = rem - 1;
    }
    insert_rows(sheet, row, row_repeat, c, cell);
    sat_add_exec(c, 1)
}


// ---------------------------------------------------------------------------
// cell attributes

/// A span attribute of zero is lifted to one: spans are always at least one.
pub open spec fn span_of(v: Ucell) -> Ucell {
    if v == 0 {
        1
    } else {
        v
    }
}

fn span_of_exec(v: Ucell) -> (r: Ucell)
    ensures
        r == span_of(v),
        r >= 1,
{
    if v == 0 {
        1
    } else {
        v
    }
}

/// Everything collected while a cell element is open.
struct CellAcc {
    covered: bool,
    repeat: Ucell,
    cell: SCell,
    value_type: Option<ValueType>,
    cell_value: Option<String>,
    content: Option<String>,
    currency: Option<String>,
}

pub struct CellAccView {
    pub covered: bool,
    pub repeat: Ucell,
    pub cell: CellView,
    pub value_type: Option<ValueType>,
    pub cell_value: Option<Seq<char>>,
    pub content: Option<Seq<char>>,
    pub currency: Option<Seq<char>>,
}

impl View for CellAcc {
    type V = CellAccView;

    closed spec fn view(&self) -> CellAccView {
        CellAccView {
            covered: self.covered,
            repeat: self.repeat,
            cell: self.cell@,
            value_type: self.value_type,
            cell_value: self.cell_value.deep_view(),
            content: self.content.deep_view(),
            currency: self.currency.deep_view(),
        }
    }
}

pub open spec fn cell_acc_init(covered: bool) -> CellAccView {
    CellAccView {
        covered: covered,
        repeat: 1,
        cell: CellView::empty_cell(),
        value_type: None,
        cell_value: None,
        content: None,
        currency: None,
    }
}

/// Open-cell attributes: repeat, spans, the declared type, the raw value
/// from whichever value attribute stands last, the currency code, the
/// formula and the style.
pub open spec fn spec_read_cell_attrs(covered: bool, attrs: Seq<AttrView>) -> Result<
    CellAccView,
    OdsErrorView,
>
    decreases attrs.len(),
{
    if attrs.len() == 0 {
        Ok(cell_acc_init(covered))
    } else {
        match spec_read_cell_attrs(covered, attrs.drop_last()) {
            Err(e) => Err(e),
            Ok(acc) => {
                let a = attrs.last();
                if a.key == "table:number-columns-repeated"@ {
                    match spec_parse_u32(a.value) {
                        Some(v) => Ok(CellAccView { repeat: v, ..acc }),
                        None => Err(OdsErrorView::NumericParseError(a.value)),
                    }
                } else if a.key == "table:number-rows-spanned"@ {
                    match spec_parse_u32(a.value) {
                        Some(v) => Ok(
                            CellAccView {
                                cell: CellView { row_span: span_of(v), ..acc.cell },
                                ..acc
                            },
                        ),
                        None => Err(OdsErrorView::NumericParseError(a.value)),
                    }
                } else if a.key == "table:number-columns-spanned"@ {
                    match spec_parse_u32(a.value) {
                        Some(v) => Ok(
                            CellAccView {
                                cell: CellView { col_span: span_of(v), ..acc.cell },
                                ..acc
                            },
                        ),
                        None => Err(OdsErrorView::NumericParseError(a.value)),
                    }
                } else if a.key == "office:value-type"@ {
                    match spec_decode_value_type(a.value) {
                        Ok(vt) => Ok(CellAccView { value_type: Some(vt), ..acc }),
                        Err(e) => Err(e),
                    }
                } else if a.key == "office:date-value"@ || a.key == "office:time-value"@
                    || a.key == "office:value"@ || a.key == "office:boolean-value"@ {
                    Ok(CellAccView { cell_value: Some(a.value), ..acc })
                } else if a.key == "office:currency"@ {
                    Ok(CellAccView { currency: Some(a.value), ..acc })
                } else if a.key == "table:formula"@ {
                    Ok(
                        CellAccView {
                            cell: CellView { formula: Some(a.value), ..acc.cell },
                            ..acc
                        },
                    )
                } else if a.key == "table:style-name"@ {
                    Ok(
                        CellAccView {
                            cell: CellView { style: Some(a.value), ..acc.cell },
                            ..acc
                        },
                    )
                } else {
                    Ok(acc)
                }
            },
        }
    }
}

proof fn lemma_read_cell_err_persists(covered: bool, attrs: Seq<AttrView>, j: int)
    requires
        0 <= j <= attrs.len(),
        spec_read_cell_attrs(covered, attrs.take(j)) is Err,
    ensures
        spec_read_cell_attrs(covered, attrs) == spec_read_cell_attrs(covered, attrs.take(j)),
    decreases attrs.len() - j,
{
    if j == attrs.len() {
        assert(attrs.take(j) =~= attrs);
    } else {
        assert(attrs.take(j + 1).drop_last() =~= attrs.take(j));
        lemma_read_cell_err_persists(covered, attrs, j + 1);
    }
}

fn read_cell_attrs(covered: bool, attrs: &Vec<XmlAttr>) -> (r: Result<CellAcc, OdsError>)
    ensures
        match (r, spec_read_cell_attrs(covered, attrs.deep_view())) {
            (Ok(acc), Ok(sacc)) => acc@ == sacc,
            (Err(e), Err(se)) => e@ == se,
            _ => false,
        },
{
    let ghost av = attrs.deep_view();
    let n = attrs.len();
    let mut acc = CellAcc {
        covered: covered,
        repeat: 1,
        cell: SCell::new(),
        value_type: None,
        cell_value: None,
        content: None,
        currency: None,
    };
    let mut i: usize = 0;
    while i < n
        invariant
            0 <= i <= n == attrs.len(),
            av == attrs.deep_view(),
            spec_read_cell_attrs(covered, av.take(i as int)) == Ok::<CellAccView, OdsErrorView>(
                acc@,
            ),
        decreases n - i,
    {
        proof {
            assert(av.take(i + 1).drop_last() =~= av.take(i as int));
            assert(av.take(i + 1).last() == av[i as int]);
        }
        let a = &attrs[i];
        if str_eq(a.key.as_str(), "table:number-columns-repeated") {
            match parse_u32(a.value.as_str()) {
                Some(v) => {
                    acc.repeat = v;
                },
                None => {
                    proof {
                        lemma_read_cell_err_persists(covered, av, i + 1);
                    }
                    return Err(OdsError::NumericParseError(a.value.clone()));
                },
            }
        } else if str_eq(a.key.as_str(), "table:number-rows-spanned") {
            match parse_u32(a.value.as_str()) {
                Some(v) => {
                    acc.cell.set_row_span(span_of_exec(v));
                },
                None => {
                    proof {
                        lemma_read_cell_err_persists(covered, av, i + 1);
                    }
                    return Err(OdsError::NumericParseError(a.value.clone()));
                },
            }
        } else if str_eq(a.key.as_str(), "table:number-columns-spanned") {
            match parse_u32(a.value.as_str()) {
                Some(v) => {
                    acc.cell.set_col_span(span_of_exec(v));
                },
                None => {
                    proof {
                        lemma_read_cell_err_persists(covered, av, i + 1);
                    }
                    return Err(OdsError::NumericParseError(a.value.clone()));
                },
            }
        } else if str_eq(a.key.as_str(), "office:value-type") {
            match decode_value_type(a.value.as_str()) {
                Ok(vt) => {
                    acc.value_type = Some(vt);
                },
                Err(e) => {
                    proof {
                        lemma_read_cell_err_persists(covered, av, i + 1);
                    }
                    return Err(e);
                },
            }
        } else if str_eq(a.key.as_str(), "office:date-value") || str_eq(
            a.key.as_str(),
            "office:time-value",
        ) || str_eq(a.key.as_str(), "office:value") || str_eq(
            a.key.as_str(),
            "office:boolean-value",
        ) {
            acc.cell_value = Some(a.value.clone());
        } else if str_eq(a.key.as_str(), "office:currency") {
            acc.currency = Some(a.value.clone());
        } else if str_eq(a.key.as_str(), "table:formula") {
            acc.cell.set_formula(a.value.clone());
        } else if str_eq(a.key.as_str(), "table:style-name") {
            acc.cell.set_style(a.value.clone());
        }
        i = i + 1;
    }
    proof {
        assert(av.take(n as int) =~= av);
    }
    Ok(acc)
}

// ---------------------------------------------------------------------------
// self-closing cells

pub open spec fn some_or_empty(c: Option<CellView>) -> CellView {
    match c {
        Some(x) => x,
        None => CellView::empty_cell(),
    }
}

/// Self-closing cell attributes: a pure filler carries none of formula,
/// style or span, and then only the repeat count matters; any of those
/// builds one minimal cell.
pub open spec fn spec_read_empty_cell(attrs: Seq<AttrView>) -> Result<
    (Option<CellView>, Ucell),
    OdsErrorView,
>
    decreases attrs.len(),
{
    if attrs.len() == 0 {
        Ok((None, 1u32))
    } else {
        match spec_read_empty_cell(attrs.drop_last()) {
            Err(e) => Err(e),
            Ok((c, rep)) => {
                let a = attrs.last();
                if a.key == "table:number-columns-repeated"@ {
                    match spec_parse_u32(a.value) {
                        Some(v) => Ok((c, v)),
                        None => Err(OdsErrorView::NumericParseError(a.value)),
                    }
                } else if a.key == "table:formula"@ {
                    Ok((Some(CellView { formula: Some(a.value), ..some_or_empty(c) }), rep))
                } else if a.key == "table:style-name"@ {
                    Ok((Some(CellView { style: Some(a.value), ..some_or_empty(c) }), rep))
                } else if a.key == "table:number-rows-spanned"@ {
                    match spec_parse_u32(a.value) {
                        Some(v) => Ok(
                            (Some(CellView { row_span: span_of(v), ..some_or_empty(c) }), rep),
                        ),
                        None => Err(OdsErrorView::NumericParseError(a.value)),
                    }
                } else if a.key == "table:number-columns-spanned"@ {
                    match spec_parse_u32(a.value) {
                        Some(v) => Ok(
                            (Some(CellView { col_span: span_of(v), ..some_or_empty(c) }), rep),
                        ),
                        None => Err(OdsErrorView::NumericParseError(a.value)),
                    }
                } else {
                    Ok((c, rep))
                }
            },
        }
    }
}

proof fn lemma_read_empty_cell_err_persists(attrs: Seq<AttrView>, j: int)
    requires
        0 <= j <= attrs.len(),
        spec_read_empty_cell(attrs.take(j)) is Err,
    ensures
        spec_read_empty_cell(attrs) == spec_read_empty_cell(attrs.take(j)),
    decreases attrs.len() - j,
{
    if j == attrs.len() {
        assert(attrs.take(j) =~= attrs);
    } else {
        assert(attrs.take(j + 1).drop_last() =~= attrs.take(j));
        lemma_read_empty_cell_err_persists(attrs, j + 1);
    }
}

fn read_empty_cell_attrs(attrs: &Vec<XmlAttr>) -> (r: Result<(Option<SCell>, Ucell), OdsError>)
    ensures
        match (r, spec_read_empty_cell(attrs.deep_view())) {
            (Ok((c, rep)), Ok((sc, srep))) => rep == srep && match (c, sc) {
                (Some(cc), Some(scc)) => cc@ == scc,
                (None, None) => true,
                _ => false,
            },
            (Err(e), Err(se)) => e@ == se,
            _ => false,
        },
{
    let ghost av = attrs.deep_view();
    let n = attrs.len();
    let mut cell: Option<SCell> = None;
    let mut rep: Ucell = 1;
    let mut i: usize = 0;
    while i < n
        invariant
            0 <= i <= n == attrs.len(),
            av == attrs.deep_view(),
            spec_read_empty_cell(av.take(i as int)) == Ok::<
                (Option<CellView>, Ucell),
                OdsErrorView,
            >(
                (
                    match cell {
                        Some(ref c) => Some(c@),
                        None => None,
                    },
                    rep,
                ),
            ),
        decreases n - i,
    {
        proof {
            assert(av.take(i + 1).drop_last() =~= av.take(i as int));
            assert(av.take(i + 1).last() == av[i as int]);
        }
        let a = &attrs[i];
        if str_eq(a.key.as_str(), "table:number-columns-repeated") {
            match parse_u32(a.value.as_str()) {
                Some(v) => {
                    rep = v;
                },
                None => {
                    proof {
                        lemma_read_empty_cell_err_persists(av, i + 1);
                    }
                    return Err(OdsError::NumericParseError(a.value.clone()));
                },
            }
        } else if str_eq(a.key.as_str(), "table:formula") {
            let mut c = match cell {
                Some(c) => c,
                None => SCell::new(),
            };
            c.set_formula(a.value.clone());
            cell = Some(c);
        } else if str_eq(a.key.as_str(), "table:style-name") {
            let mut c = match cell {
                Some(c) => c,
                None => SCell::new(),
            };
            c.set_style(a.value.clone());
            cell = Some(c);
        } else if str_eq(a.key.as_str(), "table:number-rows-spanned") {
            match parse_u32(a.value.as_str()) {
                Some(v) => {
                    let mut c = match cell {
                        Some(c) => c,
                        None => SCell::new(),
                    };
                    c.set_row_span(span_of_exec(v));
                    cell = Some(c);
                },
                None => {
                    proof {
                        lemma_read_empty_cell_err_persists(av, i + 1);
                    }
                    return Err(OdsError::NumericParseError(a.value.clone()));
                },
            }
        } else if str_eq(a.key.as_str(), "table:number-columns-spanned") {
            match parse_u32(a.value.as_str()) {
                Some(v) => {
                    let mut c = match cell {
                        Some(c) => c,
                        None => SCell::new(),
                    };
                    c.set_col_span(span_of_exec(v));
                    cell = Some(c);
                },
                None => {
                    proof {
                        lemma_read_empty_cell_err_persists(av, i + 1);
                    }
                    return Err(OdsError::NumericParseError(a.value.clone()));
                },
            }
        }
        i = i + 1;
    }
    proof {
        assert(av.take(n as int) =~= av);
    }
    Ok((cell, rep))
}

// ---------------------------------------------------------------------------
// fonts

/// Font-face attributes: `style:name` names the font, everything else goes
/// into its property bag.
pub open spec fn spec_font_from_attrs(attrs: Seq<AttrView>) -> FontFaceDeclView
    decreases attrs.len(),
{
    if attrs.len() == 0 {
        FontFaceDeclView { name: Seq::empty(), prp: Map::empty() }
    } else {
        let f = spec_font_from_attrs(attrs.drop_last());
        let a = attrs.last();
        if a.key == "style:name"@ {
            FontFaceDeclView { name: a.value, ..f }
        } else {
            FontFaceDeclView { prp: f.prp.insert(a.key, a.value), ..f }
        }
    }
}

fn font_from_attrs(attrs: &Vec<XmlAttr>) -> (r: FontFaceDecl)
    ensures
        r@ == spec_font_from_attrs(attrs.deep_view()),
{
    let ghost av = attrs.deep_view();
    let n = attrs.len();
    let mut f = FontFaceDecl::new();
    let mut i: usize = 0;
    while i < n
        invariant
            0 <= i <= n == attrs.len(),
            av == attrs.deep_view(),
            f@ == spec_font_from_attrs(av.take(i as int)),
        decreases n - i,
    {
        proof {
            assert(av.take(i + 1).drop_last() =~= av.take(i as int));
            assert(av.take(i + 1).last() == av[i as int]);
        }
        let a = &attrs[i];
        if str_eq(a.key.as_str(), "style:name") {
            f.set_name(a.value.clone());
        } else {
            f.set_prp(a.key.as_str(), a.value.clone());
        }
        i = i + 1;
    }
    proof {
        assert(av.take(n as int) =~= av);
    }
    f
}

// ---------------------------------------------------------------------------
// styles

/// Style attributes: name, family, parent style and data style.  An
/// unrecognized family token leaves the family tag as it stands.
pub open spec fn spec_read_style_attrs(style: StyleView, attrs: Seq<AttrView>) -> StyleView
    decreases attrs.len(),
{
    if attrs.len() == 0 {
        style
    } else {
        let s = spec_read_style_attrs(style, attrs.drop_last());
        let a = attrs.last();
        if a.key == "style:name"@ {
            StyleView { name: a.value, ..s }
        } else if a.key == "style:family"@ {
            if a.value == "table"@ {
                StyleView { family: StyleFor::Table, ..s }
            } else if a.value == "table-column"@ {
                StyleView { family: StyleFor::TableColumn, ..s }
            } else if a.value == "table-row"@ {
                StyleView { family: StyleFor::TableRow, ..s }
            } else if a.value == "table-cell"@ {
                StyleView { family: StyleFor::TableCell, ..s }
            } else {
                s
            }
        } else if a.key == "style:parent-style-name"@ {
            StyleView { parent: Some(a.value), ..s }
        } else if a.key == "style:data-style-name"@ {
            StyleView { value_format: Some(a.value), ..s }
        } else {
            s
        }
    }
}

fn read_style_attrs(style: &mut Style, attrs: &Vec<XmlAttr>)
    ensures
        final(style)@ == spec_read_style_attrs(old(style)@, attrs.deep_view()),
{
    let ghost av = attrs.deep_view();
    let n = attrs.len();
    let mut i: usize = 0;
    while i < n
        invariant
            0 <= i <= n == attrs.len(),
            av == attrs.deep_view(),
            style@ == spec_read_style_attrs(old(style)@, av.take(i as int)),
        decreases n - i,
    {
        proof {
            assert(av.take(i + 1).drop_last() =~= av.take(i as int));
            assert(av.take(i + 1).last() == av[i as int]);
        }
        let a = &attrs[i];
        if str_eq(a.key.as_str(), "style:name") {
            style.set_name(a.value.clone());
        } else if str_eq(a.key.as_str(), "style:family") {
            if str_eq(a.value.as_str(), "table") {
                style.set_family(StyleFor::Table);
            } else if str_eq(a.value.as_str(), "table-column") {
                style.set_family(StyleFor::TableColumn);
            } else if str_eq(a.value.as_str(), "table-row") {
                style.set_family(StyleFor::TableRow);
            } else if str_eq(a.value.as_str(), "table-cell") {
                style.set_family(StyleFor::TableCell);
            }
        } else if str_eq(a.key.as_str(), "style:parent-style-name") {
            style.set_parent(a.value.clone());
        } else if str_eq(a.key.as_str(), "style:data-style-name") {
            style.set_value_format(a.value.clone());
        }
        i = i + 1;
    }
    proof {
        assert(av.take(n as int) =~= av);
    }
}

/// Copies attributes verbatim into a property bag, last write winning.
pub open spec fn spec_props_into(
    bag: Map<Seq<char>, Seq<char>>,
    attrs: Seq<AttrView>,
) -> Map<Seq<char>, Seq<char>>
    decreases attrs.len(),
{
    if attrs.len() == 0 {
        bag
    } else {
        spec_props_into(bag, attrs.drop_last()).insert(attrs.last().key, attrs.last().value)
    }
}


fn copy_table_props(style: &mut Style, attrs: &Vec<XmlAttr>)
    ensures
        final(style)@ == (StyleView {
            table_prp: spec_props_into(old(style)@.table_prp, attrs.deep_view()),
            ..old(style)@
        }),
{
    let ghost av = attrs.deep_view();
    let n = attrs.len();
    let mut i: usize = 0;
    while i < n
        invariant
            0 <= i <= n == attrs.len(),
            av == attrs.deep_view(),
            style@ == (StyleView {
                table_prp: spec_props_into(old(style)@.table_prp, av.take(i as int)),
                ..old(style)@
            }),
        decreases n - i,
    {
        proof {
            assert(av.take(i + 1).drop_last() =~= av.take(i as int));
            assert(av.take(i + 1).last() == av[i as int]);
        }
        let a = &attrs[i];
        style.set_table_prp(a.key.as_str(), a.value.clone());
        i = i + 1;
    }
    proof {
        assert(av.take(n as int) =~= av);
    }
}

fn copy_table_col_props(style: &mut Style, attrs: &Vec<XmlAttr>)
    ensures
        final(style)@ == (StyleView {
            table_col_prp: spec_props_into(old(style)@.table_col_prp, attrs.deep_view()),
            ..old(style)@
        }),
{
    let ghost av = attrs.deep_view();
    let n = attrs.len();
    let mut i: usize = 0;
    while i < n
        invariant
            0 <= i <= n == attrs.len(),
            av == attrs.deep_view(),
            style@ == (StyleView {
                table_col_prp: spec_props_into(old(style)@.table_col_prp, av.take(i as int)),
                ..old(style)@
            }),
        decreases n - i,
    {
        proof {
            assert(av.take(i + 1).drop_last() =~= av.take(i as int));
            assert(av.take(i + 1).last() == av[i as int]);
        }
        let a = &attrs[i];
        style.set_table_col_prp(a.key.as_str(), a.value.clone());
        i = i + 1;
    }
    proof {
        assert(av.take(n as int) =~= av);
    }
}

fn copy_table_row_props(style: &mut Style, attrs: &Vec<XmlAttr>)
    ensures
        final(style)@ == (StyleView {
            table_row_prp: spec_props_into(old(style)@.table_row_prp, attrs.deep_view()),
            ..old(style)@
        }),
{
    let ghost av = attrs.deep_view();
    let n = attrs.len();
    let mut i: usize = 0;
    while i < n
        invariant
            0 <= i <= n == attrs.len(),
            av == attrs.deep_view(),
            style@ == (StyleView {
                table_row_prp: spec_props_into(old(style)@.table_row_prp, av.take(i as int)),
                ..old(style)@
            }),
        decreases n - i,
    {
        proof {
            assert(av.take(i + 1).drop_last() =~= av.take(i as int));
            assert(av.take(i + 1).last() == av[i as int]);
        }
        let a = &attrs[i];
        style.set_table_row_prp(a.key.as_str(), a.value.clone());
        i = i + 1;
    }
    proof {
        assert(av.take(n as int) =~= av);
    }
}

fn copy_table_cell_props(style: &mut Style, attrs: &Vec<XmlAttr>)
    ensures
        final(style)@ == (StyleView {
            table_cell_prp: spec_props_into(old(style)@.table_cell_prp, attrs.deep_view()),
            ..old(style)@
        }),
{
    let ghost av = attrs.deep_view();
    let n = attrs.len();
    let mut i: usize = 0;
    while i < n
        invariant
            0 <= i <= n == attrs.len(),
            av == attrs.deep_view(),
            style@ == (StyleView {
                table_cell_prp: spec_props_into(old(style)@.table_cell_prp, av.take(i as int)),
                ..old(style)@
            }),
        decreases n - i,
    {
        proof {
            assert(av.take(i + 1).drop_last() =~= av.take(i as int));
            assert(av.take(i + 1).last() == av[i as int]);
        }
        let a = &attrs[i];
        style.set_table_cell_prp(a.key.as_str(), a.value.clone());
        i = i + 1;
    }
    proof {
        assert(av.take(n as int) =~= av);
    }
}

fn copy_text_props(style: &mut Style, attrs: &Vec<XmlAttr>)
    ensures
        final(style)@ == (StyleView {
            text_prp: spec_props_into(old(style)@.text_prp, attrs.deep_view()),
            ..old(style)@
        }),
{
    let ghost av = attrs.deep_view();
    let n = attrs.len();
    let mut i: usize = 0;
    while i < n
        invariant
            0 <= i <= n == attrs.len(),
            av == attrs.deep_view(),
            style@ == (StyleView {
                text_prp: spec_props_into(old(style)@.text_prp, av.take(i as int)),
                ..old(style)@
            }),
        decreases n - i,
    {
        proof {
            assert(av.take(i + 1).drop_last() =~= av.take(i as int));
            assert(av.take(i + 1).last() == av[i as int]);
        }
        let a = &attrs[i];
        style.set_text_prp(a.key.as_str(), a.value.clone());
        i = i + 1;
    }
    proof {
        assert(av.take(n as int) =~= av);
    }
}

fn copy_paragraph_props(style: &mut Style, attrs: &Vec<XmlAttr>)
    ensures
        final(style)@ == (StyleView {
            paragraph_prp: spec_props_into(old(style)@.paragraph_prp, attrs.deep_view()),
            ..old(style)@
        }),
{
    let ghost av = attrs.deep_view();
    let n = attrs.len();
    let mut i: usize = 0;
    while i < n
        invariant
            0 <= i <= n == attrs.len(),
            av == attrs.deep_view(),
            style@ == (StyleView {
                paragraph_prp: spec_props_into(old(style)@.paragraph_prp, av.take(i as int)),
                ..old(style)@
            }),
        decreases n - i,
    {
        proof {
            assert(av.take(i + 1).drop_last() =~= av.take(i as int));
            assert(av.take(i + 1).last() == av[i as int]);
        }
        let a = &attrs[i];
        style.set_paragraph_prp(a.key.as_str(), a.value.clone());
        i = i + 1;
    }
    proof {
        assert(av.take(n as int) =~= av);
    }
}

/// Value-format attributes: the value type comes from the element kind,
/// `style:name` names the format, everything else goes into its bag.
pub open spec fn spec_read_format_attrs(
    f: ValueFormatView,
    vt: ValueType,
    attrs: Seq<AttrView>,
) -> ValueFormatView
    decreases attrs.len(),
{
    if attrs.len() == 0 {
        ValueFormatView { v_type: vt, ..f }
    } else {
        let g = spec_read_format_attrs(f, vt, attrs.drop_last());
        let a = attrs.last();
        if a.key == "style:name"@ {
            ValueFormatView { name: a.value, ..g }
        } else {
            ValueFormatView { prp: g.prp.insert(a.key, a.value), ..g }
        }
    }
}

fn read_format_attrs(f: &mut ValueFormat, vt: ValueType, attrs: &Vec<XmlAttr>)
    ensures
        final(f)@ == spec_read_format_attrs(old(f)@, vt, attrs.deep_view()),
{
    let ghost av = attrs.deep_view();
    let n = attrs.len();
    f.set_value_type(vt);
    let mut i: usize = 0;
    while i < n
        invariant
            0 <= i <= n == attrs.len(),
            av == attrs.deep_view(),
            f@ == spec_read_format_attrs(old(f)@, vt, av.take(i as int)),
        decreases n - i,
    {
        proof {
            assert(av.take(i + 1).drop_last() =~= av.take(i as int));
            assert(av.take(i + 1).last() == av[i as int]);
        }
        let a = &attrs[i];
        if str_eq(a.key.as_str(), "style:name") {
            f.set_name(a.value.clone());
        } else {
            f.set_prp(a.key.as_str(), a.value.clone());
        }
        i = i + 1;
    }
    proof {
        assert(av.take(n as int) =~= av);
    }
}

/// A format part of the given kind with every attribute copied into its
/// property bag.
pub open spec fn spec_part_from_attrs(pt: FormatPartType, attrs: Seq<AttrView>) -> FormatPartView
    decreases attrs.len(),
{
    if attrs.len() == 0 {
        FormatPartView { part_type: pt, prp: Map::empty(), content: None }
    } else {
        let p = spec_part_from_attrs(pt, attrs.drop_last());
        FormatPartView { prp: p.prp.insert(attrs.last().key, attrs.last().value), ..p }
    }
}

fn part_from_attrs(pt: FormatPartType, attrs: &Vec<XmlAttr>) -> (r: FormatPart)
    ensures
        r@ == spec_part_from_attrs(pt, attrs.deep_view()),
{
    let ghost av = attrs.deep_view();
    let n = attrs.len();
    let mut p = FormatPart::new(pt);
    let mut i: usize = 0;
    while i < n
        invariant
            0 <= i <= n == attrs.len(),
            av == attrs.deep_view(),
            p@ == spec_part_from_attrs(pt, av.take(i as int)),
        decreases n - i,
    {
        proof {
            assert(av.take(i + 1).drop_last() =~= av.take(i as int));
            assert(av.take(i + 1).last() == av[i as int]);
        }
        let a = &attrs[i];
        p.set_prp(a.key.as_str(), a.value.clone());
        i = i + 1;
    }
    proof {
        assert(av.take(n as int) =~= av);
    }
    p
}


// ---------------------------------------------------------------------------
// the machine

pub open spec fn fresh_format() -> ValueFormatView {
    ValueFormatView {
        name: Seq::empty(),
        v_type: ValueType::Text,
        prp: Map::empty(),
        parts: Seq::empty(),
    }
}

/// Accumulators of the styles section: the style and the value format under
/// construction, and a pending literal-text part.
struct StyleAcc {
    style: Style,
    format: ValueFormat,
    part: Option<FormatPart>,
}

pub struct StyleAccView {
    pub style: StyleView,
    pub format: ValueFormatView,
    pub part: Option<FormatPartView>,
}

impl View for StyleAcc {
    type V = StyleAccView;

    closed spec fn view(&self) -> StyleAccView {
        StyleAccView { style: self.style@, format: self.format@, part: self.part.deep_view() }
    }
}

pub open spec fn style_acc_init() -> StyleAccView {
    StyleAccView {
        style: StyleView::fresh(Seq::empty(), StyleFor::Other),
        format: fresh_format(),
        part: None,
    }
}

enum Mode {
    Content,
    Fonts,
    Styles(StyleAcc),
    Cell(CellAcc),
}

pub enum ModeView {
    Content,
    Fonts,
    Styles(StyleAccView),
    Cell(CellAccView),
}

impl View for Mode {
    type V = ModeView;

    closed spec fn view(&self) -> ModeView {
        match self {
            Mode::Content => ModeView::Content,
            Mode::Fonts => ModeView::Fonts,
            Mode::Styles(acc) => ModeView::Styles(acc@),
            Mode::Cell(acc) => ModeView::Cell(acc@),
        }
    }
}

struct Decoder {
    book: WorkBook,
    sheet: Sheet,
    tcol: Ucell,
    row: Ucell,
    col: Ucell,
    row_repeat: Ucell,
    row_style: Option<String>,
    col_range_from: Ucell,
    row_range_from: Ucell,
    mode: Mode,
}

pub struct DecoderView {
    pub book: WorkBookView,
    pub sheet: SheetView,
    pub tcol: Ucell,
    pub row: Ucell,
    pub col: Ucell,
    pub row_repeat: Ucell,
    pub row_style: Option<Seq<char>>,
    pub col_range_from: Ucell,
    pub row_range_from: Ucell,
    pub mode: ModeView,
}

impl View for Decoder {
    type V = DecoderView;

    closed spec fn view(&self) -> DecoderView {
        DecoderView {
            book: self.book@,
            sheet: self.sheet@,
            tcol: self.tcol,
            row: self.row,
            col: self.col,
            row_repeat: self.row_repeat,
            row_style: self.row_style.deep_view(),
            col_range_from: self.col_range_from,
            row_range_from: self.row_range_from,
            mode: self.mode@,
        }
    }
}

pub open spec fn decoder_init() -> DecoderView {
    DecoderView {
        book: WorkBookView::empty_book(),
        sheet: SheetView::empty_sheet(),
        tcol: 0,
        row: 0,
        col: 0,
        row_repeat: 1,
        row_style: None,
        col_range_from: 0,
        row_range_from: 0,
        mode: ModeView::Content,
    }
}

/// The value type a `number:<kind>-style` element declares.
pub open spec fn spec_format_kind(name: Seq<char>) -> Option<ValueType> {
    if name == "number:boolean-style"@ {
        Some(ValueType::Boolean)
    } else if name == "number:date-style"@ {
        Some(ValueType::DateTime)
    } else if name == "number:time-style"@ {
        Some(ValueType::TimeDuration)
    } else if name == "number:number-style"@ {
        Some(ValueType::Number)
    } else if name == "number:currency-style"@ {
        Some(ValueType::Currency)
    } else if name == "number:percentage-style"@ {
        Some(ValueType::Percentage)
    } else if name == "number:text-style"@ {
        Some(ValueType::Text)
    } else {
        None
    }
}

fn format_kind(name: &str) -> (r: Option<ValueType>)
    ensures
        r == spec_format_kind(name@),
{
    if str_eq(name, "number:boolean-style") {
        Some(ValueType::Boolean)
    } else if str_eq(name, "number:date-style") {
        Some(ValueType::DateTime)
    } else if str_eq(name, "number:time-style") {
        Some(ValueType::TimeDuration)
    } else if str_eq(name, "number:number-style") {
        Some(ValueType::Number)
    } else if str_eq(name, "number:currency-style") {
        Some(ValueType::Currency)
    } else if str_eq(name, "number:percentage-style") {
        Some(ValueType::Percentage)
    } else if str_eq(name, "number:text-style") {
        Some(ValueType::Text)
    } else {
        None
    }
}

/// The part kind a token element appends, for the kinds pushed on sight.
/// The two elements that may carry literal text, `number:currency-symbol`
/// and `number:text`, are buffered instead and are not listed here.
pub open spec fn spec_part_kind(name: Seq<char>) -> Option<FormatPartType> {
    if name == "number:boolean"@ {
        Some(FormatPartType::Boolean)
    } else if name == "number:number"@ {
        Some(FormatPartType::Number)
    } else if name == "number:scientific-number"@ {
        Some(FormatPartType::Scientific)
    } else if name == "number:day"@ {
        Some(FormatPartType::Day)
    } else if name == "number:month"@ {
        Some(FormatPartType::Month)
    } else if name == "number:year"@ {
        Some(FormatPartType::Year)
    } else if name == "number:era"@ {
        Some(FormatPartType::Era)
    } else if name == "number:day-of-week"@ {
        Some(FormatPartType::DayOfWeek)
    } else if name == "number:week-of-year"@ {
        Some(FormatPartType::WeekOfYear)
    } else if name == "number:quarter"@ {
        Some(FormatPartType::Quarter)
    } else if name == "number:hours"@ {
        Some(FormatPartType::Hours)
    } else if name == "number:minutes"@ {
        Some(FormatPartType::Minutes)
    } else if name == "number:seconds"@ {
        Some(FormatPartType::Seconds)
    } else if name == "number:fraction"@ {
        Some(FormatPartType::Fraction)
    } else if name == "number:am-pm"@ {
        Some(FormatPartType::AmPm)
    } else if name == "number:embedded-text"@ {
        Some(FormatPartType::EmbeddedText)
    } else if name == "number:text-content"@ {
        Some(FormatPartType::TextContent)
    } else if name == "style:text"@ {
        Some(FormatPartType::Day)
    } else if name == "style:map"@ {
        Some(FormatPartType::StyleMap)
    } else {
        None
    }
}

fn part_kind(name: &str) -> (r: Option<FormatPartType>)
    ensures
        r == spec_part_kind(name@),
{
    if str_eq(name, "number:boolean") {
        Some(FormatPartType::Boolean)
    } else if str_eq(name, "number:number") {
        Some(FormatPartType::Number)
    } else if str_eq(name, "number:scientific-number") {
        Some(FormatPartType::Scientific)
    } else if str_eq(name, "number:day") {
        Some(FormatPartType::Day)
    } else if str_eq(name, "number:month") {
        Some(FormatPartType::Month)
    } else if str_eq(name, "number:year") {
        Some(FormatPartType::Year)
    } else if str_eq(name, "number:era") {
        Some(FormatPartType::Era)
    } else if str_eq(name, "number:day-of-week") {
        Some(FormatPartType::DayOfWeek)
    } else if str_eq(name, "number:week-of-year") {
        Some(FormatPartType::WeekOfYear)
    } else if str_eq(name, "number:quarter") {
        Some(FormatPartType::Quarter)
    } else if str_eq(name, "number:hours") {
        Some(FormatPartType::Hours)
    } else if str_eq(name, "number:minutes") {
        Some(FormatPartType::Minutes)
    } else if str_eq(name, "number:seconds") {
        Some(FormatPartType::Seconds)
    } else if str_eq(name, "number:fraction") {
        Some(FormatPartType::Fraction)
    } else if str_eq(name, "number:am-pm") {
        Some(FormatPartType::AmPm)
    } else if str_eq(name, "number:embedded-text") {
        Some(FormatPartType::EmbeddedText)
    } else if str_eq(name, "number:text-content") {
        Some(FormatPartType::TextContent)
    } else if str_eq(name, "style:text") {
        Some(FormatPartType::Day)
    } else if str_eq(name, "style:map") {
        Some(FormatPartType::StyleMap)
    } else {
        None
    }
}


// ---------------------------------------------------------------------------
// one step of the machine, specification

/// A top-level event.
pub open spec fn spec_step_content(d: DecoderView, ev: EventView) -> Result<
    DecoderView,
    OdsErrorView,
> {
    match ev {
        EventView::Start(name, attrs) => {
            if name == "table:table"@ {
                match spec_read_table(d.sheet, attrs) {
                    Ok(s) => Ok(DecoderView { sheet: s, ..d }),
                    Err(e) => Err(e),
                }
            } else if name == "table:table-header-columns"@ {
                Ok(DecoderView { col_range_from: d.tcol, ..d })
            } else if name == "table:table-header-rows"@ {
                Ok(DecoderView { row_range_from: d.row, ..d })
            } else if name == "table:table-row"@ {
                match spec_read_row(d.row_style, attrs) {
                    Ok((rep, st)) => Ok(DecoderView { row_repeat: rep, row_style: st, ..d }),
                    Err(e) => Err(e),
                }
            } else if name == "office:font-face-decls"@ {
                Ok(DecoderView { mode: ModeView::Fonts, ..d })
            } else if name == "office:automatic-styles"@ {
                Ok(DecoderView { mode: ModeView::Styles(style_acc_init()), ..d })
            } else if name == "table:table-cell"@ || name == "table:covered-table-cell"@ {
                match spec_read_cell_attrs(name == "table:covered-table-cell"@, attrs) {
                    Ok(acc) => Ok(DecoderView { mode: ModeView::Cell(acc), ..d }),
                    Err(e) => Err(e),
                }
            } else {
                Ok(d)
            }
        },
        EventView::Empty(name, attrs) => {
            if name == "table:table-column"@ {
                match spec_read_col(attrs) {
                    Ok((st, cst, rep)) => {
                        let sc = spec_apply_columns(d.sheet, d.tcol, st, cst, rep);
                        Ok(DecoderView { sheet: sc.0, tcol: sc.1, ..d })
                    },
                    Err(e) => Err(e),
                }
            } else if name == "table:table-cell"@ || name == "table:covered-table-cell"@ {
                match spec_read_empty_cell(attrs) {
                    Ok((None, rep)) => Ok(DecoderView { col: sat_add(d.col, rep), ..d }),
                    Ok((Some(cell), rep)) => {
                        let dc = spec_insert_repeated(
                            d.sheet.data,
                            d.row,
                            d.row_repeat,
                            d.col,
                            cell,
                            rep,
                        );
                        Ok(
                            DecoderView {
                                sheet: SheetView { data: dc.0, ..d.sheet },
                                col: dc.1,
                                ..d
                            },
                        )
                    },
                    Err(e) => Err(e),
                }
            } else {
                Ok(d)
            }
        },
        EventView::End(name) => {
            if name == "table:table"@ {
                Ok(
                    DecoderView {
                        row: 0,
                        col: 0,
                        book: WorkBookView { sheets: d.book.sheets.push(d.sheet), ..d.book },
                        sheet: SheetView::empty_sheet(),
                        ..d
                    },
                )
            } else if name == "table:table-header-columns"@ {
                Ok(
                    DecoderView {
                        sheet: SheetView {
                            header_cols: Some(
                                (ColRange { from: d.col_range_from, to: sat_dec(d.tcol) }),
                            ),
                            ..d.sheet
                        },
                        ..d
                    },
                )
            } else if name == "table:table-header-rows"@ {
                Ok(
                    DecoderView {
                        sheet: SheetView {
                            header_rows: Some(
                                (RowRange { from: d.row_range_from, to: sat_dec(d.row) }),
                            ),
                            ..d.sheet
                        },
                        ..d
                    },
                )
            } else if name == "table:table-row"@ {
                Ok(
                    DecoderView {
                        row_style: None,
                        row: sat_add(d.row, d.row_repeat),
                        col: 0,
                        row_repeat: 1,
                        ..d
                    },
                )
            } else {
                Ok(d)
            }
        },
        _ => Ok(d),
    }
}

/// An event inside the font section.
pub open spec fn spec_step_fonts(d: DecoderView, ev: EventView) -> Result<
    DecoderView,
    OdsErrorView,
> {
    match ev {
        EventView::Start(name, attrs) => {
            if name == "style:font-face"@ {
                let f = spec_font_from_attrs(attrs);
                Ok(
                    DecoderView {
                        book: WorkBookView { fonts: d.book.fonts.insert(f.name, f), ..d.book },
                        ..d
                    },
                )
            } else {
                Ok(d)
            }
        },
        EventView::Empty(name, attrs) => {
            if name == "style:font-face"@ {
                let f = spec_font_from_attrs(attrs);
                Ok(
                    DecoderView {
                        book: WorkBookView { fonts: d.book.fonts.insert(f.name, f), ..d.book },
                        ..d
                    },
                )
            } else {
                Ok(d)
            }
        },
        EventView::End(name) => {
            if name == "office:font-face-decls"@ {
                Ok(DecoderView { mode: ModeView::Content, ..d })
            } else {
                Ok(d)
            }
        },
        _ => Ok(d),
    }
}

/// An opening element inside the styles section; `empty_el` says whether it
/// is self-closing.  Hands back the catalog book and the accumulators.
pub open spec fn spec_styles_open_parts(
    book: WorkBookView,
    acc: StyleAccView,
    name: Seq<char>,
    attrs: Seq<AttrView>,
    empty_el: bool,
) -> (WorkBookView, StyleAccView) {
    if name == "style:style"@ {
        let s2 = spec_read_style_attrs(acc.style, attrs);
        if empty_el {
            (
                WorkBookView { styles: book.styles.insert(s2.name, s2), ..book },
                StyleAccView { style: StyleView::fresh(Seq::empty(), StyleFor::Other), ..acc },
            )
        } else {
            (book, StyleAccView { style: s2, ..acc })
        }
    } else if name == "style:table-properties"@ {
        (
            book,
            StyleAccView {
                style: StyleView {
                    table_prp: spec_props_into(acc.style.table_prp, attrs),
                    ..acc.style
                },
                ..acc
            },
        )
    } else if name == "style:table-column-properties"@ {
        (
            book,
            StyleAccView {
                style: StyleView {
                    table_col_prp: spec_props_into(acc.style.table_col_prp, attrs),
                    ..acc.style
                },
                ..acc
            },
        )
    } else if name == "style:table-row-properties"@ {
        (
            book,
            StyleAccView {
                style: StyleView {
                    table_row_prp: spec_props_into(acc.style.table_row_prp, attrs),
                    ..acc.style
                },
                ..acc
            },
        )
    } else if name == "style:table-cell-properties"@ {
        (
            book,
            StyleAccView {
                style: StyleView {
                    table_cell_prp: spec_props_into(acc.style.table_cell_prp, attrs),
                    ..acc.style
                },
                ..acc
            },
        )
    } else if name == "style:text-properties"@ {
        (
            book,
            StyleAccView {
                style: StyleView {
                    text_prp: spec_props_into(acc.style.text_prp, attrs),
                    ..acc.style
                },
                ..acc
            },
        )
    } else if name == "style:paragraph-properties"@ {
        (
            book,
            StyleAccView {
                style: StyleView {
                    paragraph_prp: spec_props_into(acc.style.paragraph_prp, attrs),
                    ..acc.style
                },
                ..acc
            },
        )
    } else if spec_format_kind(name) is Some {
        (
            book,
            StyleAccView {
                format: spec_read_format_attrs(acc.format, spec_format_kind(name).unwrap(), attrs),
                ..acc
            },
        )
    } else if spec_part_kind(name) is Some {
        (
            book,
            StyleAccView {
                format: ValueFormatView {
                    parts: acc.format.parts.push(
                        spec_part_from_attrs(spec_part_kind(name).unwrap(), attrs),
                    ),
                    ..acc.format
                },
                ..acc
            },
        )
    } else if name == "number:currency-symbol"@ {
        let p = spec_part_from_attrs(FormatPartType::CurrencySymbol, attrs);
        if empty_el {
            (
                book,
                StyleAccView {
                    format: ValueFormatView { parts: acc.format.parts.push(p), ..acc.format },
                    part: None,
                    ..acc
                },
            )
        } else {
            (book, StyleAccView { part: Some(p), ..acc })
        }
    } else if name == "number:text"@ {
        let p = spec_part_from_attrs(FormatPartType::Text, attrs);
        if empty_el {
            (
                book,
                StyleAccView {
                    format: ValueFormatView { parts: acc.format.parts.push(p), ..acc.format },
                    part: None,
                    ..acc
                },
            )
        } else {
            (book, StyleAccView { part: Some(p), ..acc })
        }
    } else {
        (book, acc)
    }
}

/// An event inside the styles section.
pub open spec fn spec_step_styles(d: DecoderView, acc: StyleAccView, ev: EventView) -> Result<
    DecoderView,
    OdsErrorView,
> {
    match ev {
        EventView::Start(name, attrs) => {
            let p = spec_styles_open_parts(d.book, acc, name, attrs, false);
            Ok(DecoderView { book: p.0, mode: ModeView::Styles(p.1), ..d })
        },
        EventView::Empty(name, attrs) => {
            let p = spec_styles_open_parts(d.book, acc, name, attrs, true);
            Ok(DecoderView { book: p.0, mode: ModeView::Styles(p.1), ..d })
        },
        EventView::Text(t) => match acc.part {
            Some(p) => Ok(
                DecoderView {
                    mode: ModeView::Styles(
                        StyleAccView {
                            part: Some(
                                (FormatPartView {
                                    content: Some(
                                        match p.content {
                                            Some(c) => c + t,
                                            None => t,
                                        },
                                    ),
                                    ..p
                                }),
                            ),
                            ..acc
                        },
                    ),
                    ..d
                },
            ),
            None => Ok(d),
        },
        EventView::End(name) => {
            if name == "office:automatic-styles"@ {
                Ok(DecoderView { mode: ModeView::Content, ..d })
            } else if name == "style:style"@ {
                Ok(
                    DecoderView {
                        book: WorkBookView {
                            styles: d.book.styles.insert(acc.style.name, acc.style),
                            ..d.book
                        },
                        mode: ModeView::Styles(
                            StyleAccView {
                                style: StyleView::fresh(Seq::empty(), StyleFor::Other),
                                ..acc
                            },
                        ),
                        ..d
                    },
                )
            } else if spec_format_kind(name) is Some {
                Ok(
                    DecoderView {
                        book: WorkBookView {
                            formats: d.book.formats.insert(acc.format.name, acc.format),
                            ..d.book
                        },
                        mode: ModeView::Styles(StyleAccView { format: fresh_format(), ..acc }),
                        ..d
                    },
                )
            } else if name == "number:currency-symbol"@ || name == "number:text"@ {
                match acc.part {
                    Some(p) => Ok(
                        DecoderView {
                            mode: ModeView::Styles(
                                StyleAccView {
                                    format: ValueFormatView {
                                        parts: acc.format.parts.push(p),
                                        ..acc.format
                                    },
                                    part: None,
                                    ..acc
                                },
                            ),
                            ..d
                        },
                    ),
                    None => Ok(
                        DecoderView {
                            mode: ModeView::Styles(StyleAccView { part: None, ..acc }),
                            ..d
                        },
                    ),
                }
            } else {
                Ok(d)
            }
        },
        _ => Ok(d),
    }
}

/// An event inside an open cell.
pub open spec fn spec_step_cell(d: DecoderView, acc: CellAccView, ev: EventView) -> Result<
    DecoderView,
    OdsErrorView,
> {
    match ev {
        EventView::Text(t) => Ok(
            DecoderView {
                mode: ModeView::Cell(
                    CellAccView {
                        content: Some(
                            match acc.content {
                                Some(c) => c + t,
                                None => t,
                            },
                        ),
                        ..acc
                    },
                ),
                ..d
            },
        ),
        EventView::Start(name, _) => {
            if name == "text:p"@ {
                Ok(
                    DecoderView {
                        mode: ModeView::Cell(
                            CellAccView {
                                content: Some(
                                    match acc.content {
                                        Some(c) => c + "\n"@,
                                        None => Seq::empty(),
                                    },
                                ),
                                ..acc
                            },
                        ),
                        ..d
                    },
                )
            } else {
                Ok(d)
            }
        },
        EventView::Empty(name, _) => {
            if name == "text:s"@ {
                Ok(
                    DecoderView {
                        mode: ModeView::Cell(
                            CellAccView {
                                content: Some(
                                    match acc.content {
                                        Some(c) => c + " "@,
                                        None => " "@,
                                    },
                                ),
                                ..acc
                            },
                        ),
                        ..d
                    },
                )
            } else {
                Ok(d)
            }
        },
        EventView::End(name) => {
            let closes = if acc.covered {
                name == "table:covered-table-cell"@
            } else {
                name == "table:table-cell"@
            };
            if closes {
                match spec_parse_value(acc.value_type, acc.cell_value, acc.content, acc.currency) {
                    Err(e) => Err(e),
                    Ok(v) => {
                        let cell = CellView { value: v, ..acc.cell };
                        let dc = spec_insert_repeated(
                            d.sheet.data,
                            d.row,
                            d.row_repeat,
                            d.col,
                            cell,
                            acc.repeat,
                        );
                        Ok(
                            DecoderView {
                                sheet: SheetView { data: dc.0, ..d.sheet },
                                col: dc.1,
                                mode: ModeView::Content,
                                ..d
                            },
                        )
                    },
                }
            } else {
                Ok(d)
            }
        },
        _ => Ok(d),
    }
}

/// One event, in whatever mode the machine stands.
pub open spec fn spec_step(d: DecoderView, ev: EventView) -> Result<DecoderView, OdsErrorView> {
    match d.mode {
        ModeView::Content => spec_step_content(d, ev),
        ModeView::Fonts => spec_step_fonts(d, ev),
        ModeView::Styles(acc) => spec_step_styles(d, acc, ev),
        ModeView::Cell(acc) => spec_step_cell(d, acc, ev),
    }
}

/// The state after the first `n` events.
pub open spec fn spec_run(evs: Seq<EventView>, n: int) -> Result<DecoderView, OdsErrorView>
    decreases n,
{
    if n <= 0 {
        Ok(decoder_init())
    } else {
        match spec_run(evs, n - 1) {
            Err(e) => Err(e),
            Ok(d) => spec_step(d, evs[n - 1]),
        }
    }
}

/// The workbook a whole event list decodes to.  A sheet still under
/// construction when the stream ends is never appended.
pub open spec fn spec_decode_events(evs: Seq<EventView>) -> Result<WorkBookView, OdsErrorView> {
    match spec_run(evs, evs.len() as int) {
        Ok(d) => Ok(d.book),
        Err(e) => Err(e),
    }
}


// ---------------------------------------------------------------------------
// one step of the machine, executable

pub open spec fn styles_acc_of(m: ModeView) -> StyleAccView {
    match m {
        ModeView::Styles(a) => a,
        _ => style_acc_init(),
    }
}

pub open spec fn cell_acc_of(m: ModeView) -> CellAccView {
    match m {
        ModeView::Cell(a) => a,
        _ => cell_acc_init(false),
    }
}

fn step_content(d: Decoder, ev: &XmlEvent) -> (r: Result<Decoder, OdsError>)
    ensures
        match (r, spec_step_content(d@, ev.deep_view())) {
            (Ok(d2), Ok(dv)) => d2@ == dv,
            (Err(e), Err(se)) => e@ == se,
            _ => false,
        },
{
    let Decoder {
        mut book,
        mut sheet,
        tcol,
        row,
        col,
        row_repeat,
        row_style,
        col_range_from,
        row_range_from,
        mode,
    } = d;
    match ev {
        XmlEvent::Start { name, attrs } => {
            if str_eq(name.as_str(), "table:table") {
                match read_table(&mut sheet, attrs) {
                    Ok(()) => Ok(
                        Decoder {
                            book,
                            sheet,
                            tcol,
                            row,
                            col,
                            row_repeat,
                            row_style,
                            col_range_from,
                            row_range_from,
                            mode,
                        },
                    ),
                    Err(e) => Err(e),
                }
            } else if str_eq(name.as_str(), "table:table-header-columns") {
                Ok(
                    Decoder {
                        book,
                        sheet,
                        tcol,
                        row,
                        col,
                        row_repeat,
                        row_style,
                        col_range_from: tcol,
                        row_range_from,
                        mode,
                    },
                )
            } else if str_eq(name.as_str(), "table:table-header-rows") {
                Ok(
                    Decoder {
                        book,
                        sheet,
                        tcol,
                        row,
                        col,
                        row_repeat,
                        row_style,
                        col_range_from,
                        row_range_from: row,
                        mode,
                    },
                )
            } else if str_eq(name.as_str(), "table:table-row") {
                match read_row_attrs(&row_style, attrs) {
                    Ok((rep, st)) => Ok(
                        Decoder {
                            book,
                            sheet,
                            tcol,
                            row,
                            col,
                            row_repeat: rep,
                            row_style: st,
                            col_range_from,
                            row_range_from,
                            mode,
                        },
                    ),
                    Err(e) => Err(e),
                }
            } else if str_eq(name.as_str(), "office:font-face-decls") {
                Ok(
                    Decoder {
                        book,
                        sheet,
                        tcol,
                        row,
                        col,
                        row_repeat,
                        row_style,
                        col_range_from,
                        row_range_from,
                        mode: Mode::Fonts,
                    },
                )
            } else if str_eq(name.as_str(), "office:automatic-styles") {
                Ok(
                    Decoder {
                        book,
                        sheet,
                        tcol,
                        row,
                        col,
                        row_repeat,
                        row_style,
                        col_range_from,
                        row_range_from,
                        mode: Mode::Styles(
                            StyleAcc {
                                style: Style::new(),
                                format: ValueFormat::new(),
                                part: None,
                            },
                        ),
                    },
                )
            } else if str_eq(name.as_str(), "table:table-cell") || str_eq(
                name.as_str(),
                "table:covered-table-cell",
            ) {
                let covered = str_eq(name.as_str(), "table:covered-table-cell");
                match read_cell_attrs(covered, attrs) {
                    Ok(acc) => Ok(
                        Decoder {
                            book,
                            sheet,
                            tcol,
                            row,
                            col,
                            row_repeat,
                            row_style,
                            col_range_from,
                            row_range_from,
                            mode: Mode::Cell(acc),
                        },
                    ),
                    Err(e) => Err(e),
                }
            } else {
                Ok(
                    Decoder {
                        book,
                        sheet,
                        tcol,
                        row,
                        col,
                        row_repeat,
                        row_style,
                        col_range_from,
                        row_range_from,
                        mode,
                    },
                )
            }
        },
        XmlEvent::Empty { name, attrs } => {
            if str_eq(name.as_str(), "table:table-column") {
                match read_col_attrs(attrs) {
                    Ok((st, cst, rep)) => {
                        let t2 = apply_columns(&mut sheet, tcol, &st, &cst, rep);
                        Ok(
                            Decoder {
                                book,
                                sheet,
                                tcol: t2,
                                row,
                                col,
                                row_repeat,
                                row_style,
                                col_range_from,
                                row_range_from,
                                mode,
                            },
                        )
                    },
                    Err(e) => Err(e),
                }
            } else if str_eq(name.as_str(), "table:table-cell") || str_eq(
                name.as_str(),
                "table:covered-table-cell",
            ) {
                match read_empty_cell_attrs(attrs) {
                    Ok((None, rep)) => Ok(
                        Decoder {
                            book,
                            sheet,
                            tcol,
                            row,
                            col: sat_add_exec(col, rep),
                            row_repeat,
                            row_style,
                            col_range_from,
                            row_range_from,
                            mode,
                        },
                    ),
                    Ok((Some(cell), rep)) => {
                        let col2 = insert_repeated(&mut sheet, row, row_repeat, col, cell, rep);
                        Ok(
                            Decoder {
                                book,
                                sheet,
                                tcol,
                                row,
                                col: col2,
                                row_repeat,
                                row_style,
                                col_range_from,
                                row_range_from,
                                mode,
                            },
                        )
                    },
                    Err(e) => Err(e),
                }
            } else {
                Ok(
                    Decoder {
                        book,
                        sheet,
                        tcol,
                        row,
                        col,
                        row_repeat,
                        row_style,
                        col_range_from,
                        row_range_from,
                        mode,
                    },
                )
            }
        },
        XmlEvent::End { name } => {
            if str_eq(name.as_str(), "table:table") {
                book.push_sheet(sheet);
                Ok(
                    Decoder {
                        book,
                        sheet: Sheet::new(),
                        tcol,
                        row: 0,
                        col: 0,
                        row_repeat,
                        row_style,
                        col_range_from,
                        row_range_from,
                        mode,
                    },
                )
            } else if str_eq(name.as_str(), "table:table-header-columns") {
                sheet.set_header_cols(col_range_from, sat_dec_exec(tcol));
                Ok(
                    Decoder {
                        book,
                        sheet,
                        tcol,
                        row,
                        col,
                        row_repeat,
                        row_style,
                        col_range_from,
                        row_range_from,
                        mode,
                    },
                )
            } else if str_eq(name.as_str(), "table:table-header-rows") {
                sheet.set_header_rows(row_range_from, sat_dec_exec(row));
                Ok(
                    Decoder {
                        book,
                        sheet,
                        tcol,
                        row,
                        col,
                        row_repeat,
                        row_style,
                        col_range_from,
                        row_range_from,
                        mode,
                    },
                )
            } else if str_eq(name.as_str(), "table:table-row") {
                Ok(
                    Decoder {
                        book,
                        sheet,
                        tcol,
                        row: sat_add_exec(row, row_repeat),
                        col: 0,
                        row_repeat: 1,
                        row_style: None,
                        col_range_from,
                        row_range_from,
                        mode,
                    },
                )
            } else {
                Ok(
                    Decoder {
                        book,
                        sheet,
                        tcol,
                        row,
                        col,
                        row_repeat,
                        row_style,
                        col_range_from,
                        row_range_from,
                        mode,
                    },
                )
            }
        },
        _ => Ok(
            Decoder {
                book,
                sheet,
                tcol,
                row,
                col,
                row_repeat,
                row_style,
                col_range_from,
                row_range_from,
                mode,
            },
        ),
    }
}

fn step_fonts(d: Decoder, ev: &XmlEvent) -> (r: Result<Decoder, OdsError>)
    ensures
        match (r, spec_step_fonts(d@, ev.deep_view())) {
            (Ok(d2), Ok(dv)) => d2@ == dv,
            (Err(e), Err(se)) => e@ == se,
            _ => false,
        },
{
    let Decoder {
        mut book,
        sheet,
        tcol,
        row,
        col,
        row_repeat,
        row_style,
        col_range_from,
        row_range_from,
        mode,
    } = d;
    let mode2 = match ev {
        XmlEvent::Start { name, attrs } => {
            if str_eq(name.as_str(), "style:font-face") {
                let f = font_from_attrs(attrs);
                book.add_font(f);
            }
            mode
        },
        XmlEvent::Empty { name, attrs } => {
            if str_eq(name.as_str(), "style:font-face") {
                let f = font_from_attrs(attrs);
                book.add_font(f);
            }
            mode
        },
        XmlEvent::End { name } => {
            if str_eq(name.as_str(), "office:font-face-decls") {
                Mode::Content
            } else {
                mode
            }
        },
        _ => mode,
    };
    Ok(
        Decoder {
            book,
            sheet,
            tcol,
            row,
            col,
            row_repeat,
            row_style,
            col_range_from,
            row_range_from,
            mode: mode2,
        },
    )
}

fn styles_open(
    book: &mut WorkBook,
    style: &mut Style,
    format: &mut ValueFormat,
    part: &mut Option<FormatPart>,
    name: &str,
    attrs: &Vec<XmlAttr>,
    empty_el: bool,
)
    ensures
        ({
            let a0 = StyleAccView {
                style: old(style)@,
                format: old(format)@,
                part: old(part).deep_view(),
            };
            let p = spec_styles_open_parts(old(book)@, a0, name@, attrs.deep_view(), empty_el);
            final(book)@ == p.0 && (StyleAccView {
                style: final(style)@,
                format: final(format)@,
                part: final(part).deep_view(),
            }) == p.1
        }),
{
    if str_eq(name, "style:style") {
        read_style_attrs(style, attrs);
        if empty_el {
            let mut fresh = Style::new();
            core::mem::swap(style, &mut fresh);
            book.add_style(fresh);
        }
    } else if str_eq(name, "style:table-properties") {
        copy_table_props(style, attrs);
    } else if str_eq(name, "style:table-column-properties") {
        copy_table_col_props(style, attrs);
    } else if str_eq(name, "style:table-row-properties") {
        copy_table_row_props(style, attrs);
    } else if str_eq(name, "style:table-cell-properties") {
        copy_table_cell_props(style, attrs);
    } else if str_eq(name, "style:text-properties") {
        copy_text_props(style, attrs);
    } else if str_eq(name, "style:paragraph-properties") {
        copy_paragraph_props(style, attrs);
    } else {
        match format_kind(name) {
            Some(vt) => {
                read_format_attrs(format, vt, attrs);
            },
            None => {
                match part_kind(name) {
                    Some(pt) => {
                        let p = part_from_attrs(pt, attrs);
                        format.push_part(p);
                    },
                    None => {
                        if str_eq(name, "number:currency-symbol") {
                            let p = part_from_attrs(FormatPartType::CurrencySymbol, attrs);
                            if empty_el {
                                format.push_part(p);
                                *part = None;
                            } else {
                                *part = Some(p);
                            }
                        } else if str_eq(name, "number:text") {
                            let p = part_from_attrs(FormatPartType::Text, attrs);
                            if empty_el {
                                format.push_part(p);
                                *part = None;
                            } else {
                                *part = Some(p);
                            }
                        }
                    },
                }
            },
        }
    }
}

fn step_styles(d: Decoder, ev: &XmlEvent) -> (r: Result<Decoder, OdsError>)
    requires
        d@.mode is Styles,
    ensures
        match (r, spec_step_styles(d@, styles_acc_of(d@.mode), ev.deep_view())) {
            (Ok(d2), Ok(dv)) => d2@ == dv,
            (Err(e), Err(se)) => e@ == se,
            _ => false,
        },
{
    let Decoder {
        mut book,
        sheet,
        tcol,
        row,
        col,
        row_repeat,
        row_style,
        col_range_from,
        row_range_from,
        mode,
    } = d;
    let acc = match mode {
        Mode::Styles(a) => a,
        _ => {
            proof {
                assert(false);
            }
            return Err(OdsError::Archive);
        },
    };
    let StyleAcc { mut style, mut format, mut part } = acc;
    match ev {
        XmlEvent::Start { name, attrs } => {
            styles_open(&mut book, &mut style, &mut format, &mut part, name.as_str(), attrs, false);
        },
        XmlEvent::Empty { name, attrs } => {
            styles_open(&mut book, &mut style, &mut format, &mut part, name.as_str(), attrs, true);
        },
        XmlEvent::Text { text } => {
            match part {
                Some(mut p) => {
                    let c: Option<String> = match p.content() {
                        Some(s) => Some(s.clone()),
                        None => None,
                    };
                    let c2 = crate::text_append(c, text.as_str());
                    match c2 {
                        Some(s) => {
                            p.set_content(s);
                        },
                        None => {},
                    }
                    part = Some(p);
                },
                None => {
                    part = None;
                },
            }
        },
        XmlEvent::End { name } => {
            if str_eq(name.as_str(), "office:automatic-styles") {
                return Ok(
                    Decoder {
                        book,
                        sheet,
                        tcol,
                        row,
                        col,
                        row_repeat,
                        row_style,
                        col_range_from,
                        row_range_from,
                        mode: Mode::Content,
                    },
                );
            } else if str_eq(name.as_str(), "style:style") {
                book.add_style(style);
                style = Style::new();
            } else {
                match format_kind(name.as_str()) {
                    Some(_) => {
                        book.add_format(format);
                        format = ValueFormat::new();
                    },
                    None => {
                        if str_eq(name.as_str(), "number:currency-symbol") || str_eq(
                            name.as_str(),
                            "number:text",
                        ) {
                            match part {
                                Some(p) => {
                                    format.push_part(p);
                                },
                                None => {},
                            }
                            part = None;
                        }
                    },
                }
            }
        },
        _ => {},
    }
    Ok(
        Decoder {
            book,
            sheet,
            tcol,
            row,
            col,
            row_repeat,
            row_style,
            col_range_from,
            row_range_from,
            mode: Mode::Styles(StyleAcc { style, format, part }),
        },
    )
}

fn step_cell(d: Decoder, ev: &XmlEvent) -> (r: Result<Decoder, OdsError>)
    requires
        d@.mode is Cell,
    ensures
        match (r, spec_step_cell(d@, cell_acc_of(d@.mode), ev.deep_view())) {
            (Ok(d2), Ok(dv)) => d2@ == dv,
            (Err(e), Err(se)) => e@ == se,
            _ => false,
        },
{
    let Decoder {
        book,
        mut sheet,
        tcol,
        row,
        col,
        row_repeat,
        row_style,
        col_range_from,
        row_range_from,
        mode,
    } = d;
    let acc = match mode {
        Mode::Cell(a) => a,
        _ => {
            proof {
                assert(false);
            }
            return Err(OdsError::Archive);
        },
    };
    let CellAcc { covered, repeat, cell, value_type, cell_value, content, currency } = acc;
    match ev {
        XmlEvent::Text { text } => {
            let content2 = crate::text_append(content, text.as_str());
            Ok(
                Decoder {
                    book,
                    sheet,
                    tcol,
                    row,
                    col,
                    row_repeat,
                    row_style,
                    col_range_from,
                    row_range_from,
                    mode: Mode::Cell(
                        CellAcc {
                            covered,
                            repeat,
                            cell,
                            value_type,
                            cell_value,
                            content: content2,
                            currency,
                        },
                    ),
                },
            )
        },
        XmlEvent::Start { name, .. } => {
            let content2 = if str_eq(name.as_str(), "text:p") {
                proof {
                    reveal_strlit("");
                    assert(""@ =~= Seq::<char>::empty());
                }
                crate::text_append_or(content, "\n", "")
            } else {
                content
            };
            Ok(
                Decoder {
                    book,
                    sheet,
                    tcol,
                    row,
                    col,
                    row_repeat,
                    row_style,
                    col_range_from,
                    row_range_from,
                    mode: Mode::Cell(
                        CellAcc {
                            covered,
                            repeat,
                            cell,
                            value_type,
                            cell_value,
                            content: content2,
                            currency,
                        },
                    ),
                },
            )
        },
        XmlEvent::Empty { name, .. } => {
            let content2 = if str_eq(name.as_str(), "text:s") {
                crate::text_append(content, " ")
            } else {
                content
            };
            Ok(
                Decoder {
                    book,
                    sheet,
                    tcol,
                    row,
                    col,
                    row_repeat,
                    row_style,
                    col_range_from,
                    row_range_from,
                    mode: Mode::Cell(
                        CellAcc {
                            covered,
                            repeat,
                            cell,
                            value_type,
                            cell_value,
                            content: content2,
                            currency,
                        },
                    ),
                },
            )
        },
        XmlEvent::End { name } => {
            let closes = if covered {
                str_eq(name.as_str(), "table:covered-table-cell")
            } else {
                str_eq(name.as_str(), "table:table-cell")
            };
            if closes {
                match parse_value(value_type, cell_value, content, currency) {
                    Err(e) => Err(e),
                    Ok(v) => {
                        let mut cell2 = cell;
                        cell2.set_value(v);
                        let col2 = insert_repeated(&mut sheet, row, row_repeat, col, cell2, repeat);
                        Ok(
                            Decoder {
                                book,
                                sheet,
                                tcol,
                                row,
                                col: col2,
                                row_repeat,
                                row_style,
                                col_range_from,
                                row_range_from,
                                mode: Mode::Content,
                            },
                        )
                    },
                }
            } else {
                Ok(
                    Decoder {
                        book,
                        sheet,
                        tcol,
                        row,
                        col,
                        row_repeat,
                        row_style,
                        col_range_from,
                        row_range_from,
                        mode: Mode::Cell(
                            CellAcc {
                                covered,
                                repeat,
                                cell,
                                value_type,
                                cell_value,
                                content,
                                currency,
                            },
                        ),
                    },
                )
            }
        },
        _ => Ok(
            Decoder {
                book,
                sheet,
                tcol,
                row,
                col,
                row_repeat,
                row_style,
                col_range_from,
                row_range_from,
                mode: Mode::Cell(
                    CellAcc {
                        covered,
                        repeat,
                        cell,
                        value_type,
                        cell_value,
                        content,
                        currency,
                    },
                ),
            },
        ),
    }
}

fn step(d: Decoder, ev: &XmlEvent) -> (r: Result<Decoder, OdsError>)
    ensures
        match (r, spec_step(d@, ev.deep_view())) {
            (Ok(d2), Ok(dv)) => d2@ == dv,
            (Err(e), Err(se)) => e@ == se,
            _ => false,
        },
{
    match &d.mode {
        Mode::Content => step_content(d, ev),
        Mode::Fonts => step_fonts(d, ev),
        Mode::Styles(_) => step_styles(d, ev),
        Mode::Cell(_) => step_cell(d, ev),
    }
}

proof fn lemma_run_err_persists(evs: Seq<EventView>, j: int, n: int)
    requires
        0 <= j <= n,
        spec_run(evs, j) is Err,
    ensures
        spec_run(evs, n) == spec_run(evs, j),
    decreases n - j,
{
    if j < n {
        lemma_run_err_persists(evs, j + 1, n);
    }
}

/// Decodes an event list into a workbook: the state machine folded over
/// every event.
pub fn decode_events(events: &Vec<XmlEvent>) -> (r: Result<WorkBook, OdsError>)
    ensures
        match (r, spec_decode_events(events.deep_view())) {
            (Ok(b), Ok(bv)) => b@ == bv,
            (Err(e), Err(se)) => e@ == se,
            _ => false,
        },
{
    let ghost evs = events.deep_view();
    let mut d = Decoder {
        book: WorkBook::new(),
        sheet: Sheet::new(),
        tcol: 0,
        row: 0,
        col: 0,
        row_repeat: 1,
        row_style: None,
        col_range_from: 0,
        row_range_from: 0,
        mode: Mode::Content,
    };
    proof {
        assert(d@ == decoder_init());
    }
    let n = events.len();
    let mut i: usize = 0;
    while i < n
        invariant
            0 <= i <= n == events.len(),
            evs == events.deep_view(),
            spec_run(evs, i as int) == Ok::<DecoderView, OdsErrorView>(d@),
        decreases n - i,
    {
        let e = &events[i];
        proof {
            assert(e.deep_view() == evs[i as int]);
        }
        d = match step(d, e) {
            Ok(d2) => d2,
            Err(err) => {
                proof {
                    lemma_run_err_persists(evs, i + 1, evs.len() as int);
                }
                return Err(err);
            },
        };
        i = i + 1;
    }
    Ok(d.book)
}

/// Law: a failing step aborts the whole decode.  Once the machine fails
/// after some prefix of the events, the decode of the full list is exactly
/// that error and nothing else: no workbook, partial or otherwise, comes
/// back.  In particular, a cell that declares a value-demanding type but
/// carries no raw value fails its closing step with the missing-value
/// error, and that error is the decode's entire result.
pub proof fn lemma_error_aborts_decode(evs: Seq<EventView>, n: int)
    requires
        0 <= n <= evs.len(),
        spec_run(evs, n) is Err,
    ensures
        match (spec_decode_events(evs), spec_run(evs, n)) {
            (Err(e), Err(e2)) => e == e2,
            _ => false,
        },
{
    lemma_run_err_persists(evs, n, evs.len() as int);
}

/// The workbook a whole container decodes to, byte for byte: the
/// `content.xml` entry of the archive, tokenized, its text nodes joined
/// and trimmed whole, folded through the state machine.  The archive error
/// comes exactly when the entry cannot be read, the event-stream error
/// exactly when the entry does not tokenize, and every decode error is the
/// machine's own, so no body that skips the work can meet this.
pub open spec fn spec_decode_ods(bytes: Seq<u8>) -> Result<WorkBookView, OdsErrorView> {
    match crate::archive::zip_content_xml(bytes) {
        None => Err(OdsErrorView::Archive),
        Some(content) => match crate::xml::xml_events_of(content) {
            None => Err(OdsErrorView::MalformedXml("event stream"@)),
            Some(raw) => spec_decode_events(crate::xml::spec_join_texts(raw)),
        },
    }
}

/// Decodes a whole document from the bytes of its archive: the container
/// accessor pulls out `content.xml`, the tokenizer turns it into events,
/// and the machine folds over them.  Success and failure are exactly those
/// of [`spec_decode_ods`]; no partial workbook survives an error.
pub fn decode_ods_bytes(bytes: &[u8]) -> (r: Result<WorkBook, OdsError>)
    ensures
        match (r, spec_decode_ods(bytes@)) {
            (Ok(b), Ok(bv)) => b@ == bv,
            (Err(e), Err(se)) => e@ == se,
            _ => false,
        },
{
    let content = match crate::archive::read_content_xml(bytes) {
        Some(v) => v,
        None => {
            return Err(OdsError::Archive);
        },
    };
    let events = match crate::xml::read_events(content.as_slice()) {
        Ok(evs) => evs,
        Err(e) => {
            return Err(e);
        },
    };
    decode_events(&events)
}

} // verus!

//! The workbook and sheet builder interface.

use spreadsheet_ods::format::ValueFormat;
use spreadsheet_ods::refs::CellRange;
use spreadsheet_ods::style::{FontFaceDecl, PageLayout, Style, StyleFor};
use spreadsheet_ods::value::{Value, ValueType};
use spreadsheet_ods::{SCell, Sheet, WorkBook};

#[test]
fn sheets_keep_their_order() {
    let mut wb = WorkBook::new();
    wb.push_sheet(Sheet::with_name("a"));
    wb.push_sheet(Sheet::with_name("c"));
    wb.insert_sheet(1, Sheet::with_name("b"));
    assert_eq!(wb.num_sheets(), 3);
    assert_eq!(wb.sheet(0).name(), "a");
    assert_eq!(wb.sheet(1).name(), "b");
    assert_eq!(wb.sheet(2).name(), "c");
    let s = wb.remove_sheet(1);
    assert_eq!(s.name(), "b");
    assert_eq!(wb.num_sheets(), 2);
}

#[test]
fn catalog_insert_is_replace_by_name() {
    let mut wb = WorkBook::new();
    let mut s1 = Style::cell_style("ce1", "N1");
    s1.set_table_cell_prp("k", "v1".to_string());
    wb.add_style(s1);
    let s2 = Style::cell_style("ce1", "N2");
    wb.add_style(s2);
    let got = wb.style("ce1").unwrap();
    assert_eq!(got.value_format().unwrap(), "N2");
    assert!(got.table_cell_prp("k").is_none());
    assert!(wb.remove_style("ce1").is_some());
    assert!(wb.style("ce1").is_none());
    assert!(wb.remove_style("ce1").is_none());
}

#[test]
fn fonts_formats_and_layouts_are_name_keyed() {
    let mut wb = WorkBook::new();
    let mut f = FontFaceDecl::new();
    f.set_name("F".to_string());
    f.set_prp("a", "1".to_string());
    wb.add_font(f);
    assert_eq!(wb.font("F").unwrap().prp("a").unwrap(), "1");
    assert!(wb.remove_font("F").is_some());
    assert!(wb.font("F").is_none());

    let mut vf = ValueFormat::new();
    vf.set_name("N".to_string());
    vf.set_value_type(ValueType::Currency);
    wb.add_format(vf);
    assert_eq!(wb.format("N").unwrap().value_type(), ValueType::Currency);
    assert!(wb.remove_format("N").is_some());

    let pl = PageLayout::new("P");
    wb.add_pagelayout(pl);
    assert_eq!(wb.pagelayout("P").unwrap().name(), "P");
    assert!(wb.remove_pagelayout("P").is_some());
}

#[test]
fn default_styles_are_per_value_type() {
    let mut wb = WorkBook::new();
    wb.add_def_style(ValueType::Number, "num");
    wb.add_def_style(ValueType::DateTime, "date");
    assert_eq!(wb.def_style(ValueType::Number).unwrap(), "num");
    assert_eq!(wb.def_style(ValueType::DateTime).unwrap(), "date");
    assert!(wb.def_style(ValueType::Boolean).is_none());
    wb.add_def_style(ValueType::Number, "num2");
    assert_eq!(wb.def_style(ValueType::Number).unwrap(), "num2");
}

#[test]
fn cells_are_sparse_and_editable() {
    let mut sheet = Sheet::with_name("s");
    sheet.set_value(2, 3, Value::number("1.5").unwrap());
    sheet.set_formula(2, 3, "of:=SUM(1)");
    sheet.set_cell_style(2, 3, "ce1");
    assert!(matches!(sheet.value(2, 3), Value::Number(v) if v == "1.5"));
    assert_eq!(sheet.formula(2, 3).unwrap(), "of:=SUM(1)");
    assert_eq!(sheet.cell_style(2, 3).unwrap(), "ce1");
    assert!(sheet.cell(0, 0).is_none());
    let old = sheet.add_cell(2, 3, SCell::new());
    assert!(old.is_some());
    assert!(matches!(sheet.value(2, 3), Value::Empty));
    assert!(sheet.remove_cell(2, 3).is_some());
    assert!(sheet.cell(2, 3).is_none());
}

#[test]
fn styled_values_and_spans() {
    let mut sheet = Sheet::new();
    sheet.set_styled_value(1, 1, Value::Text("x".to_string()), "nice");
    assert_eq!(sheet.cell_style(1, 1).unwrap(), "nice");
    sheet.set_row_span(1, 1, 2);
    sheet.set_col_span(1, 1, 4);
    assert_eq!(sheet.row_span(1, 1), 2);
    assert_eq!(sheet.col_span(1, 1), 4);
    let c = sheet.cell(1, 1).unwrap();
    assert_eq!(c.row_span(), 2);
    assert_eq!(c.col_span(), 4);
}

#[test]
fn used_grid_size_is_one_past_the_extremes() {
    let mut sheet = Sheet::new();
    assert_eq!(sheet.used_grid_size(), (1, 1));
    sheet.set_value(4, 2, Value::Empty);
    sheet.set_value(1, 7, Value::Empty);
    assert_eq!(sheet.used_grid_size(), (5, 8));
}

#[test]
fn header_ranges_and_print_ranges() {
    let mut sheet = Sheet::new();
    sheet.set_header_rows(0, 2);
    sheet.set_header_cols(1, 3);
    assert_eq!(sheet.header_rows().unwrap().from, 0);
    assert_eq!(sheet.header_rows().unwrap().to, 2);
    assert_eq!(sheet.header_cols().unwrap().from, 1);
    sheet.clear_header_rows();
    assert!(sheet.header_rows().is_none());
    sheet.add_print_range(CellRange::new(0, 0, 5, 5));
    assert_eq!(sheet.print_ranges().unwrap().len(), 1);
    sheet.clear_print_ranges();
    assert!(sheet.print_ranges().is_none());
}

#[test]
fn column_width_and_row_height_create_backing_styles() {
    let mut wb = WorkBook::new();
    let mut sheet = Sheet::new();
    sheet.set_col_width(&mut wb, 3, "2.5cm");
    sheet.set_row_height(&mut wb, 7, "0.8cm");
    assert_eq!(sheet.column_style(3).unwrap(), "co3");
    assert_eq!(sheet.row_style(7).unwrap(), "ro7");
    let co = wb.style("co3").unwrap();
    assert_eq!(co.table_col_prp("style:column-width").unwrap(), "2.5cm");
    assert_eq!(co.table_col_prp("style:use-optimal-column-width").unwrap(), "false");
    let ro = wb.style("ro7").unwrap();
    assert_eq!(ro.table_row_prp("style:row-height").unwrap(), "0.8cm");
    assert_eq!(ro.table_row_prp("style:use-optimal-row-height").unwrap(), "false");
}

#[test]
fn style_families_and_properties() {
    let mut s = Style::new();
    assert_eq!(s.family(), StyleFor::Other);
    s.set_family(StyleFor::TableRow);
    assert_eq!(s.family(), StyleFor::TableRow);
    s.set_text_prp("fo:font-weight", "bold".to_string());
    s.set_text_prp("fo:font-weight", "normal".to_string());
    assert_eq!(s.text_prp("fo:font-weight").unwrap(), "normal");
    let t = Style::table_style("ta", "");
    assert_eq!(t.family(), StyleFor::Table);
    let r = Style::row_style("ro", "");
    assert_eq!(r.family(), StyleFor::TableRow);
}

//! The document decoder, driven by hand-built event lists.

use spreadsheet_ods::error::OdsError;
use spreadsheet_ods::format::FormatPartType;
use spreadsheet_ods::read::decode_events;
use spreadsheet_ods::refs::{CellRange, ColRange, RowRange};
use spreadsheet_ods::style::StyleFor;
use spreadsheet_ods::value::{Value, ValueType};
use spreadsheet_ods::xml::{XmlAttr, XmlEvent};
use spreadsheet_ods::WorkBook;

fn attrs(pairs: &[(&str, &str)]) -> Vec<XmlAttr> {
    let mut v = Vec::new();
    for (k, val) in pairs {
        v.push(XmlAttr { key: k.to_string(), value: val.to_string() });
    }
    v
}

fn start(name: &str, pairs: &[(&str, &str)]) -> XmlEvent {
    XmlEvent::Start { name: name.to_string(), attrs: attrs(pairs) }
}

fn empty(name: &str, pairs: &[(&str, &str)]) -> XmlEvent {
    XmlEvent::Empty { name: name.to_string(), attrs: attrs(pairs) }
}

fn end(name: &str) -> XmlEvent {
    XmlEvent::End { name: name.to_string() }
}

fn text(t: &str) -> XmlEvent {
    XmlEvent::Text { text: t.to_string() }
}

fn decode(events: Vec<XmlEvent>) -> Result<WorkBook, OdsError> {
    decode_events(&events)
}

#[test]
fn row_repeat_materializes_every_row() {
    // a row with number-rows-repeated = 5 holding one Number(3) cell
    let book = decode(vec![
        start("table:table", &[("table:name", "S")]),
        start("table:table-row", &[("table:number-rows-repeated", "5")]),
        start("table:table-cell", &[("office:value-type", "float"), ("office:value", "3")]),
        end("table:table-cell"),
        end("table:table-row"),
        // the next row must land five rows further down
        start("table:table-row", &[]),
        start("table:table-cell", &[("office:value-type", "float"), ("office:value", "7")]),
        end("table:table-cell"),
        end("table:table-row"),
        end("table:table"),
        XmlEvent::Eof,
    ])
    .unwrap();
    let sheet = book.sheet(0);
    // five distinct grid entries at consecutive rows, all equal
    for r in 0..5u32 {
        assert!(matches!(sheet.value(r, 0), Value::Number(s) if s == "3"), "row {}", r);
        assert!(sheet.cell(r, 0).is_some());
    }
    // the row cursor afterwards stands five rows further down
    assert!(matches!(sheet.value(5, 0), Value::Number(s) if s == "7"));
    assert!(sheet.cell(6, 0).is_none());
}

#[test]
fn cell_repeat_materializes_every_column() {
    let book = decode(vec![
        start("table:table", &[]),
        start("table:table-row", &[]),
        start(
            "table:table-cell",
            &[
                ("table:number-columns-repeated", "5"),
                ("office:value-type", "float"),
                ("office:value", "3"),
            ],
        ),
        end("table:table-cell"),
        end("table:table-row"),
        end("table:table"),
    ])
    .unwrap();
    let sheet = book.sheet(0);
    for c in 0..5u32 {
        assert!(matches!(sheet.value(0, c), Value::Number(s) if s == "3"), "column {}", c);
    }
    assert!(matches!(sheet.value(0, 5), Value::Empty));
}

#[test]
fn column_repeat_registers_three_styles() {
    // a column declaration with number-columns-repeated = 3 and a style name
    let book = decode(vec![
        start("table:table", &[]),
        empty(
            "table:table-column",
            &[
                ("table:number-columns-repeated", "3"),
                ("table:style-name", "co1"),
                ("table:default-cell-style-name", "ce1"),
            ],
        ),
        end("table:table"),
    ])
    .unwrap();
    let sheet = book.sheet(0);
    for c in 0..3u32 {
        assert_eq!(sheet.column_style(c).unwrap(), "co1");
        assert_eq!(sheet.column_cell_style(c).unwrap(), "ce1");
    }
    assert!(sheet.column_style(3).is_none());
}

#[test]
fn header_rows_block_gives_inclusive_range() {
    // a header-rows block around two rows reads as the range [0, 1]
    let book = decode(vec![
        start("table:table", &[]),
        start("table:table-header-rows", &[]),
        start("table:table-row", &[]),
        end("table:table-row"),
        start("table:table-row", &[]),
        end("table:table-row"),
        end("table:table-header-rows"),
        end("table:table"),
    ])
    .unwrap();
    assert_eq!(book.sheet(0).header_rows(), Some(RowRange { from: 0, to: 1 }));
}

#[test]
fn header_columns_block_uses_the_pseudo_column_cursor() {
    let book = decode(vec![
        start("table:table", &[]),
        start("table:table-header-columns", &[]),
        empty("table:table-column", &[("table:number-columns-repeated", "2")]),
        end("table:table-header-columns"),
        end("table:table"),
    ])
    .unwrap();
    assert_eq!(book.sheet(0).header_cols(), Some(ColRange { from: 0, to: 1 }));
}

#[test]
fn missing_value_for_type_aborts_the_whole_decode() {
    // a cell declared float with no value attribute fails, and no workbook
    // comes back at all
    let r = decode(vec![
        start("table:table", &[]),
        start("table:table-row", &[]),
        start("table:table-cell", &[("office:value-type", "float")]),
        end("table:table-cell"),
        end("table:table-row"),
        end("table:table"),
    ]);
    assert!(matches!(r, Err(OdsError::MissingValueForType(ValueType::Number))));
}

#[test]
fn sparse_sheet_reads_empty_where_nothing_stands() {
    let book = decode(vec![
        start("table:table", &[]),
        start("table:table-row", &[]),
        start("table:table-cell", &[("office:value-type", "string")]),
        text("x"),
        end("table:table-cell"),
        end("table:table-row"),
        end("table:table"),
    ])
    .unwrap();
    let sheet = book.sheet(0);
    assert!(matches!(sheet.value(10, 0), Value::Empty));
    assert!(sheet.cell(10, 0).is_none());
    assert_eq!(sheet.row_span(10, 0), 1);
    assert_eq!(sheet.col_span(10, 0), 1);
}

#[test]
fn filler_cells_only_advance_the_cursor() {
    let book = decode(vec![
        start("table:table", &[]),
        start("table:table-row", &[]),
        empty("table:table-cell", &[("table:number-columns-repeated", "1000000")]),
        start("table:table-cell", &[("office:value-type", "float"), ("office:value", "1")]),
        end("table:table-cell"),
        end("table:table-row"),
        end("table:table"),
    ])
    .unwrap();
    let sheet = book.sheet(0);
    // nothing was materialized for the filler
    assert!(sheet.cell(0, 0).is_none());
    assert!(matches!(sheet.value(0, 1_000_000), Value::Number(s) if s == "1"));
    assert_eq!(sheet.used_grid_size(), (1, 1_000_001));
}

#[test]
fn styled_empty_cell_is_materialized_once_per_repeat() {
    let book = decode(vec![
        start("table:table", &[]),
        start("table:table-row", &[]),
        empty(
            "table:table-cell",
            &[("table:number-columns-repeated", "2"), ("table:style-name", "ce9")],
        ),
        end("table:table-row"),
        end("table:table"),
    ])
    .unwrap();
    let sheet = book.sheet(0);
    assert_eq!(sheet.cell_style(0, 0).unwrap(), "ce9");
    assert_eq!(sheet.cell_style(0, 1).unwrap(), "ce9");
    assert!(sheet.cell(0, 2).is_none());
}

#[test]
fn covered_cells_and_spans_are_kept() {
    let book = decode(vec![
        start("table:table", &[]),
        start("table:table-row", &[]),
        start(
            "table:table-cell",
            &[
                ("office:value-type", "float"),
                ("office:value", "1"),
                ("table:number-rows-spanned", "2"),
                ("table:number-columns-spanned", "3"),
            ],
        ),
        end("table:table-cell"),
        empty("table:covered-table-cell", &[("table:style-name", "cov")]),
        end("table:table-row"),
        end("table:table"),
    ])
    .unwrap();
    let sheet = book.sheet(0);
    assert_eq!(sheet.row_span(0, 0), 2);
    assert_eq!(sheet.col_span(0, 0), 3);
    assert_eq!(sheet.cell_style(0, 1).unwrap(), "cov");
}

#[test]
fn cell_text_content_joins_paragraphs_and_spaces() {
    let book = decode(vec![
        start("table:table", &[]),
        start("table:table-row", &[]),
        start("table:table-cell", &[("office:value-type", "string")]),
        start("text:p", &[]),
        text("one"),
        empty("text:s", &[]),
        text("two"),
        end("text:p"),
        start("text:p", &[]),
        text("three"),
        end("text:p"),
        end("table:table-cell"),
        end("table:table-row"),
        end("table:table"),
    ])
    .unwrap();
    let sheet = book.sheet(0);
    assert!(matches!(sheet.value(0, 0), Value::Text(s) if s == "one two\nthree"));
}

#[test]
fn formulas_are_kept_verbatim_and_never_evaluated() {
    let book = decode(vec![
        start("table:table", &[]),
        start("table:table-row", &[]),
        start(
            "table:table-cell",
            &[
                ("table:formula", "of:=[.A1]+1"),
                ("office:value-type", "float"),
                ("office:value", "8"),
            ],
        ),
        end("table:table-cell"),
        end("table:table-row"),
        end("table:table"),
    ])
    .unwrap();
    let sheet = book.sheet(0);
    assert_eq!(sheet.formula(0, 0).unwrap(), "of:=[.A1]+1");
    assert!(matches!(sheet.value(0, 0), Value::Number(s) if s == "8"));
}

#[test]
fn table_attributes_set_name_style_and_print_ranges() {
    let book = decode(vec![
        start(
            "table:table",
            &[
                ("table:name", "Tab1"),
                ("table:style-name", "ta1"),
                ("table:print-ranges", "A1:B2 Sheet1.$C$3:$D$4"),
            ],
        ),
        end("table:table"),
    ])
    .unwrap();
    let sheet = book.sheet(0);
    assert_eq!(sheet.name(), "Tab1");
    assert_eq!(sheet.style().unwrap(), "ta1");
    let ranges = sheet.print_ranges().unwrap();
    assert_eq!(ranges.len(), 2);
    assert_eq!(ranges[0], CellRange { row_from: 0, col_from: 0, row_to: 1, col_to: 1 });
    assert_eq!(ranges[1], CellRange { row_from: 2, col_from: 2, row_to: 3, col_to: 3 });
}

#[test]
fn malformed_print_ranges_abort_the_decode() {
    let r = decode(vec![
        start("table:table", &[("table:print-ranges", "not a range")]),
        end("table:table"),
    ]);
    assert!(matches!(r, Err(OdsError::MalformedXml(_))));
}

#[test]
fn two_tables_become_two_sheets_in_order() {
    let book = decode(vec![
        start("table:table", &[("table:name", "A")]),
        end("table:table"),
        start("table:table", &[("table:name", "B")]),
        start("table:table-row", &[]),
        start("table:table-cell", &[("office:value-type", "float"), ("office:value", "2")]),
        end("table:table-cell"),
        end("table:table-row"),
        end("table:table"),
    ])
    .unwrap();
    assert_eq!(book.num_sheets(), 2);
    assert_eq!(book.sheet(0).name(), "A");
    assert_eq!(book.sheet(1).name(), "B");
    // the row cursor was reset between the tables
    assert!(matches!(book.sheet(1).value(0, 0), Value::Number(s) if s == "2"));
}

#[test]
fn unclosed_table_is_dropped() {
    let book = decode(vec![
        start("table:table", &[("table:name", "A")]),
        end("table:table"),
        start("table:table", &[("table:name", "B")]),
        XmlEvent::Eof,
    ])
    .unwrap();
    assert_eq!(book.num_sheets(), 1);
    assert_eq!(book.sheet(0).name(), "A");
}

#[test]
fn font_declarations_land_in_the_catalog() {
    let book = decode(vec![
        start("office:font-face-decls", &[]),
        empty(
            "style:font-face",
            &[("style:name", "F1"), ("svg:font-family", "Liberation Sans")],
        ),
        end("office:font-face-decls"),
    ])
    .unwrap();
    let font = book.font("F1").unwrap();
    assert_eq!(font.name(), "F1");
    assert_eq!(font.prp("svg:font-family").unwrap(), "Liberation Sans");
}

#[test]
fn styles_section_builds_styles_and_formats() {
    let book = decode(vec![
        start("office:automatic-styles", &[]),
        start(
            "style:style",
            &[
                ("style:name", "ce1"),
                ("style:family", "table-cell"),
                ("style:parent-style-name", "Default"),
                ("style:data-style-name", "N1"),
            ],
        ),
        empty("style:table-cell-properties", &[("fo:background-color", "#ff0000")]),
        end("style:style"),
        start("number:number-style", &[("style:name", "N1")]),
        empty("number:number", &[("number:decimal-places", "2")]),
        start("number:text", &[]),
        text(" kg"),
        end("number:text"),
        end("number:number-style"),
        end("office:automatic-styles"),
    ])
    .unwrap();
    let style = book.style("ce1").unwrap();
    assert_eq!(style.family(), StyleFor::TableCell);
    assert_eq!(style.parent().unwrap(), "Default");
    assert_eq!(style.value_format().unwrap(), "N1");
    assert_eq!(style.table_cell_prp("fo:background-color").unwrap(), "#ff0000");
    let fmt = book.format("N1").unwrap();
    assert_eq!(fmt.value_type(), ValueType::Number);
    assert_eq!(fmt.num_parts(), 2);
    assert_eq!(fmt.part(0).part_type(), FormatPartType::Number);
    assert_eq!(fmt.part(0).prp("number:decimal-places").unwrap(), "2");
    assert_eq!(fmt.part(1).part_type(), FormatPartType::Text);
    assert_eq!(fmt.part(1).content().unwrap(), " kg");
    // the style resolves to its value format through the workbook
    assert_eq!(book.find_value_format("ce1").unwrap().name(), "N1");
}

#[test]
fn currency_cells_keep_code_and_amount() {
    let book = decode(vec![
        start("table:table", &[]),
        start("table:table-row", &[]),
        start(
            "table:table-cell",
            &[
                ("office:value-type", "currency"),
                ("office:value", "1.99"),
                ("office:currency", "EUR"),
            ],
        ),
        end("table:table-cell"),
        end("table:table-row"),
        end("table:table"),
    ])
    .unwrap();
    assert!(matches!(
        book.sheet(0).value(0, 0),
        Value::Currency(c, v) if c == "EUR" && v == "1.99"
    ));
}

#[test]
fn unknown_elements_are_ignored() {
    let book = decode(vec![
        start("office:body", &[]),
        start("table:table", &[]),
        empty("table:shapes", &[]),
        end("table:table"),
        end("office:body"),
    ])
    .unwrap();
    assert_eq!(book.num_sheets(), 1);
}

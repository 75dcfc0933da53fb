//! Decoding from real archive bytes: the container accessor and the XML
//! tokenizer both do real work here.

use std::io::Write;
use spreadsheet_ods::read::decode_ods_bytes;
use spreadsheet_ods::error::OdsError;
use spreadsheet_ods::value::Value;

fn ods_with_content(content_xml: &str) -> Vec<u8> {
    let cursor = std::io::Cursor::new(Vec::new());
    let mut writer = zip::ZipWriter::new(cursor);
    let options = zip::write::SimpleFileOptions::default();
    writer.start_file("content.xml", options).unwrap();
    writer.write_all(content_xml.as_bytes()).unwrap();
    writer.finish().unwrap().into_inner()
}

#[test]
fn a_small_document_decodes_from_archive_bytes() {
    let mut xml = String::new();
    xml.push_str("<?xml version=\"1.0\" encoding=\"UTF-8\"?>");
    xml.push_str("<office:document-content>");
    xml.push_str("<office:body><office:spreadsheet>");
    xml.push_str("<table:table table:name=\"Sheet1\">");
    xml.push_str("<table:table-column table:number-columns-repeated=\"2\"/>");
    xml.push_str("<table:table-row>");
    xml.push_str("<table:table-cell office:value-type=\"float\" office:value=\"42\">");
    xml.push_str("</table:table-cell>");
    xml.push_str("<table:table-cell office:value-type=\"string\"><text:p>a &amp; b</text:p>");
    xml.push_str("</table:table-cell>");
    xml.push_str("</table:table-row>");
    xml.push_str("</table:table>");
    xml.push_str("</office:spreadsheet></office:body>");
    xml.push_str("</office:document-content>");
    let bytes = ods_with_content(&xml);
    let book = decode_ods_bytes(&bytes).unwrap();
    assert_eq!(book.num_sheets(), 1);
    let sheet = book.sheet(0);
    assert_eq!(sheet.name(), "Sheet1");
    assert!(matches!(sheet.value(0, 0), Value::Number(s) if s == "42"));
    // the entity reference was resolved inside the text run
    assert!(matches!(sheet.value(0, 1), Value::Text(s) if s == "a & b"));
}

#[test]
fn garbage_bytes_fail_as_an_archive_error() {
    let r = decode_ods_bytes(b"this is not a zip archive");
    assert!(matches!(r, Err(OdsError::Archive)));
}

#[test]
fn archive_without_content_entry_fails() {
    let cursor = std::io::Cursor::new(Vec::new());
    let mut writer = zip::ZipWriter::new(cursor);
    let options = zip::write::SimpleFileOptions::default();
    writer.start_file("other.xml", options).unwrap();
    writer.write_all(b"<x/>").unwrap();
    let bytes = writer.finish().unwrap().into_inner();
    assert!(matches!(decode_ods_bytes(&bytes), Err(OdsError::Archive)));
}

#[test]
fn malformed_xml_in_the_entry_fails() {
    let bytes = ods_with_content("<a><b></a>");
    assert!(matches!(decode_ods_bytes(&bytes), Err(OdsError::MalformedXml(_))));
}

#[test]
fn entities_in_attribute_values_are_unescaped() {
    let mut xml = String::new();
    xml.push_str("<table:table table:name=\"A &amp; B\">");
    xml.push_str("</table:table>");
    let bytes = ods_with_content(&xml);
    let book = decode_ods_bytes(&bytes).unwrap();
    assert_eq!(book.sheet(0).name(), "A & B");
}

#[test]
fn surrounding_whitespace_of_a_text_node_is_trimmed_whole() {
    let mut xml = String::new();
    xml.push_str("<table:table><table:table-row>");
    xml.push_str("<table:table-cell office:value-type=\"string\">");
    xml.push_str("<text:p>  a &amp; b  </text:p>");
    xml.push_str("</table:table-cell>");
    xml.push_str("</table:table-row></table:table>");
    let bytes = ods_with_content(&xml);
    let book = decode_ods_bytes(&bytes).unwrap();
    assert!(matches!(book.sheet(0).value(0, 0), Value::Text(s) if s == "a & b"));
}

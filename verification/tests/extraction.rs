//! Tests of the extraction side: MIME classification, byte decoding, the
//! text cleanup routines, and the file handlers.

use dms_toolkit_rs::DocxHandler;
use dms_toolkit_rs::FileHandler;
use dms_toolkit_rs::PdfHandler;
use dms_toolkit_rs::TextHandler;
use dms_toolkit_rs::XlsxHandler;
use dms_toolkit_rs::decode_text;
use dms_toolkit_rs::handlers::docx::paragraphs_to_text;
use dms_toolkit_rs::handlers::pdf::clean_extracted_text;
use dms_toolkit_rs::handlers::xlsx::sheets_to_text;
use dms_toolkit_rs::is_mime_type_text;
use dms_toolkit_rs::qualifies_for_comparison;

#[test]
fn text_mime_types_are_recognized() {
    assert!(is_mime_type_text("text/plain"));
    assert!(is_mime_type_text("text/html"));
    assert!(is_mime_type_text("application/json"));
    assert!(is_mime_type_text("application/xml"));
    assert!(is_mime_type_text("application/javascript"));
    assert!(is_mime_type_text("application/typescript"));
    assert!(is_mime_type_text("application/x-javascript"));
    assert!(is_mime_type_text("application/xhtml+xml"));
    assert!(is_mime_type_text("application/ld+json"));
    assert!(!is_mime_type_text("application/pdf"));
    assert!(!is_mime_type_text("image/png"));
    assert!(!is_mime_type_text(""));
}

#[test]
fn handlers_accept_their_mime_types() {
    assert!(PdfHandler::new().can_handle("application/pdf"));
    assert!(!PdfHandler::new().can_handle("text/plain"));
    assert!(TextHandler::new().can_handle("text/csv"));
    assert!(TextHandler::new().can_handle("text/tsv"));
    assert!(TextHandler::new().can_handle("text/tab-separated-values"));
    assert!(TextHandler::new().can_handle("application/json"));
    assert!(!TextHandler::new().can_handle("application/pdf"));
    assert!(XlsxHandler::new().can_handle(
        "application/vnd.openxmlformats-officedocument.spreadsheetml.sheet"
    ));
    assert!(XlsxHandler::new().can_handle("application/vnd.ms-excel"));
    assert!(XlsxHandler::new().can_handle("application/xlsx"));
    assert!(!XlsxHandler::new().can_handle("text/plain"));
    assert!(DocxHandler::new().can_handle(
        "application/vnd.openxmlformats-officedocument.wordprocessingml.document"
    ));
    assert!(DocxHandler::new().can_handle("application/docx"));
    assert!(!DocxHandler::new().can_handle("application/pdf"));
}

#[test]
fn decode_utf8_roundtrip() {
    let text = "héllo wörld";
    assert_eq!(decode_text(text.as_bytes(), "utf-8"), text);
}

#[test]
fn decode_latin1_bytes() {
    // 0xE9 is e-acute in ISO-8859-1.
    assert_eq!(decode_text(&[0x63, 0x61, 0x66, 0xE9], "iso-8859-1"), "café");
}

#[test]
fn decode_unknown_label_falls_back_to_utf8() {
    assert_eq!(decode_text(b"plain", "no-such-encoding"), "plain");
}

#[test]
fn decode_malformed_utf8_yields_empty() {
    assert_eq!(decode_text(&[0xFF, 0xFE, 0xFD], "utf-8"), "");
}

#[test]
fn text_handler_extracts_plain_text() {
    let handler = TextHandler::new();
    let out = handler.extract_text(b"Hello, world!", "file.txt", "text/plain");
    assert_eq!(out, Ok("Hello, world!".to_string()));
}

#[test]
fn text_handler_extracts_empty_content() {
    let handler = TextHandler::new();
    assert_eq!(handler.extract_text(b"", "empty.txt", "text/plain"), Ok(String::new()));
}

#[test]
fn text_handler_reports_undecodable_content() {
    // A lone UTF-16 byte-order mark: the content is not empty, but the
    // mark is stripped during decoding and no text remains, so the handler
    // reports the failure.
    let handler = TextHandler::new();
    let content: &[u8] = &[0xFF, 0xFE];
    let out = handler.extract_text(content, "bad.txt", "text/plain");
    assert_eq!(out, Err("Failed to decode text content".to_string()));
}

#[test]
fn clean_extracted_text_trims_and_drops_empty_lines() {
    assert_eq!(clean_extracted_text("  first line  \n\n\t\n  second  \n"), "first line\nsecond");
    assert_eq!(clean_extracted_text(""), "");
    assert_eq!(clean_extracted_text(" \n \n "), "");
}

#[test]
fn pdf_handler_reports_garbage() {
    let handler = PdfHandler::new();
    let out = handler.extract_text(b"not a pdf at all", "bad.pdf", "application/pdf");
    match out {
        Err(e) => assert!(e.starts_with("PDF extraction failed:")),
        Ok(_) => panic!("garbage bytes must not extract"),
    }
}

#[test]
fn xlsx_handler_reports_garbage() {
    let handler = XlsxHandler::new();
    let out = handler.extract_text(b"not an xlsx file", "bad.xlsx", "application/xlsx");
    match out {
        Err(e) => assert!(e.starts_with("Failed to open Excel file:")),
        Ok(_) => panic!("garbage bytes must not open"),
    }
}

#[test]
fn docx_handler_reports_garbage() {
    let handler = DocxHandler::new();
    let out = handler.extract_text(b"not a docx file", "bad.docx", "application/docx");
    match out {
        Err(e) => assert!(e.starts_with("Failed to read DOCX:")),
        Ok(_) => panic!("garbage bytes must not parse"),
    }
}

#[test]
fn docx_handler_extracts_built_document() {
    let doc = docx_rs::Docx::new()
        .add_paragraph(
            docx_rs::Paragraph::new().add_run(docx_rs::Run::new().add_text("Hello docx")),
        )
        .add_paragraph(
            docx_rs::Paragraph::new().add_run(docx_rs::Run::new().add_text("Second line")),
        );
    let mut bytes: Vec<u8> = Vec::new();
    doc.build().pack(std::io::Cursor::new(&mut bytes)).expect("packing succeeds");
    let handler = DocxHandler::new();
    let out = handler.extract_text(
        &bytes,
        "built.docx",
        "application/vnd.openxmlformats-officedocument.wordprocessingml.document",
    );
    assert_eq!(out, Ok("Hello docx\nSecond line".to_string()));
}

#[test]
fn sheets_render_as_tab_separated_text() {
    let sheets = vec![
        (
            "Sheet1".to_string(),
            vec![
                vec!["a".to_string(), "".to_string(), "b".to_string()],
                vec!["".to_string()],
                vec!["c".to_string()],
            ],
        ),
        ("Sheet2".to_string(), vec![]),
    ];
    assert_eq!(sheets_to_text(&sheets), "Sheet: Sheet1\na\tb\nc\n\n\nSheet: Sheet2");
}

#[test]
fn paragraphs_render_one_per_line() {
    let paragraphs = vec![
        vec!["Hello ".to_string(), "world".to_string()],
        vec![],
        vec!["Bye".to_string()],
    ];
    assert_eq!(paragraphs_to_text(&paragraphs), "Hello world\n\nBye");
}

#[test]
fn comparison_gate_rejects_empty_and_errors() {
    assert!(qualifies_for_comparison("some extracted text"));
    assert!(!qualifies_for_comparison(""));
    assert!(!qualifies_for_comparison("Error: something went wrong"));
    assert!(qualifies_for_comparison("No Error: here"));
}

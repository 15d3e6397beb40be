//! End-to-end cell value resolution through worksheet handles.

use opc::cell::CellValue;
use opc::decode::{decode, unhandled_format_code};
use opc::document::{Cell, SpreadsheetDocument, SpreadsheetParts, Workbook, Worksheet, WorksheetEntry};
use opc::document_type::SpreadsheetDocumentType;
use opc::error::SheetError;
use opc::relationship::{Relationship, Relationships};
use opc::shared_string::{SharedString, SharedStringsPart};
use opc::style::{CellXfs, NumberFormat, NumberFormats, StylesPart, Xf};
use opc::workbook_part::{Sheet, Sheets, WorkbookPart};
use opc::worksheet::{Dimension, SheetCol, SheetData, SheetRow, WorksheetPart};

fn shared(texts: &[&str]) -> SharedStringsPart {
    SharedStringsPart {
        count: texts.len(),
        unique_count: texts.len(),
        strings: Some(
            texts
                .iter()
                .map(|t| SharedString { t: Some(t.to_string()) })
                .collect(),
        ),
    }
}

fn styles_with(code: &str) -> StylesPart {
    StylesPart {
        num_fmts: Some(NumberFormats {
            num_fmt: Some(vec![NumberFormat { id: 176, code: code.to_string() }]),
        }),
        fonts: None,
        cell_style_xfs: None,
        cell_xfs: Some(CellXfs {
            count: 1,
            xf: vec![Xf {
                num_fmt_id: 176,
                font_id: 0,
                fill_id: 0,
                border_id: 0,
                apply_number_format: None,
                apply_fill: None,
                apply_alignment: None,
                apply_protection: None,
                alignment: None,
            }],
        }),
        cell_styles: None,
    }
}

fn empty_styles() -> StylesPart {
    StylesPart {
        num_fmts: None,
        fonts: None,
        cell_style_xfs: None,
        cell_xfs: None,
        cell_styles: None,
    }
}

fn record(t: Option<&str>, s: Option<usize>, v: Option<&str>) -> SheetCol {
    SheetCol {
        r: "A1".to_string(),
        t: t.map(|x| x.to_string()),
        s,
        inline_str: None,
        v: v.map(|x| x.to_string()),
    }
}

fn one_cell_part(rec: SheetCol) -> WorksheetPart {
    WorksheetPart {
        sheet_pr: None,
        dimension: Some(Dimension { reference: "A1:A1".to_string() }),
        sheet_views: None,
        cols: None,
        sheet_data: Some(SheetData {
            rows: Some(vec![SheetRow {
                r: 1,
                custom_height: None,
                spans: None,
                cols: vec![rec],
            }]),
        }),
        header_footer: None,
    }
}

fn sheet<'a>(
    part: &'a WorksheetPart,
    sst: &'a SharedStringsPart,
    styles: &'a StylesPart,
) -> Worksheet<'a> {
    Worksheet { name: "Sheet1".to_string(), sheet_id: 1, part, shared_strings: sst, styles }
}

#[test]
fn shared_cell_resolves_to_stored_text() {
    let part = one_cell_part(record(Some("s"), None, Some("0")));
    let sst = shared(&["唐菜"]);
    let st = empty_styles();
    let ws = sheet(&part, &sst, &st);
    let cell = Cell { sheet: &ws, row: 0, col: 0 };
    assert_eq!(cell.value(), Ok(Some(CellValue::Text("唐菜".to_string()))));
}

#[test]
fn shared_cell_out_of_range_fails() {
    let part = one_cell_part(record(Some("s"), None, Some("1")));
    let sst = shared(&["only one"]);
    let st = empty_styles();
    let ws = sheet(&part, &sst, &st);
    let cell = Cell { sheet: &ws, row: 0, col: 0 };
    assert_eq!(cell.value(), Err(SheetError::SharedStringOutOfRange));
}

#[test]
fn styled_number_serial_resolves_to_date() {
    let part = one_cell_part(record(Some("n"), Some(0), Some("44197")));
    let sst = shared(&[]);
    let st = styles_with("yyyy/m/d");
    let ws = sheet(&part, &sst, &st);
    let cell = Cell { sheet: &ws, row: 0, col: 0 };
    let value = cell.value().unwrap().unwrap();
    match &value {
        CellValue::DateTime(secs, nanos, template) => {
            assert_eq!(*secs, (44197 - 25569) * 86400);
            assert_eq!(*nanos, 0);
            assert_eq!(template, "%Y/%m/%d");
            let dt = chrono::DateTime::from_timestamp(*secs, *nanos).unwrap();
            assert_eq!(dt.naive_utc().format("%Y-%m-%d").to_string(), "2021-01-01");
        },
        other => panic!("expected a date-time value, got {:?}", other),
    }
    assert_eq!(value.to_string(), Ok("2021/01/01".to_string()));
}

#[test]
fn resolution_is_idempotent() {
    let part = one_cell_part(record(Some("n"), Some(0), Some("44197")));
    let sst = shared(&[]);
    let st = styles_with("yyyy/m/d");
    let ws = sheet(&part, &sst, &st);
    let cell = Cell { sheet: &ws, row: 0, col: 0 };
    assert_eq!(cell.value(), cell.value());
    let plain = one_cell_part(record(None, None, Some("hello")));
    let ws2 = sheet(&plain, &sst, &st);
    let cell2 = Cell { sheet: &ws2, row: 0, col: 0 };
    assert_eq!(cell2.value(), cell2.value());
}

#[test]
fn empty_raw_and_number_cells() {
    let sst = shared(&[]);
    let st = empty_styles();

    let empty = one_cell_part(record(None, None, None));
    let ws = sheet(&empty, &sst, &st);
    assert_eq!(Cell { sheet: &ws, row: 0, col: 0 }.value(), Ok(Some(CellValue::Null)));

    let raw = one_cell_part(record(None, None, Some("plain")));
    let ws = sheet(&raw, &sst, &st);
    assert_eq!(
        Cell { sheet: &ws, row: 0, col: 0 }.value(),
        Ok(Some(CellValue::Text("plain".to_string())))
    );

    let number = one_cell_part(record(Some("n"), None, Some("42")));
    let ws = sheet(&number, &sst, &st);
    assert_eq!(
        Cell { sheet: &ws, row: 0, col: 0 }.value(),
        Ok(Some(CellValue::Text("42".to_string())))
    );
}

#[test]
fn unsupported_marker_fails_per_cell() {
    let sst = shared(&[]);
    let st = empty_styles();
    let part = one_cell_part(record(Some("weird"), None, Some("1")));
    let ws = sheet(&part, &sst, &st);
    assert_eq!(
        Cell { sheet: &ws, row: 0, col: 0 }.value(),
        Err(SheetError::UnsupportedCellType("weird".to_string()))
    );
}

#[test]
fn missing_record_resolves_to_nothing() {
    let sst = shared(&[]);
    let st = empty_styles();
    let part = one_cell_part(record(None, None, Some("x")));
    let ws = sheet(&part, &sst, &st);
    assert_eq!(Cell { sheet: &ws, row: 5, col: 7 }.value(), Ok(None));
}

#[test]
fn styled_cell_with_undeclared_format_passes_text_through() {
    let sst = shared(&[]);
    let st = empty_styles();
    // Style id 9 has no format record at all: treat the text literally.
    let part = one_cell_part(record(None, Some(9), Some("note")));
    let ws = sheet(&part, &sst, &st);
    assert_eq!(
        Cell { sheet: &ws, row: 0, col: 0 }.value(),
        Ok(Some(CellValue::Text("note".to_string())))
    );
}

#[test]
fn styled_cell_with_unparsable_serial_fails() {
    let sst = shared(&[]);
    let st = styles_with("yyyy/m/d");
    let part = one_cell_part(record(Some("n"), Some(0), Some("not a number")));
    let ws = sheet(&part, &sst, &st);
    assert_eq!(
        Cell { sheet: &ws, row: 0, col: 0 }.value(),
        Err(SheetError::DateTimeParseError)
    );
}

#[test]
fn decode_passes_general_and_unknown_formats_through() {
    assert_eq!(decode("12.5", None), Ok(CellValue::Text("12.5".to_string())));
    assert_eq!(decode("12.5", Some("General")), Ok(CellValue::Text("12.5".to_string())));
    assert_eq!(decode("12.5", Some("0.00%")), Ok(CellValue::Text("12.5".to_string())));
}

#[test]
fn decode_unquotes_the_format_code() {
    // A quoted code still reads as a date code, and the quotes are gone
    // from the translated template.
    match decode("44197", Some("\"yyyy\"")) {
        Ok(CellValue::DateTime(_, _, template)) => assert_eq!(template, "%Y"),
        other => panic!("expected a date-time value, got {:?}", other),
    }
}

#[test]
fn decode_trims_the_locale_suffix() {
    match decode("44197", Some("yyyy-mm-dd;@")) {
        Ok(CellValue::DateTime(secs, _, template)) => {
            assert_eq!(secs, (44197 - 25569) * 86400);
            assert_eq!(template, "%Y-%m-%d");
        },
        other => panic!("expected a date-time value, got {:?}", other),
    }
}

#[test]
fn unhandled_format_codes_are_recognised() {
    assert!(unhandled_format_code("0.00%"));
    assert!(unhandled_format_code("#,##0"));
    assert!(!unhandled_format_code("General"));
    assert!(!unhandled_format_code("yyyy-mm-dd"));
    assert!(!unhandled_format_code("0.00;@"));
}

#[test]
fn rendering_fails_on_rejected_templates() {
    // A specifier the formatter does not know.
    let bad = CellValue::DateTime(0, 0, "%Q".to_string());
    assert_eq!(bad.to_string(), Err(SheetError::UnrenderableValue));
    // A timestamp beyond the formatter's calendar range.
    let far = CellValue::DateTime(i64::MAX, 0, "%Y".to_string());
    assert_eq!(far.to_string(), Err(SheetError::UnrenderableValue));
}

#[test]
fn display_strings_of_values() {
    assert_eq!(CellValue::Null.to_string(), Ok("".to_string()));
    assert_eq!(CellValue::Text("t".to_string()).to_string(), Ok("t".to_string()));
    assert_eq!(CellValue::RawText("u".to_string()).to_string(), Ok("u".to_string()));
    assert_eq!(CellValue::Bool(true).to_string(), Err(SheetError::UnrenderableValue));
    assert_eq!(CellValue::Int(3).to_string(), Err(SheetError::UnrenderableValue));
    assert_eq!(CellValue::Byte(7).to_string(), Err(SheetError::UnrenderableValue));
    let dt = CellValue::DateTime((44197 - 25569) * 86400, 0, "%Y-%m-%d".to_string());
    assert_eq!(dt.to_string(), Ok("2021-01-01".to_string()));
}

#[test]
fn dimension_prefers_the_declared_range() {
    let part = one_cell_part(record(None, None, Some("x")));
    let sst = shared(&[]);
    let st = empty_styles();
    let ws = sheet(&part, &sst, &st);
    assert_eq!(ws.dimenstion(), Some((1, 1)));
    assert_eq!(ws.get_row_size(), 1);
    assert_eq!(ws.get_col_size(), 1);
}

#[test]
fn dimension_falls_back_to_counting() {
    let mut part = one_cell_part(record(None, None, Some("x")));
    part.dimension = None;
    let sst = shared(&[]);
    let st = empty_styles();
    let ws = sheet(&part, &sst, &st);
    // One stored row, no declared column headers.
    assert_eq!(ws.dimenstion(), Some((1, 0)));
}

#[test]
fn row_iteration_visits_every_cell_once() {
    let part = WorksheetPart {
        sheet_pr: None,
        dimension: Some(Dimension { reference: "A1:B2".to_string() }),
        sheet_views: None,
        cols: None,
        sheet_data: Some(SheetData {
            rows: Some(vec![
                SheetRow {
                    r: 1,
                    custom_height: None,
                    spans: None,
                    cols: vec![
                        record(None, None, Some("a")),
                        record(None, None, Some("b")),
                    ],
                },
                SheetRow {
                    r: 2,
                    custom_height: None,
                    spans: None,
                    cols: vec![
                        record(None, None, Some("c")),
                        record(None, None, Some("d")),
                    ],
                },
            ]),
        }),
        header_footer: None,
    };
    let sst = shared(&[]);
    let st = empty_styles();
    let ws = sheet(&part, &sst, &st);
    let mut seen: Vec<String> = Vec::new();
    let mut rows = ws.rows();
    while let Some(mut row) = rows.next() {
        while let Some(cell) = row.next() {
            match cell.value().unwrap().unwrap() {
                CellValue::Text(t) => seen.push(t),
                other => panic!("unexpected value {:?}", other),
            }
        }
    }
    assert_eq!(seen, vec!["a", "b", "c", "d"]);
    // The iterator is restartable: a fresh one walks the same cells.
    let mut again: Vec<String> = Vec::new();
    let mut rows2 = ws.rows();
    while let Some(mut row) = rows2.next() {
        while let Some(cell) = row.next() {
            if let Ok(Some(CellValue::Text(t))) = cell.value() {
                again.push(t);
            }
        }
    }
    assert_eq!(seen, again);
}

fn parts_with_sheet() -> SpreadsheetParts {
    let mut relationships = Relationships::default();
    relationships.add_relationship(Relationship {
        id: "rId1".to_string(),
        kind: "worksheet".to_string(),
        target: "worksheets/sheet1.xml".to_string(),
    });
    SpreadsheetParts {
        initialized: true,
        relationships,
        workbook: WorkbookPart {
            file_version: None,
            book_views: Default::default(),
            workbook_pr: Default::default(),
            sheets: Sheets {
                sheets: vec![Sheet {
                    name: "First".to_string(),
                    sheet_id: 1,
                    r_id: "rId1".to_string(),
                }],
            },
            calc_pr: None,
        },
        styles: empty_styles(),
        shared_strings: shared(&["hello"]),
        worksheets: vec![WorksheetEntry {
            uri: "worksheets/sheet1.xml".to_string(),
            part: one_cell_part(record(Some("s"), None, Some("0"))),
        }],
    }
}

#[test]
fn workbook_resolves_declared_sheets() {
    let parts = parts_with_sheet();
    let wb = Workbook::new(&parts).unwrap();
    assert_eq!(wb.worksheet_names(), vec!["First".to_string()]);
    let ws = &wb.worksheets()[0];
    assert_eq!(ws.sheet_id, 1);
    let cell = Cell { sheet: ws, row: 0, col: 0 };
    assert_eq!(cell.value(), Ok(Some(CellValue::Text("hello".to_string()))));
}

#[test]
fn workbook_reports_missing_relationship() {
    let mut parts = parts_with_sheet();
    parts.relationships = Relationships::default();
    assert_eq!(Workbook::new(&parts).err(), Some(SheetError::RelationshipMissing));
}

#[test]
fn workbook_reports_missing_part() {
    let mut parts = parts_with_sheet();
    parts.worksheets.clear();
    assert_eq!(Workbook::new(&parts).err(), Some(SheetError::PartNotFound));
}

#[test]
fn register_worksheet_replaces_in_place() {
    let mut parts = parts_with_sheet();
    let other = one_cell_part(record(None, None, Some("new")));
    parts.register_worksheet("worksheets/sheet1.xml".to_string(), other);
    assert_eq!(parts.worksheets.len(), 1);
    parts.register_worksheet("worksheets/sheet2.xml".to_string(), one_cell_part(record(None, None, None)));
    assert_eq!(parts.worksheets.len(), 2);
    assert_eq!(parts.worksheets[1].uri, "worksheets/sheet2.xml");
}

#[test]
fn parts_getters_delegate_to_the_tables() {
    let parts = parts_with_sheet();
    assert_eq!(parts.sheet_names(), vec!["First"]);
    assert_eq!(parts.get_shared_string(0), Some("hello"));
    assert_eq!(parts.get_shared_string(1), None);
    // The empty style table has no format component at any id.
    assert!(parts.get_cell_format(0).is_none());
    assert_eq!(
        parts.get_worksheet_part("worksheets/sheet1.xml").is_some(),
        true
    );
    assert!(parts.get_worksheet_part("worksheets/other.xml").is_none());
}

#[test]
fn to_cell_value_resolves_through_the_style_table() {
    let part = one_cell_part(record(None, None, None));
    let sst = shared(&[]);
    let st = styles_with("yyyy-mm-dd");
    let ws = sheet(&part, &sst, &st);
    match ws.to_cell_value("44197", 0) {
        Ok(CellValue::DateTime(secs, nanos, template)) => {
            assert_eq!(secs, (44197 - 25569) * 86400);
            assert_eq!(nanos, 0);
            assert_eq!(template, "%Y-%m-%d");
        },
        other => panic!("expected a date-time value, got {:?}", other),
    }
    // A style id with no record falls back to the literal text.
    assert_eq!(ws.to_cell_value("note", 9), Ok(CellValue::Text("note".to_string())));
    assert_eq!(ws.get_shared_string(0), None);
}

#[test]
fn workbook_part_lists_sheet_names() {
    let parts = parts_with_sheet();
    assert_eq!(parts.workbook.sheet_names(), vec!["First"]);
}

#[test]
fn worksheet_uris_lists_targets_in_order() {
    let parts = parts_with_sheet();
    assert_eq!(parts.worksheet_uris(), Ok(vec!["worksheets/sheet1.xml".to_string()]));
}

#[test]
fn document_assembles_and_hands_out_the_workbook() {
    let parts = parts_with_sheet();
    let doc = SpreadsheetDocument::new(parts, SpreadsheetDocumentType::Workbook).unwrap();
    let wb = doc.get_workbook().unwrap();
    assert_eq!(wb.worksheet_names(), vec!["First".to_string()]);
}

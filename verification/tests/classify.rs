//! The cell type classifier against its decision table.

use opc::cell::CellType;
use opc::error::SheetError;
use opc::worksheet::SheetCol;

fn record(t: Option<&str>, s: Option<usize>, v: Option<&str>) -> SheetCol {
    SheetCol {
        r: "A1".to_string(),
        t: t.map(|x| x.to_string()),
        s,
        inline_str: None,
        v: v.map(|x| x.to_string()),
    }
}

#[test]
fn no_marker_no_value_is_empty() {
    assert_eq!(record(None, None, None).cell_type(), Ok(CellType::Empty));
    // A style id alone does not make the cell non-empty.
    assert_eq!(record(None, Some(3), None).cell_type(), Ok(CellType::Empty));
}

#[test]
fn no_marker_with_value_is_raw_or_styled() {
    assert_eq!(record(None, None, Some("x")).cell_type(), Ok(CellType::Raw));
    assert_eq!(record(None, Some(2), Some("x")).cell_type(), Ok(CellType::Styled(2)));
}

#[test]
fn shared_marker_parses_its_index() {
    assert_eq!(record(Some("s"), None, Some("0")).cell_type(), Ok(CellType::Shared(0)));
    assert_eq!(record(Some("s"), Some(1), Some("7")).cell_type(), Ok(CellType::Shared(7)));
    assert_eq!(record(Some("s"), None, Some("007")).cell_type(), Ok(CellType::Shared(7)));
}

#[test]
fn shared_marker_without_index_is_malformed() {
    assert_eq!(
        record(Some("s"), None, None).cell_type(),
        Err(SheetError::MalformedSharedIndex)
    );
    assert_eq!(
        record(Some("s"), None, Some("x")).cell_type(),
        Err(SheetError::MalformedSharedIndex)
    );
    assert_eq!(
        record(Some("s"), None, Some("-1")).cell_type(),
        Err(SheetError::MalformedSharedIndex)
    );
    assert_eq!(
        record(Some("s"), None, Some("")).cell_type(),
        Err(SheetError::MalformedSharedIndex)
    );
}

#[test]
fn overlong_shared_index_reads_as_out_of_range() {
    // Ten significant digits parse as a number but can never be in range.
    assert_eq!(
        record(Some("s"), None, Some("1234567890")).cell_type(),
        Err(SheetError::SharedStringOutOfRange)
    );
    assert_eq!(
        record(Some("s"), None, Some("+0001234567890")).cell_type(),
        Err(SheetError::SharedStringOutOfRange)
    );
    // Nine significant digits still parse to an index.
    assert_eq!(
        record(Some("s"), None, Some("999999999")).cell_type(),
        Ok(CellType::Shared(999_999_999))
    );
}

#[test]
fn number_marker_with_and_without_style() {
    assert_eq!(record(Some("n"), None, Some("5")).cell_type(), Ok(CellType::Number));
    assert_eq!(
        record(Some("n"), Some(4), Some("5")).cell_type(),
        Ok(CellType::StyledNumber(4))
    );
}

#[test]
fn inline_marker_is_raw() {
    assert_eq!(record(Some("inlineStr"), None, None).cell_type(), Ok(CellType::Raw));
    assert_eq!(record(Some("inlineStr"), Some(9), Some("x")).cell_type(), Ok(CellType::Raw));
}

#[test]
fn other_markers_are_unsupported() {
    assert_eq!(
        record(Some("b"), None, Some("1")).cell_type(),
        Err(SheetError::UnsupportedCellType("b".to_string()))
    );
    assert_eq!(
        record(Some("str"), Some(1), None).cell_type(),
        Err(SheetError::UnsupportedCellType("str".to_string()))
    );
}

#[test]
fn raw_text_prefers_inline_text() {
    let mut rec = record(Some("inlineStr"), None, Some("value text"));
    rec.inline_str = Some(opc::worksheet::SheetCellIs { t: Some("inline text".to_string()) });
    assert_eq!(rec.as_raw_str(), "inline text");
    let rec2 = record(None, None, Some("value text"));
    assert_eq!(rec2.as_raw_str(), "value text");
    let rec3 = record(None, None, None);
    assert_eq!(rec3.as_raw_str(), "");
    let mut rec4 = record(None, None, Some("value text"));
    rec4.inline_str = Some(opc::worksheet::SheetCellIs { t: None });
    assert_eq!(rec4.as_raw_str(), "");
}

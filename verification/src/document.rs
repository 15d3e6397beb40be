//! The document grid: workbook and worksheet handles over the parsed
//! tables, and per-cell value resolution.
//!
//! All tables are built once when a document is opened and are read-only
//! afterwards; worksheet handles borrow the tables they consult, so
//! resolution is a pure function of the handle and the cell position and
//! never mutates anything.

use vstd::prelude::*;

use crate::cell::{CellType, CellValue, SpecCellValue};
use crate::chars::str_eq;
use crate::decode::{decode, spec_decode};
use crate::document_type::SpreadsheetDocumentType;
use crate::error::SheetError;
use crate::relationship::Relationships;
use crate::shared_string::SharedStringsPart;
use crate::style::StylesPart;
use crate::workbook_part::WorkbookPart;
use crate::worksheet::{spec_shared_index, SheetCol, WorksheetPart};

verus! {

/// One parsed worksheet part, keyed by the target path it was loaded from.
#[derive(Debug, Clone)]
pub struct WorksheetEntry {
    pub uri: String,
    pub part: WorksheetPart,
}

/// Position of the first worksheet entry at or past `i` stored under `uri`.
pub open spec fn find_ws(s: Seq<WorksheetEntry>, uri: Seq<char>, i: int) -> Option<int>
    decreases s.len() - i,
{
    if i < 0 || i >= s.len() {
        None
    } else if s[i].uri@ == uri {
        Some(i)
    } else {
        find_ws(s, uri, i + 1)
    }
}

/// The parsed parts of one spreadsheet package: its relationship table,
/// workbook part, style and shared-string tables, and worksheet parts in
/// load order.
#[derive(Debug, Clone, Default)]
pub struct SpreadsheetParts {
    pub initialized: bool,
    pub relationships: Relationships,
    pub workbook: WorkbookPart,
    pub styles: StylesPart,
    pub shared_strings: SharedStringsPart,
    pub worksheets: Vec<WorksheetEntry>,
}

impl SpreadsheetParts {
    /// No two worksheet entries share a path.
    pub open spec fn uris_unique(&self) -> bool {
        forall|i: int, j: int|
            0 <= i < j < self.worksheets@.len() ==> #[trigger] self.worksheets@[i].uri@
                != #[trigger] self.worksheets@[j].uri@
    }

    /// The worksheet part stored under `uri`, if any.
    pub open spec fn spec_worksheet(&self, uri: Seq<char>) -> Option<WorksheetPart> {
        match find_ws(self.worksheets@, uri, 0) {
            Some(i) => Some(self.worksheets@[i].part),
            None => None,
        }
    }

    /// How sheet number `i` of the workbook resolves: through its
    /// relationship id to a target path, then to the worksheet part stored
    /// under that path. A missing relationship and a missing part are the
    /// two failures.
    pub open spec fn spec_resolve_sheet(&self, i: int) -> Result<WorksheetPart, SheetError> {
        match self.relationships.spec_get(self.workbook.sheets.sheets@[i].r_id@) {
            None => Err(SheetError::RelationshipMissing),
            Some(rel) => match self.spec_worksheet(rel.target@) {
                None => Err(SheetError::PartNotFound),
                Some(part) => Ok(part),
            },
        }
    }

    /// Every declared sheet resolves to a worksheet part.
    pub open spec fn sheets_resolvable(&self) -> bool {
        forall|i: int|
            0 <= i < self.workbook.sheets.sheets@.len()
                ==> #[trigger] self.spec_resolve_sheet(i) is Ok
    }

    /// The worksheet part stored under `uri`, exactly
    /// [`SpreadsheetParts::spec_worksheet`].
    pub fn get_worksheet_part(&self, uri: &str) -> (r: Option<&WorksheetPart>)
        ensures
            r is Some <==> self.spec_worksheet(uri@) is Some,
            r matches Some(p) ==> self.spec_worksheet(uri@) == Some(*p),
    {
        let n = self.worksheets.len();
        let mut i: usize = 0;
        while i < n
            invariant
                i <= n,
                n == self.worksheets@.len(),
                find_ws(self.worksheets@, uri@, 0) == find_ws(self.worksheets@, uri@, i as int),
            decreases n - i,
        {
            if str_eq(self.worksheets[i].uri.as_str(), uri) {
                return Some(&self.worksheets[i].part);
            }
            i = i + 1;
        }
        None
    }

    /// Stores a worksheet part under a path: an entry with the same path
    /// is replaced in place, keeping its position; otherwise the entry is
    /// appended. Order and uniqueness of paths are preserved.
    pub fn register_worksheet(&mut self, uri: String, part: WorksheetPart)
        ensures
            final(self).relationships == old(self).relationships,
            final(self).workbook == old(self).workbook,
            final(self).styles == old(self).styles,
            final(self).shared_strings == old(self).shared_strings,
            final(self).initialized == old(self).initialized,
            match find_ws(old(self).worksheets@, uri@, 0) {
                Some(i) => final(self).worksheets@ == old(self).worksheets@.update(
                    i,
                    WorksheetEntry { uri, part },
                ),
                None => final(self).worksheets@ == old(self).worksheets@.push(
                    WorksheetEntry { uri, part },
                ),
            },
            old(self).uris_unique() ==> final(self).uris_unique(),
    {
        let entry = WorksheetEntry { uri, part };
        proof {
            assert(entry == (WorksheetEntry { uri, part }));
        }
        let n = self.worksheets.len();
        let mut i: usize = 0;
        while i < n
            invariant
                i <= n,
                n == self.worksheets@.len(),
                *self == *old(self),
                entry == (WorksheetEntry { uri, part }),
                find_ws(self.worksheets@, entry.uri@, 0) == find_ws(
                    self.worksheets@,
                    entry.uri@,
                    i as int,
                ),
                forall|k: int| 0 <= k < i ==> #[trigger] self.worksheets@[k].uri@ != entry.uri@,
            decreases n - i,
        {
            if str_eq(self.worksheets[i].uri.as_str(), entry.uri.as_str()) {
                proof {
                    assert(find_ws(self.worksheets@, entry.uri@, i as int) == Some(i as int));
                }
                let ghost os = self.worksheets@;
                self.worksheets.set(i, entry);
                proof {
                    let ns = self.worksheets@;
                    assert(ns == os.update(i as int, ns[i as int]));
                    if old(self).uris_unique() {
                        assert(os[i as int].uri@ == ns[i as int].uri@);
                        assert forall|a: int, b: int|
                            0 <= a < b < ns.len() implies #[trigger] ns[a].uri@
                            != #[trigger] ns[b].uri@ by {
                            if a != i {
                                assert(ns[a] == os[a]);
                            }
                            if b != i {
                                assert(ns[b] == os[b]);
                            }
                        }
                    }
                }
                return ;
            }
            i = i + 1;
        }
        proof {
            assert(find_ws(self.worksheets@, entry.uri@, n as int) is None);
        }
        let ghost os = self.worksheets@;
        self.worksheets.push(entry);
        proof {
            let ns = self.worksheets@;
            assert(ns == os.push(ns[ns.len() - 1]));
            if old(self).uris_unique() {
                assert forall|a: int, b: int|
                    0 <= a < b < ns.len() implies #[trigger] ns[a].uri@
                    != #[trigger] ns[b].uri@ by {
                    assert(ns[a] == os[a]);
                    if b < ns.len() - 1 {
                        assert(ns[b] == os[b]);
                    } else {
                        assert(os[a].uri@ != ns[b].uri@);
                    }
                }
            }
        }
    }

    /// The declared sheet names, in workbook order.
    pub fn sheet_names(&self) -> (r: Vec<&str>)
        ensures
            r@.len() == self.workbook.sheets.sheets@.len(),
            forall|i: int|
                0 <= i < r@.len() ==> #[trigger] r@[i]@ == self.workbook.sheets.sheets@[i].name@,
    {
        self.workbook.sheet_names()
    }

    /// The shared string at `idx`, exactly the table's entry when the
    /// index is in range.
    pub fn get_shared_string(&self, idx: usize) -> (r: Option<&str>)
        ensures
            r is Some <==> self.shared_strings.spec_get(idx as int) is Some,
            r matches Some(s) ==> self.shared_strings.spec_get(idx as int) == Some(s@),
    {
        self.shared_strings.get_shared_string(idx)
    }

    /// The format component a style id selects, if any.
    pub fn get_cell_format(&self, id: usize) -> (r: Option<
        crate::style::CellFormatComponent<'_>,
    >)
        ensures
            r is Some <==> self.styles.spec_cell_xf(id as int) is Some,
            r matches Some(c) ==> self.styles.spec_cell_xf(id as int) == Some(*c.xf) && *c.styles
                == self.styles,
    {
        self.styles.get_cell_format_component(id)
    }

    /// The relationship targets the declared sheets point at, in workbook
    /// order; the first sheet with an undeclared relationship id fails.
    pub fn worksheet_uris(&self) -> (r: Result<Vec<String>, SheetError>)
        ensures
            r is Ok <==> (forall|i: int|
                0 <= i < self.workbook.sheets.sheets@.len()
                    ==> #[trigger] self.relationships.spec_get(
                    self.workbook.sheets.sheets@[i].r_id@,
                ) is Some),
            r matches Ok(v) ==> v@.len() == self.workbook.sheets.sheets@.len() && (forall|i: int|
                0 <= i < v@.len() ==> #[trigger] v@[i]@ == self.relationships.spec_get(
                    self.workbook.sheets.sheets@[i].r_id@,
                )->0.target@),
            r matches Err(e) ==> e == SheetError::RelationshipMissing,
    {
        let n = self.workbook.sheets.sheets.len();
        let mut v: Vec<String> = Vec::new();
        let mut i: usize = 0;
        while i < n
            invariant
                i <= n,
                n == self.workbook.sheets.sheets@.len(),
                v@.len() == i,
                forall|k: int|
                    0 <= k < i ==> #[trigger] self.relationships.spec_get(
                        self.workbook.sheets.sheets@[k].r_id@,
                    ) is Some,
                forall|k: int|
                    0 <= k < i ==> #[trigger] v@[k]@ == self.relationships.spec_get(
                        self.workbook.sheets.sheets@[k].r_id@,
                    )->0.target@,
            decreases n - i,
        {
            let sheet = &self.workbook.sheets.sheets[i];
            match self.relationships.get_relationship_by_id(sheet.r_id.as_str()) {
                Some(rel) => {
                    v.push(rel.target.clone());
                },
                None => {
                    return Err(SheetError::RelationshipMissing);
                },
            }
            i = i + 1;
        }
        Ok(v)
    }
}

/// One worksheet handle: the sheet's name and id, its parsed part, and the
/// workbook-wide tables it resolves against, all borrowed read-only.
#[derive(Debug, Clone)]
pub struct Worksheet<'a> {
    pub name: String,
    pub sheet_id: usize,
    pub part: &'a WorksheetPart,
    pub shared_strings: &'a SharedStringsPart,
    pub styles: &'a StylesPart,
}

impl<'a> Worksheet<'a> {
    /// The worksheet's `(rows, cols)`: the declared range where one is
    /// declared and parses, else the extent counted from the stored data.
    pub open spec fn spec_dimension(&self) -> Option<(int, int)> {
        match self.part.spec_declared_dimension() {
            Some(d) => Some(d),
            None => self.part.spec_real_dimension(),
        }
    }

    /// Rows the iteration covers.
    pub open spec fn spec_row_size(&self) -> int {
        match self.spec_dimension() {
            Some(d) => d.0,
            None => 0,
        }
    }

    /// Columns the iteration covers.
    pub open spec fn spec_col_size(&self) -> int {
        match self.spec_dimension() {
            Some(d) => d.1,
            None => 0,
        }
    }

    /// The raw record stored at `(row, col)`, counted positionally into
    /// the parsed rows, if there is one.
    pub open spec fn spec_record_at(&self, row: int, col: int) -> Option<SheetCol> {
        match self.part.sheet_data {
            Some(sd) => match sd.rows {
                Some(rows) => if 0 <= row < rows@.len() && 0 <= col < rows@[row].cols@.len() {
                    Some(rows@[row].cols@[col])
                } else {
                    None
                },
                None => None,
            },
            None => None,
        }
    }

    /// How a raw text resolves under a style id: through the style table
    /// to a format code, then through the decoder.
    pub open spec fn spec_to_cell_value(&self, raw: Seq<char>, style_id: int) -> Result<
        SpecCellValue,
        SheetError,
    > {
        spec_decode(raw, self.styles.spec_format_code(style_id))
    }

    /// The worksheet's dimension, exactly [`Worksheet::spec_dimension`].
    pub fn dimenstion(&self) -> (r: Option<(usize, usize)>)
        ensures
            r is Some <==> self.spec_dimension() is Some,
            r matches Some(p) ==> self.spec_dimension() == Some((p.0 as int, p.1 as int)),
    {
        match self.part.dimenstion() {
            Some(d) => Some(d),
            None => self.part.real_dimenstion(),
        }
    }

    /// A fresh restartable iterator over the worksheet's rows.
    pub fn rows(&self) -> (r: RowsIter<'a, '_>)
        ensures
            *r.sheet == *self,
            r.row == 0,
            r.col == 0,
    {
        RowsIter { sheet: self, row: 0, col: 0 }
    }

    /// Rows the iteration covers, exactly [`Worksheet::spec_row_size`].
    pub fn get_row_size(&self) -> (r: usize)
        ensures
            r == self.spec_row_size(),
    {
        match self.dimenstion() {
            Some(d) => d.0,
            None => 0,
        }
    }

    /// Columns the iteration covers, exactly [`Worksheet::spec_col_size`].
    pub fn get_col_size(&self) -> (r: usize)
        ensures
            r == self.spec_col_size(),
    {
        match self.dimenstion() {
            Some(d) => d.1,
            None => 0,
        }
    }

    /// The shared string at `idx` of this sheet's table, exactly the
    /// table's entry when the index is in range.
    pub fn get_shared_string(&self, idx: usize) -> (r: Option<String>)
        ensures
            r is Some <==> self.shared_strings.spec_get(idx as int) is Some,
            r matches Some(s) ==> self.shared_strings.spec_get(idx as int) == Some(s@),
    {
        match self.shared_strings.get_shared_string(idx) {
            Some(s) => Some(s.to_owned()),
            None => None,
        }
    }

    /// Resolves a raw text under a style id, exactly
    /// [`Worksheet::spec_to_cell_value`]. Where the style resolves to a
    /// quote-free date/time code, the produced display template is the
    /// translation of the trimmed code itself.
    pub fn to_cell_value(&self, raw: &str, style_id: usize) -> (r: Result<CellValue, SheetError>)
        ensures
            r matches Ok(v) ==> self.spec_to_cell_value(raw@, style_id as int) == Ok::<
                SpecCellValue,
                SheetError,
            >(v@),
            r matches Err(e) ==> self.spec_to_cell_value(raw@, style_id as int) == Err::<
                SpecCellValue,
                SheetError,
            >(e),
            (match (self.styles.spec_format_code(style_id as int), r) {
                (Some(c), Ok(CellValue::DateTime(secs, nanos, tpl))) => crate::decode::quote_free(
                    c,
                ) ==> tpl@ == crate::numfmt::spec_translate(crate::numfmt::spec_trim_locale(c)),
                _ => true,
            }),
    {
        match self.styles.get_cell_format_component(style_id) {
            None => decode(raw, None),
            Some(cs) => match cs.number_format() {
                None => decode(raw, None),
                Some(nf) => decode(raw, Some(nf.code.as_str())),
            },
        }
    }
}

/// A restartable iterator over the rows of a worksheet.
#[derive(Debug)]
pub struct RowsIter<'a, 'b> {
    pub sheet: &'b Worksheet<'a>,
    pub row: usize,
    pub col: usize,
}

impl<'a, 'b> RowsIter<'a, 'b> {
    /// A handle for the current row.
    fn row_iter(&self) -> (r: RowIter<'a, 'b>)
        ensures
            *r.sheet == *self.sheet,
            r.row == self.row,
            r.col == self.col,
    {
        RowIter { sheet: self.sheet, row: self.row, col: self.col }
    }

    /// The next row handle, or nothing once every covered row was
    /// produced.
    pub fn next(&mut self) -> (r: Option<RowIter<'a, 'b>>)
        ensures
            old(self).row >= old(self).sheet.spec_row_size() ==> r is None && *final(self)
                == *old(self),
            old(self).row < old(self).sheet.spec_row_size() ==> (r matches Some(ri)
                && *ri.sheet == *old(self).sheet && ri.row == old(self).row && ri.col
                == old(self).col && final(self).row == old(self).row + 1 && final(self).col
                == old(self).col && final(self).sheet == old(self).sheet),
    {
        if self.row >= self.sheet.get_row_size() {
            return None;
        }
        let row = self.row_iter();
        self.row = self.row + 1;
        Some(row)
    }
}

/// An iterator over the cells of one row, bounded by the worksheet's
/// column count.
#[derive(Debug)]
pub struct RowIter<'a, 'b> {
    pub sheet: &'b Worksheet<'a>,
    pub row: usize,
    pub col: usize,
}

impl<'a, 'b> RowIter<'a, 'b> {
    /// The next cell handle, or nothing once every covered column was
    /// produced.
    pub fn next(&mut self) -> (r: Option<Cell<'a, 'b>>)
        ensures
            old(self).col >= old(self).sheet.spec_col_size() ==> r is None && *final(self)
                == *old(self),
            old(self).col < old(self).sheet.spec_col_size() ==> (r matches Some(c) && *c.sheet
                == *old(self).sheet && c.row == old(self).row && c.col == old(self).col
                && final(self).col == old(self).col + 1 && final(self).row == old(self).row
                && final(self).sheet == old(self).sheet),
    {
        if self.col >= self.sheet.get_col_size() {
            return None;
        }
        let cell = Cell { sheet: self.sheet, row: self.row, col: self.col };
        self.col = self.col + 1;
        Some(cell)
    }
}

/// A handle on one cell position of a worksheet.
pub struct Cell<'a, 'b> {
    pub sheet: &'b Worksheet<'a>,
    pub row: usize,
    pub col: usize,
}

/// What resolving a cell can come to: no record at the position, a
/// resolved value, or a per-cell failure.
pub enum SpecOutcome {
    /// No record is stored at the position.
    NoRecord,
    /// The resolved value.
    Value(SpecCellValue),
    /// A per-cell failure.
    Fail(SpecFailure),
}

/// The per-cell failures, with what they carry.
pub enum SpecFailure {
    /// The shared-string index did not parse.
    MalformedSharedIndex,
    /// The shared-string index lay outside the table.
    SharedStringOutOfRange,
    /// The record carried this unrecognized type marker.
    UnsupportedCellType(Seq<char>),
    /// The serial value did not parse or lay out of range.
    DateTimeParseError,
}

/// Whether an execution result reads as the given outcome.
pub open spec fn outcome_matches(
    r: Result<Option<CellValue>, SheetError>,
    o: SpecOutcome,
) -> bool {
    match o {
        SpecOutcome::NoRecord => r == Ok::<Option<CellValue>, SheetError>(None),
        SpecOutcome::Value(sv) => r matches Ok(Some(cv)) && cv@ == sv,
        SpecOutcome::Fail(f) => r matches Err(e) && (match f {
            SpecFailure::MalformedSharedIndex => e == SheetError::MalformedSharedIndex,
            SpecFailure::SharedStringOutOfRange => e == SheetError::SharedStringOutOfRange,
            SpecFailure::UnsupportedCellType(t) => e matches SheetError::UnsupportedCellType(m)
                && m@ == t,
            SpecFailure::DateTimeParseError => e == SheetError::DateTimeParseError,
        }),
    }
}

/// How the cell at `(row, col)` of worksheet `w` resolves: nothing without
/// a record; else by the record's semantic category — empty, raw text,
/// number, a shared-string lookup, or a styled value through the style
/// table and the decoder — or the per-cell failure the category determines.
pub open spec fn spec_cell_value<'a>(w: Worksheet<'a>, row: int, col: int) -> SpecOutcome {
    match w.spec_record_at(row, col) {
        None => SpecOutcome::NoRecord,
        Some(rec) => {
            let raw = rec.spec_raw_str();
            if rec.t is None && rec.v is None {
                SpecOutcome::Value(SpecCellValue::Null)
            } else if rec.t is None && rec.s is None {
                SpecOutcome::Value(SpecCellValue::Text(raw))
            } else if rec.t is None {
                spec_styled_outcome(w, raw, rec.s->0 as int)
            } else if rec.t->0@ == "s"@ {
                match rec.v {
                    None => SpecOutcome::Fail(SpecFailure::MalformedSharedIndex),
                    Some(vt) => match spec_shared_index(vt@) {
                        None => if crate::worksheet::spec_index_overlong(vt@) {
                            SpecOutcome::Fail(SpecFailure::SharedStringOutOfRange)
                        } else {
                            SpecOutcome::Fail(SpecFailure::MalformedSharedIndex)
                        },
                        Some(idx) => match w.shared_strings.spec_get(idx) {
                            Some(txt) => SpecOutcome::Value(SpecCellValue::Text(txt)),
                            None => SpecOutcome::Fail(SpecFailure::SharedStringOutOfRange),
                        },
                    },
                }
            } else if rec.t->0@ == "n"@ {
                match rec.s {
                    None => SpecOutcome::Value(SpecCellValue::Text(raw)),
                    Some(sid) => spec_styled_outcome(w, raw, sid as int),
                }
            } else if rec.t->0@ == "inlineStr"@ {
                SpecOutcome::Value(SpecCellValue::Text(raw))
            } else {
                SpecOutcome::Fail(SpecFailure::UnsupportedCellType(rec.t->0@))
            }
        },
    }
}

/// The outcome of resolving a raw text under a style id.
pub open spec fn spec_styled_outcome<'a>(w: Worksheet<'a>, raw: Seq<char>, sid: int) -> SpecOutcome {
    match w.spec_to_cell_value(raw, sid) {
        Ok(sv) => SpecOutcome::Value(sv),
        Err(e) => SpecOutcome::Fail(SpecFailure::DateTimeParseError),
    }
}

impl<'a, 'b> Cell<'a, 'b> {
    /// The raw record at this position, if one is stored.
    fn inner(&self) -> (r: Option<&SheetCol>)
        ensures
            r is Some <==> self.sheet.spec_record_at(self.row as int, self.col as int) is Some,
            r matches Some(c) ==> self.sheet.spec_record_at(self.row as int, self.col as int)
                == Some(*c),
    {
        match &self.sheet.part.sheet_data {
            Some(sd) => match &sd.rows {
                Some(rows) => {
                    if self.row < rows.len() && self.col < rows[self.row].cols.len() {
                        Some(&rows[self.row].cols[self.col])
                    } else {
                        None
                    }
                },
                None => None,
            },
            None => None,
        }
    }

    /// Resolves this cell: nothing when no record is stored at the
    /// position, else the typed value or per-cell failure that
    /// [`spec_cell_value`] assigns to the record.
    #[verifier::rlimit(100)]
    pub fn value(&self) -> (r: Result<Option<CellValue>, SheetError>)
        ensures
            outcome_matches(r, spec_cell_value(*self.sheet, self.row as int, self.col as int)),
    {
        let ghost w = *self.sheet;
        let inner = self.inner();
        let inner = match inner {
            None => {
                return Ok(None);
            },
            Some(c) => c,
        };
        let ghost rec = w.spec_record_at(self.row as int, self.col as int)->0;
        proof {
            assert(rec == *inner);
        }
        let raw = inner.as_raw_str();
        let ctype = match inner.cell_type() {
            Ok(ct) => ct,
            Err(e) => {
                return Err(e);
            },
        };
        proof {
            // Walk the classification table once in ghost code, so that the
            // category in hand pins down the outcome the specification
            // assigns to this record.
            if rec.t is None && rec.v is None {
                assert(ctype == CellType::Empty);
            } else if rec.t is None && rec.s is None {
                assert(ctype == CellType::Raw);
            } else if rec.t is None {
                assert(ctype == CellType::Styled(rec.s->0));
            } else if rec.t->0@ == "s"@ {
                assert(rec.v is Some);
                let vt = rec.v->0;
                assert(spec_shared_index(vt@) is Some);
                let idx0 = spec_shared_index(vt@)->0;
                crate::worksheet::lemma_shared_index_bounds(vt@);
                assert(ctype == CellType::Shared(idx0 as usize));
                assert((idx0 as usize) as int == idx0);
            } else if rec.t->0@ == "n"@ {
                if rec.s is None {
                    assert(ctype == CellType::Number);
                } else {
                    assert(ctype == CellType::StyledNumber(rec.s->0));
                }
            } else if rec.t->0@ == "inlineStr"@ {
                assert(ctype == CellType::Raw);
            } else {
                assert(false);
            }
        }
        match ctype {
            CellType::Empty => Ok(Some(CellValue::Null)),
            CellType::Raw => Ok(Some(CellValue::Text(raw.to_owned()))),
            CellType::Number => Ok(Some(CellValue::Text(raw.to_owned()))),
            CellType::Shared(idx) => match self.sheet.get_shared_string(idx) {
                Some(s) => Ok(Some(CellValue::Text(s))),
                None => Err(SheetError::SharedStringOutOfRange),
            },
            CellType::Styled(sid) => match self.sheet.to_cell_value(raw, sid) {
                Ok(v) => Ok(Some(v)),
                Err(e) => Err(SheetError::DateTimeParseError),
            },
            CellType::StyledNumber(sid) => match self.sheet.to_cell_value(raw, sid) {
                Ok(v) => Ok(Some(v)),
                Err(e) => Err(SheetError::DateTimeParseError),
            },
        }
    }
}

/// Resolution is idempotent: the outcome of a cell is a function of the
/// worksheet handle and the position alone, and resolving borrows the
/// handle immutably, so two resolutions of the same cell read as the same
/// outcome — equal values, or the same failure.
pub proof fn lemma_resolution_idempotent<'a>(
    w: Worksheet<'a>,
    row: usize,
    col: usize,
    r1: Result<Option<CellValue>, SheetError>,
    r2: Result<Option<CellValue>, SheetError>,
)
    requires
        outcome_matches(r1, spec_cell_value(w, row as int, col as int)),
        outcome_matches(r2, spec_cell_value(w, row as int, col as int)),
    ensures
        r1 is Ok <==> r2 is Ok,
        r1 matches Ok(v1) ==> (r2 matches Ok(v2) && (v1 is Some <==> v2 is Some)),
        r1 matches Ok(Some(v1)) ==> (r2 matches Ok(Some(v2)) && v1@ == v2@),
        r1 matches Err(e1) ==> (r2 matches Err(e2) && (e1 == e2 || (e1 matches
        SheetError::UnsupportedCellType(m1) && e2 matches SheetError::UnsupportedCellType(m2)
            && m1@ == m2@))),
{
}

/// A workbook handle: the worksheet handles of the document, in workbook
/// order.
#[derive(Debug, Clone)]
pub struct Workbook<'a> {
    pub worksheets: Vec<Worksheet<'a>>,
}

impl<'a> Workbook<'a> {
    /// Builds the worksheet handles of a parsed document: each declared
    /// sheet resolves through its relationship id to its worksheet part,
    /// and borrows the shared-string and style tables. The build succeeds
    /// exactly when every sheet resolves; the first sheet that does not
    /// determines the error.
    pub fn new(parts: &'a SpreadsheetParts) -> (r: Result<Workbook<'a>, SheetError>)
        ensures
            r is Ok <==> parts.sheets_resolvable(),
            r matches Ok(wb) ==> wb.worksheets@.len() == parts.workbook.sheets.sheets@.len() && (
            forall|i: int|
                0 <= i < wb.worksheets@.len() ==> {
                    let ws = #[trigger] wb.worksheets@[i];
                    &&& ws.name@ == parts.workbook.sheets.sheets@[i].name@
                    &&& ws.sheet_id == parts.workbook.sheets.sheets@[i].sheet_id
                    &&& parts.spec_resolve_sheet(i) == Ok::<WorksheetPart, SheetError>(*ws.part)
                    &&& *ws.shared_strings == parts.shared_strings
                    &&& *ws.styles == parts.styles
                }),
            r matches Err(e) ==> (exists|i: int|
                0 <= i < parts.workbook.sheets.sheets@.len() && #[trigger] parts.spec_resolve_sheet(
                    i,
                ) == Err::<WorksheetPart, SheetError>(e)),
    {
        let n = parts.workbook.sheets.sheets.len();
        let mut worksheets: Vec<Worksheet<'a>> = Vec::new();
        let mut i: usize = 0;
        while i < n
            invariant
                i <= n,
                n == parts.workbook.sheets.sheets@.len(),
                worksheets@.len() == i,
                forall|k: int| 0 <= k < i ==> #[trigger] parts.spec_resolve_sheet(k) is Ok,
                forall|k: int|
                    0 <= k < i ==> {
                        let ws = #[trigger] worksheets@[k];
                        &&& ws.name@ == parts.workbook.sheets.sheets@[k].name@
                        &&& ws.sheet_id == parts.workbook.sheets.sheets@[k].sheet_id
                        &&& parts.spec_resolve_sheet(k) == Ok::<WorksheetPart, SheetError>(
                            *ws.part,
                        )
                        &&& *ws.shared_strings == parts.shared_strings
                        &&& *ws.styles == parts.styles
                    },
            decreases n - i,
        {
            let sheet = &parts.workbook.sheets.sheets[i];
            let rel = match parts.relationships.get_relationship_by_id(sheet.r_id.as_str()) {
                Some(rel) => rel,
                None => {
                    proof {
                        assert(parts.spec_resolve_sheet(i as int) == Err::<
                            WorksheetPart,
                            SheetError,
                        >(SheetError::RelationshipMissing));
                    }
                    return Err(SheetError::RelationshipMissing);
                },
            };
            let part = match parts.get_worksheet_part(rel.target.as_str()) {
                Some(p) => p,
                None => {
                    proof {
                        assert(parts.spec_resolve_sheet(i as int) == Err::<
                            WorksheetPart,
                            SheetError,
                        >(SheetError::PartNotFound));
                    }
                    return Err(SheetError::PartNotFound);
                },
            };
            let ws = Worksheet {
                name: sheet.name.clone(),
                sheet_id: sheet.sheet_id,
                part,
                shared_strings: &parts.shared_strings,
                styles: &parts.styles,
            };
            worksheets.push(ws);
            i = i + 1;
        }
        Ok(Workbook { worksheets })
    }

    /// The names of the worksheets, in order.
    pub fn worksheet_names(&self) -> (r: Vec<String>)
        ensures
            r@.len() == self.worksheets@.len(),
            forall|i: int| 0 <= i < r@.len() ==> #[trigger] r@[i]@ == self.worksheets@[i].name@,
    {
        let n = self.worksheets.len();
        let mut r: Vec<String> = Vec::new();
        let mut i: usize = 0;
        while i < n
            invariant
                i <= n,
                n == self.worksheets@.len(),
                r@.len() == i,
                forall|k: int| 0 <= k < i ==> #[trigger] r@[k]@ == self.worksheets@[k].name@,
            decreases n - i,
        {
            r.push(self.worksheets[i].name.clone());
            i = i + 1;
        }
        r
    }

    /// The worksheet handles.
    pub fn worksheets(&self) -> (r: &[Worksheet<'a>])
        ensures
            r@ == self.worksheets@,
    {
        self.worksheets.as_slice()
    }
}

/// An opened spreadsheet document: its parsed parts and its kind. The
/// workbook handle is built on demand over the borrowed tables.
#[derive(Debug, Clone)]
pub struct SpreadsheetDocument {
    pub parts: SpreadsheetParts,
    pub document_type: SpreadsheetDocumentType,
}

impl SpreadsheetDocument {
    /// Assembles a document over fully parsed parts; fails exactly where
    /// some declared sheet does not resolve to a worksheet part.
    pub fn new(parts: SpreadsheetParts, document_type: SpreadsheetDocumentType) -> (r: Result<
        SpreadsheetDocument,
        SheetError,
    >)
        ensures
            r is Ok <==> parts.sheets_resolvable(),
            r matches Ok(d) ==> d.parts == parts && d.document_type == document_type,
    {
        match Workbook::new(&parts) {
            Ok(_) => Ok(SpreadsheetDocument { parts, document_type }),
            Err(e) => Err(e),
        }
    }

    /// The workbook handle of the document, built over the document's
    /// tables exactly as [`Workbook::new`] builds it; it fails exactly
    /// where some declared sheet does not resolve.
    pub fn get_workbook(&self) -> (r: Result<Workbook<'_>, SheetError>)
        ensures
            r is Ok <==> self.parts.sheets_resolvable(),
            r matches Ok(wb) ==> wb.worksheets@.len()
                == self.parts.workbook.sheets.sheets@.len() && (forall|i: int|
                0 <= i < wb.worksheets@.len() ==> {
                    let ws = #[trigger] wb.worksheets@[i];
                    &&& ws.name@ == self.parts.workbook.sheets.sheets@[i].name@
                    &&& ws.sheet_id == self.parts.workbook.sheets.sheets@[i].sheet_id
                    &&& self.parts.spec_resolve_sheet(i) == Ok::<WorksheetPart, SheetError>(
                        *ws.part,
                    )
                    &&& *ws.shared_strings == self.parts.shared_strings
                    &&& *ws.styles == self.parts.styles
                }),
    {
        Workbook::new(&self.parts)
    }
}

} // verus!

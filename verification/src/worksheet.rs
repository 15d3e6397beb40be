//! The worksheet part: its declared dimension, its rows of raw cell
//! records, and the classification of one record into a [`CellType`].

use vstd::prelude::*;

use crate::cell::CellType;
use crate::chars::{all_digits, digits_val, is_digit_char, str_chars};
use crate::colref::{parse_dimension, spec_dimension};
use crate::error::SheetError;
use crate::numfmt::{lemma_run_len_eq, run_len};
use crate::serial::parse_digits_u64;

verus! {

/// Sheet-level properties.
#[derive(Debug, Clone, Default)]
pub struct SheetPr {}

/// The declared dimension of a worksheet: a range string such as
/// `"A1:C10"`.
#[derive(Debug, Clone, Default)]
pub struct Dimension {
    pub reference: String,
}

impl Dimension {
    /// The `(rows, cols)` the declared range spans, parsed exactly as
    /// [`spec_dimension`] describes; nothing for a malformed range.
    pub fn dimension(&self) -> (r: Option<(usize, usize)>)
        ensures
            r is Some <==> spec_dimension(self.reference@) is Some,
            r matches Some(p) ==> spec_dimension(self.reference@) == Some(
                (p.0 as int, p.1 as int),
            ),
    {
        parse_dimension(self.reference.as_str())
    }
}

/// One selection record of a sheet view.
#[derive(Debug, Clone, Default)]
pub struct Selection {
    pub active_cell: String,
    pub sqref: String,
}

/// One sheet view.
#[derive(Debug, Clone, Default)]
pub struct SheetView {
    pub tab_selected: Option<String>,
    pub workbook_view_id: Option<usize>,
    pub selection: Option<Selection>,
    pub show_formulas: Option<bool>,
    pub show_grid_lines: Option<bool>,
    pub show_row_col_headers: Option<bool>,
    pub show_zeros: Option<bool>,
    pub right_to_left: Option<bool>,
    pub show_outline_symbols: Option<bool>,
    pub default_grid_color: Option<String>,
    pub view: Option<String>,
    pub top_left_cell: Option<String>,
    pub color_id: Option<usize>,
    pub zoom_scale: Option<String>,
    pub zoom_scale_normal: Option<String>,
    pub zoom_scale_page_layout_view: Option<String>,
}

/// The sheet views of a worksheet.
#[derive(Debug, Clone, Default)]
pub struct SheetViews {
    pub sheet_view: SheetView,
}

/// One declared column header.
#[derive(Debug, Clone, Default)]
pub struct SheetColHeader {
    pub min: Option<usize>,
    pub max: Option<usize>,
    pub custom_width: Option<bool>,
}

/// The declared column headers.
#[derive(Debug, Clone, Default)]
pub struct SheetCols {
    pub cols: Option<Vec<SheetColHeader>>,
}

/// Inline text carried by a cell record.
#[derive(Debug, Clone, Default)]
pub struct SheetCellIs {
    pub t: Option<String>,
}

/// One raw cell record: its reference, optional type marker, optional
/// style id, optional inline text and optional value text.
#[derive(Debug, Clone, Default)]
pub struct SheetCol {
    pub r: String,
    pub t: Option<String>,
    pub s: Option<usize>,
    pub inline_str: Option<SheetCellIs>,
    pub v: Option<String>,
}

/// One row of raw cell records.
#[derive(Debug, Clone, Default)]
pub struct SheetRow {
    pub r: usize,
    pub custom_height: Option<bool>,
    pub spans: Option<String>,
    pub cols: Vec<SheetCol>,
}

/// The cell records of a worksheet, by row.
#[derive(Debug, Clone, Default)]
pub struct SheetData {
    pub rows: Option<Vec<SheetRow>>,
}

/// A header/footer record.
#[derive(Debug, Clone, Default)]
pub struct HeaderFooter {}

/// One worksheet part.
#[derive(Debug, Clone, Default)]
pub struct WorksheetPart {
    pub sheet_pr: Option<SheetPr>,
    pub dimension: Option<Dimension>,
    pub sheet_views: Option<SheetViews>,
    pub cols: Option<SheetCols>,
    pub sheet_data: Option<SheetData>,
    pub header_footer: Option<HeaderFooter>,
}

impl WorksheetPart {
    /// The `(rows, cols)` of the declared range, if one is declared and
    /// parses.
    pub open spec fn spec_declared_dimension(&self) -> Option<(int, int)> {
        match self.dimension {
            Some(d) => spec_dimension(d.reference@),
            None => None,
        }
    }

    /// The `(rows, cols)` counted from the stored rows and column headers,
    /// zero for a missing side, nothing when both are missing.
    pub open spec fn spec_real_dimension(&self) -> Option<(int, int)> {
        let cols = match self.cols {
            Some(c) => match c.cols {
                Some(v) => Some(v@.len() as int),
                None => None,
            },
            None => None,
        };
        let rows = match self.sheet_data {
            Some(sd) => match sd.rows {
                Some(v) => Some(v@.len() as int),
                None => None,
            },
            None => None,
        };
        match (cols, rows) {
            (Some(c), Some(r)) => Some((r, c)),
            (Some(c), None) => Some((0, c)),
            (None, Some(r)) => Some((r, 0)),
            (None, None) => None,
        }
    }

    /// The declared dimension, exactly
    /// [`WorksheetPart::spec_declared_dimension`].
    pub fn dimenstion(&self) -> (r: Option<(usize, usize)>)
        ensures
            r is Some <==> self.spec_declared_dimension() is Some,
            r matches Some(p) ==> self.spec_declared_dimension() == Some(
                (p.0 as int, p.1 as int),
            ),
    {
        match &self.dimension {
            Some(d) => d.dimension(),
            None => None,
        }
    }

    /// The dimension counted from the stored data, exactly
    /// [`WorksheetPart::spec_real_dimension`].
    pub fn real_dimenstion(&self) -> (r: Option<(usize, usize)>)
        ensures
            r is Some <==> self.spec_real_dimension() is Some,
            r matches Some(p) ==> self.spec_real_dimension() == Some((p.0 as int, p.1 as int)),
    {
        let cols_len: Option<usize> = match &self.cols {
            Some(c) => match &c.cols {
                Some(v) => Some(v.len()),
                None => None,
            },
            None => None,
        };
        let rows_len: Option<usize> = match &self.sheet_data {
            Some(sd) => match &sd.rows {
                Some(v) => Some(v.len()),
                None => None,
            },
            None => None,
        };
        match (rows_len, cols_len) {
            (Some(r), Some(c)) => Some((r, c)),
            (None, Some(c)) => Some((0, c)),
            (Some(r), None) => Some((r, 0)),
            (None, None) => None,
        }
    }
}

/// The shared-string index written in a cell's value text: an optional
/// `+`, then digits; at most 9 significant digits once leading zeros are
/// dropped, any more index than that could never be in range.
pub open spec fn spec_shared_index(s: Seq<char>) -> Option<int> {
    let b = if s.len() >= 1 && s[0] == '+' {
        s.skip(1)
    } else {
        s
    };
    if b.len() >= 1 && all_digits(b) {
        let stripped = b.skip(run_len(b, '0'));
        if stripped.len() > 9 {
            None
        } else {
            Some(digits_val(stripped))
        }
    } else {
        None
    }
}

/// The value text is a well-formed index, but with more than 9 significant
/// digits: it parses as a number, yet lies beyond any table this engine
/// can hold, so the lookup reports it as out of range rather than
/// malformed.
pub open spec fn spec_index_overlong(s: Seq<char>) -> bool {
    let b = if s.len() >= 1 && s[0] == '+' {
        s.skip(1)
    } else {
        s
    };
    b.len() >= 1 && all_digits(b) && b.skip(run_len(b, '0')).len() > 9
}

/// The shared-string index written in `v`: the parsed index, or the
/// failure the text warrants — out of range for an overlong number,
/// malformed for anything that is no number at all. Exactly
/// [`spec_shared_index`] and [`spec_index_overlong`].
fn parse_shared_index(v: &Vec<char>) -> (r: Result<usize, SheetError>)
    ensures
        r is Ok <==> spec_shared_index(v@) is Some,
        r matches Ok(x) ==> spec_shared_index(v@) == Some(x as int),
        r matches Err(e) ==> e == (if spec_index_overlong(v@) {
            SheetError::SharedStringOutOfRange
        } else {
            SheetError::MalformedSharedIndex
        }),
{
    let n = v.len();
    let start: usize = if n >= 1 && v[0] == '+' {
        1
    } else {
        0
    };
    let ghost b = if v@.len() >= 1 && v@[0] == '+' {
        v@.skip(1)
    } else {
        v@
    };
    proof {
        assert(b =~= v@.skip(start as int));
        assert(v@.skip(0) =~= v@);
    }
    if start == n {
        proof {
            assert(b.len() == 0);
        }
        return Err(SheetError::MalformedSharedIndex);
    }
    let mut i: usize = start;
    while i < n
        invariant
            start <= i <= n,
            n == v@.len(),
            b == v@.skip(start as int),
            v@.len() >= 1 && v@[0] == '+' ==> b == v@.skip(1) && start == 1,
            !(v@.len() >= 1 && v@[0] == '+') ==> b == v@ && start == 0,
            forall|k: int| start <= k < i ==> is_digit_char(#[trigger] v@[k]),
        decreases n - i,
    {
        let c = v[i];
        if c < '0' || c > '9' {
            proof {
                assert(b[i - start] == v@[i as int]);
                assert(!all_digits(b));
            }
            return Err(SheetError::MalformedSharedIndex);
        }
        i = i + 1;
    }
    proof {
        assert(forall|k: int| 0 <= k < b.len() ==> is_digit_char(#[trigger] b[k]));
    }
    // Strip leading zeros.
    let mut z: usize = start;
    while z < n && v[z] == '0'
        invariant
            start <= z <= n,
            n == v@.len(),
            b == v@.skip(start as int),
            v@.len() >= 1 && v@[0] == '+' ==> b == v@.skip(1) && start == 1,
            !(v@.len() >= 1 && v@[0] == '+') ==> b == v@ && start == 0,
            forall|k: int| start <= k < z ==> v@[k] == '0',
        decreases n - z,
    {
        z = z + 1;
    }
    proof {
        assert(forall|k: int| 0 <= k < z - start ==> b[k] == '0');
        if z < n {
            assert(b[z - start] == v@[z as int]);
        }
        lemma_run_len_eq(b, '0', (z - start) as int);
        assert(b.skip((z - start) as int) =~= v@.subrange(z as int, n as int));
    }
    if n - z > 9 {
        return Err(SheetError::SharedStringOutOfRange);
    }
    let val = parse_digits_u64(v, z, n);
    proof {
        crate::chars::lemma_pow10_mono((n - z) as int, 9);
        crate::chars::lemma_pow10_values();
    }
    Ok(val as usize)
}


/// A parsed shared-string index is at most nine digits' worth.
pub proof fn lemma_shared_index_bounds(s: Seq<char>)
    ensures
        spec_shared_index(s) matches Some(i) ==> 0 <= i <= 999999999,
{
    let b = if s.len() >= 1 && s[0] == '+' {
        s.skip(1)
    } else {
        s
    };
    if b.len() >= 1 && all_digits(b) {
        crate::numfmt::lemma_run_len_bounds(b, '0');
        let k = run_len(b, '0');
        let stripped = b.skip(k);
        if stripped.len() <= 9 {
            assert(forall|j: int|
                0 <= j < stripped.len() ==> is_digit_char(#[trigger] stripped[j]));
            crate::chars::lemma_digits_val_nonneg(stripped);
            crate::chars::lemma_pow10_mono(stripped.len() as int, 9);
            crate::chars::lemma_pow10_values();
            crate::chars::lemma_digits_val_bound(stripped, crate::chars::pow10(9));
        }
    }
}

impl SheetCol {
    /// The raw text of this record: the inline text where the record
    /// carries one, else the value text, else the empty string. An inline
    /// node that holds no text deliberately reads as the empty string, the
    /// same reading an absent shared-string text gets, so that a damaged
    /// inline cell degrades to empty text instead of aborting resolution.
    pub open spec fn spec_raw_str(&self) -> Seq<char> {
        match self.inline_str {
            Some(is_rec) => match is_rec.t {
                Some(t) => t@,
                None => Seq::empty(),
            },
            None => match self.v {
                Some(v) => v@,
                None => Seq::empty(),
            },
        }
    }

    /// The raw text of this record, exactly [`SheetCol::spec_raw_str`].
    pub fn as_raw_str(&self) -> (r: &str)
        ensures
            r@ == self.spec_raw_str(),
    {
        let empty = "";
        proof {
            reveal_strlit("");
            assert(empty@ =~= Seq::<char>::empty());
        }
        match &self.inline_str {
            Some(is_rec) => match &is_rec.t {
                Some(t) => t.as_str(),
                None => empty,
            },
            None => match &self.v {
                Some(v) => v.as_str(),
                None => empty,
            },
        }
    }

    /// The semantic category of this record, by the decision table: no
    /// marker and no value is empty; no marker with a value is raw, or
    /// styled under a style id; marker `s` reads the value as a
    /// shared-string index and fails as malformed when it cannot; marker
    /// `n` is a number, styled when a style id is present; marker
    /// `inlineStr` is raw; any other marker is unsupported. A shared index
    /// that is a well-formed number too long for any table fails as out of
    /// range rather than malformed.
    pub fn cell_type(&self) -> (r: Result<CellType, SheetError>)
        ensures
            self.t is None && self.v is None ==> r == Ok::<CellType, SheetError>(
                CellType::Empty,
            ),
            self.t is None && self.s is None && self.v is Some ==> r == Ok::<
                CellType,
                SheetError,
            >(CellType::Raw),
            self.t is None && self.v is Some && self.s is Some ==> r == Ok::<
                CellType,
                SheetError,
            >(CellType::Styled(self.s->0)),
            self.t is Some && self.t->0@ == "s"@ ==> (match self.v {
                Some(vt) => match spec_shared_index(vt@) {
                    Some(idx) => r == Ok::<CellType, SheetError>(CellType::Shared(idx as usize)),
                    None => r == Err::<CellType, SheetError>(
                        if spec_index_overlong(vt@) {
                            SheetError::SharedStringOutOfRange
                        } else {
                            SheetError::MalformedSharedIndex
                        },
                    ),
                },
                None => r == Err::<CellType, SheetError>(SheetError::MalformedSharedIndex),
            }),
            self.t is Some && self.t->0@ != "s"@ && self.t->0@ == "n"@ && self.s is None ==> r
                == Ok::<CellType, SheetError>(CellType::Number),
            self.t is Some && self.t->0@ != "s"@ && self.t->0@ == "n"@ && self.s is Some ==> r
                == Ok::<CellType, SheetError>(CellType::StyledNumber(self.s->0)),
            self.t is Some && self.t->0@ != "s"@ && self.t->0@ != "n"@ && self.t->0@
                == "inlineStr"@ ==> r == Ok::<CellType, SheetError>(CellType::Raw),
            self.t is Some && self.t->0@ != "s"@ && self.t->0@ != "n"@ && self.t->0@
                != "inlineStr"@ ==> (r matches Err(e) && e matches
            SheetError::UnsupportedCellType(m) && m@ == self.t->0@),
    {
        if self.t.is_none() && self.v.is_none() {
            return Ok(CellType::Empty);
        }
        match (&self.t, &self.s) {
            (None, None) => Ok(CellType::Raw),
            (None, Some(sid)) => Ok(CellType::Styled(*sid)),
            (Some(t), sopt) => {
                if crate::chars::str_eq(t.as_str(), "s") {
                    match &self.v {
                        Some(vt) => {
                            let vc = str_chars(vt.as_str());
                            match parse_shared_index(&vc) {
                                Ok(idx) => Ok(CellType::Shared(idx)),
                                Err(e) => Err(e),
                            }
                        },
                        None => Err(SheetError::MalformedSharedIndex),
                    }
                } else if crate::chars::str_eq(t.as_str(), "n") {
                    match sopt {
                        None => Ok(CellType::Number),
                        Some(sid) => Ok(CellType::StyledNumber(*sid)),
                    }
                } else if crate::chars::str_eq(t.as_str(), "inlineStr") {
                    Ok(CellType::Raw)
                } else {
                    Err(SheetError::UnsupportedCellType(t.clone()))
                }
            },
        }
    }
}


} // verus!

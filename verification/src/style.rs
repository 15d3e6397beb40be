//! The style table: cell-format records (`Xf`) indexed by position, and
//! number-format entries matched by declared id.
//!
//! Only the number-format id of a format record takes part in value
//! resolution. A style id selects a format record positionally; its
//! number-format id then selects a declared number format by matching id —
//! not by position, since custom format ids need not be contiguous. A
//! missing record at any step means "no format metadata" and is never an
//! error.

use vstd::prelude::*;

verus! {

/// One declared number format: its id and its format code.
#[derive(Debug, Clone, Default)]
pub struct NumberFormat {
    pub id: usize,
    pub code: String,
}

/// The declared number formats.
#[derive(Debug, Clone, Default)]
pub struct NumberFormats {
    pub num_fmt: Option<Vec<NumberFormat>>,
}

/// One cell-format record.
#[derive(Debug, Clone, Default)]
pub struct Xf {
    pub num_fmt_id: usize,
    pub font_id: usize,
    pub fill_id: usize,
    pub border_id: usize,
    pub apply_number_format: Option<bool>,
    pub apply_fill: Option<bool>,
    pub apply_alignment: Option<bool>,
    pub apply_protection: Option<bool>,
    pub alignment: Option<Alignment>,
}

/// Alignment attributes of a format record.
#[derive(Debug, Clone, Default)]
pub struct Alignment {
    pub vertical: Option<String>,
}

/// The master format records.
#[derive(Debug, Clone, Default)]
pub struct CellStyleXfs {
    pub count: usize,
    pub xf: Vec<Xf>,
}

/// The cell format records, selected by style id.
#[derive(Debug, Clone, Default)]
pub struct CellXfs {
    pub count: usize,
    pub xf: Vec<Xf>,
}

/// One named cell style.
#[derive(Debug, Clone, Default)]
pub struct CellStyle {
    pub name: String,
    pub xf_id: usize,
    pub builtin_id: usize,
}

/// The named cell styles.
#[derive(Debug, Clone, Default)]
pub struct CellStylesPart {
    pub count: usize,
    pub cell_style: Vec<CellStyle>,
}

/// A font name record.
#[derive(Debug, Clone, Default)]
pub struct FontName {
    pub val: String,
}

/// A font charset record.
#[derive(Debug, Clone, Default)]
pub struct FontCharset {
    pub val: String,
}

/// A font scheme record.
#[derive(Debug, Clone, Default)]
pub struct FontScheme {
    pub val: String,
}

/// A font colour record.
#[derive(Debug, Clone, Default)]
pub struct FontColor {
    pub theme: Option<usize>,
    pub rbg: Option<String>,
}

/// A bold marker.
#[derive(Debug, Clone, Default)]
pub struct FontBlack;

/// One font record; visual attributes are out of the resolution engine's
/// scope.
#[derive(Debug, Clone, Default)]
pub struct Font {
    pub black: Option<FontBlack>,
    pub color: Option<FontColor>,
    pub name: String,
    pub charset: Option<String>,
    pub scheme: Option<String>,
}

/// The font records.
#[derive(Debug, Clone, Default)]
pub struct Fonts {
    pub fonts: Vec<Font>,
}

/// The style table of one document.
#[derive(Debug, Clone, Default)]
pub struct StylesPart {
    pub num_fmts: Option<NumberFormats>,
    pub fonts: Option<Fonts>,
    pub cell_style_xfs: Option<CellStyleXfs>,
    pub cell_xfs: Option<CellXfs>,
    pub cell_styles: Option<CellStylesPart>,
}

/// Position of the first number format at or past `i` declared with `id`.
pub open spec fn find_fmt(s: Seq<NumberFormat>, id: int, i: int) -> Option<int>
    decreases s.len() - i,
{
    if i < 0 || i >= s.len() {
        None
    } else if s[i].id == id {
        Some(i)
    } else {
        find_fmt(s, id, i + 1)
    }
}

impl StylesPart {
    /// The named style at position `id`, if any.
    pub open spec fn spec_cell_style(&self, id: int) -> Option<CellStyle> {
        match self.cell_styles {
            Some(cs) => if 0 <= id < cs.cell_style@.len() {
                Some(cs.cell_style@[id])
            } else {
                None
            },
            None => None,
        }
    }

    /// The format record at position `id`, if any.
    pub open spec fn spec_cell_xf(&self, id: int) -> Option<Xf> {
        match self.cell_xfs {
            Some(xfs) => if 0 <= id < xfs.xf@.len() {
                Some(xfs.xf@[id])
            } else {
                None
            },
            None => None,
        }
    }

    /// The first number format declared with `id`, if any.
    pub open spec fn spec_number_format(&self, id: int) -> Option<NumberFormat> {
        match self.num_fmts {
            Some(nf) => match nf.num_fmt {
                Some(v) => match find_fmt(v@, id, 0) {
                    Some(i) => Some(v@[i]),
                    None => None,
                },
                None => None,
            },
            None => None,
        }
    }

    /// The format code a style id resolves to, through the format record
    /// and the declared number formats; nothing at any missing step.
    pub open spec fn spec_format_code(&self, style_id: int) -> Option<Seq<char>> {
        match self.spec_cell_xf(style_id) {
            None => None,
            Some(xf) => match self.spec_number_format(xf.num_fmt_id as int) {
                None => None,
                Some(nf) => Some(nf.code@),
            },
        }
    }

    /// The named style at position `id`, exactly
    /// [`StylesPart::spec_cell_style`].
    pub fn get_cell_style(&self, id: usize) -> (r: Option<&CellStyle>)
        ensures
            r is Some <==> self.spec_cell_style(id as int) is Some,
            r matches Some(cs) ==> self.spec_cell_style(id as int) == Some(*cs),
    {
        match &self.cell_styles {
            Some(cs) => {
                if id < cs.cell_style.len() {
                    Some(&cs.cell_style[id])
                } else {
                    None
                }
            },
            None => None,
        }
    }

    /// The named style at `id` paired with the table it came from.
    pub fn get_cell_style_component(&self, id: usize) -> (r: Option<CellStyleComponent<'_>>)
        ensures
            r is Some <==> self.spec_cell_style(id as int) is Some,
            r matches Some(c) ==> self.spec_cell_style(id as int) == Some(*c.cell_style)
                && *c.styles == *self,
    {
        let cell_style = self.get_cell_style(id);
        match cell_style {
            Some(cell_style) => Some(CellStyleComponent { styles: self, cell_style }),
            None => None,
        }
    }

    /// The format record at `id` paired with the table it came from.
    pub fn get_cell_format_component(&self, id: usize) -> (r: Option<CellFormatComponent<'_>>)
        ensures
            r is Some <==> self.spec_cell_xf(id as int) is Some,
            r matches Some(c) ==> self.spec_cell_xf(id as int) == Some(*c.xf) && *c.styles
                == *self,
    {
        let xf = self.get_cell_xf(id);
        match xf {
            Some(xf) => Some(CellFormatComponent { styles: self, xf }),
            None => None,
        }
    }

    /// The format record at position `id`, exactly
    /// [`StylesPart::spec_cell_xf`].
    pub fn get_cell_xf(&self, id: usize) -> (r: Option<&Xf>)
        ensures
            r is Some <==> self.spec_cell_xf(id as int) is Some,
            r matches Some(xf) ==> self.spec_cell_xf(id as int) == Some(*xf),
    {
        match &self.cell_xfs {
            Some(xfs) => {
                if id < xfs.xf.len() {
                    Some(&xfs.xf[id])
                } else {
                    None
                }
            },
            None => None,
        }
    }

    /// The first number format declared with `id`, exactly
    /// [`StylesPart::spec_number_format`].
    pub fn get_number_format(&self, id: usize) -> (r: Option<&NumberFormat>)
        ensures
            r is Some <==> self.spec_number_format(id as int) is Some,
            r matches Some(nf) ==> self.spec_number_format(id as int) == Some(*nf),
    {
        match &self.num_fmts {
            Some(nf) => match &nf.num_fmt {
                Some(v) => {
                    let n = v.len();
                    let mut i: usize = 0;
                    while i < n
                        invariant
                            i <= n,
                            n == v@.len(),
                            self.num_fmts matches Some(nfs) && nfs.num_fmt matches Some(vv)
                                && vv@ == v@,
                            find_fmt(v@, id as int, 0) == find_fmt(v@, id as int, i as int),
                        decreases n - i,
                    {
                        if v[i].id == id {
                            proof {
                                assert(find_fmt(v@, id as int, i as int) == Some(i as int));
                            }
                            return Some(&v[i]);
                        }
                        i = i + 1;
                    }
                    None
                },
                None => None,
            },
            None => None,
        }
    }
}

/// A format record together with the style table it belongs to.
#[derive(Debug)]
pub struct CellFormatComponent<'a> {
    pub styles: &'a StylesPart,
    pub xf: &'a Xf,
}

/// A named style together with the style table it belongs to.
#[derive(Debug)]
pub struct CellStyleComponent<'a> {
    pub styles: &'a StylesPart,
    pub cell_style: &'a CellStyle,
}

impl<'a> CellFormatComponent<'a> {
    /// The number format this record's format id resolves to.
    pub fn number_format(&self) -> (r: Option<&NumberFormat>)
        ensures
            r is Some <==> self.styles.spec_number_format(self.xf.num_fmt_id as int) is Some,
            r matches Some(nf) ==> self.styles.spec_number_format(self.xf.num_fmt_id as int)
                == Some(*nf),
    {
        self.styles.get_number_format(self.xf.num_fmt_id)
    }
}


} // verus!

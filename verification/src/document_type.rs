//! The kinds of spreadsheet document a package can hold.

use vstd::prelude::*;

verus! {

/// Kind of a spreadsheet package, by its file flavour.
#[derive(Debug, Clone, Copy, PartialEq, Eq, Structural)]
pub enum SpreadsheetDocumentType {
    /// An ordinary workbook.
    Workbook,
    /// A workbook template.
    Template,
    /// A macro-enabled workbook.
    MacroEnabledWorkbook,
    /// A macro-enabled template.
    MacroEnabledTemplate,
    /// An add-in.
    AddIn,
}

impl Default for SpreadsheetDocumentType {
    /// An unspecified document reads as an ordinary workbook.
    fn default() -> (r: Self)
        ensures
            r == SpreadsheetDocumentType::Workbook,
    {
        SpreadsheetDocumentType::Workbook
    }
}

} // verus!

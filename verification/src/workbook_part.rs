//! The workbook part: the list of sheets a document declares, with their
//! names and relationship ids, and the surrounding bookkeeping records.

use vstd::prelude::*;

verus! {

/// Version stamps of the application that last wrote the document.
#[derive(Debug, Clone, Default)]
pub struct FileVersion {
    pub app_name: Option<String>,
    pub last_edited: Option<usize>,
    pub lowest_edited: Option<usize>,
    pub run_build: Option<String>,
}

/// Window placement of the workbook view.
#[derive(Debug, Clone, Default)]
pub struct WorkbookView {
    pub window_width: Option<usize>,
    pub window_height: Option<usize>,
    pub active_tab: Option<usize>,
}

/// The workbook's view records.
#[derive(Debug, Clone, Default)]
pub struct BookViews {
    pub workbook_view: WorkbookView,
}

/// Workbook-wide properties.
#[derive(Debug, Clone, Default)]
pub struct WorkbookPr {
    pub date1904: Option<bool>,
}

/// One declared sheet: its display name, numeric id, and the relationship
/// id its part is reached through.
#[derive(Debug, Clone, Default)]
pub struct Sheet {
    pub name: String,
    pub sheet_id: usize,
    pub r_id: String,
}

/// The declared sheets, in workbook order.
#[derive(Debug, Clone, Default)]
pub struct Sheets {
    pub sheets: Vec<Sheet>,
}

/// Calculation properties.
#[derive(Debug, Clone, Default)]
pub struct CalcPr {
    pub calc_id: Option<String>,
}

/// The workbook part of a document.
#[derive(Debug, Clone, Default)]
pub struct WorkbookPart {
    pub file_version: Option<FileVersion>,
    pub book_views: BookViews,
    pub workbook_pr: WorkbookPr,
    pub sheets: Sheets,
    pub calc_pr: Option<CalcPr>,
}

impl WorkbookPart {
    /// The declared sheet names, in order.
    pub fn sheet_names(&self) -> (r: Vec<&str>)
        ensures
            r@.len() == self.sheets.sheets@.len(),
            forall|i: int|
                0 <= i < r@.len() ==> #[trigger] r@[i]@ == self.sheets.sheets@[i].name@,
    {
        let n = self.sheets.sheets.len();
        let mut r: Vec<&str> = Vec::new();
        let mut i: usize = 0;
        while i < n
            invariant
                i <= n,
                n == self.sheets.sheets@.len(),
                r@.len() == i,
                forall|k: int|
                    0 <= k < i ==> #[trigger] r@[k]@ == self.sheets.sheets@[k].name@,
            decreases n - i,
        {
            r.push(self.sheets.sheets[i].name.as_str());
            i = i + 1;
        }
        r
    }
}

} // verus!

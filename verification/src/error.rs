//! Error taxonomy of the decoding engine.
//!
//! Structural failures (a damaged package, a missing mandatory part) abort
//! opening a document; per-cell failures are reported for the affected cell
//! only, so that the rest of a worksheet still resolves.

use vstd::prelude::*;

verus! {

/// Everything that can go wrong while opening a package or resolving a cell.
#[derive(Debug, Clone, PartialEq, Eq)]
pub enum SheetError {
    /// The archive is unreadable or lacks mandatory parts.
    PackageError,
    /// A referenced worksheet or relationship target is absent.
    PartNotFound,
    /// A sheet references a relationship id that was never declared.
    RelationshipMissing,
    /// A shared-string cell whose value does not parse as an index.
    MalformedSharedIndex,
    /// A shared-string index outside the table.
    SharedStringOutOfRange,
    /// A cell type marker the engine does not recognise.
    UnsupportedCellType(String),
    /// A serial date value that cannot be parsed or lies out of range.
    DateTimeParseError,
    /// A value variant with no defined textual rendering.
    UnrenderableValue,
}

} // verus!

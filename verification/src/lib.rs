//! Decoding of spreadsheet-document packages into typed, addressable cell
//! values.
//!
//! The heart of the crate is the cell value resolution engine: given a raw
//! cell record together with the style and shared-string tables of its
//! workbook, it determines the cell's semantic type and produces a typed
//! value, translating locale-style number-format codes into calendar
//! timestamps where the format calls for it.

pub mod cell;
pub mod chars;
pub mod colref;
pub mod decode;
pub mod document;
pub mod document_type;
pub mod error;
pub mod numfmt;
pub mod part;
pub mod properties;
pub mod relationship;
pub mod serial;
pub mod shared_string;
pub mod style;
pub mod workbook_part;
pub mod worksheet;

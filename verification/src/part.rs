//! One named part of a package: its path, its content type, and its raw
//! bytes as read from the archive.

use vstd::prelude::*;

verus! {

/// A part of the package, held as plain bytes.
#[derive(Debug, Clone, Default)]
pub struct OpenXmlPart {
    pub uri: String,
    pub content_type: Option<String>,
    pub raw: Vec<u8>,
}

impl OpenXmlPart {
    /// A part with the given path and bytes.
    pub fn new(uri: String, raw: Vec<u8>) -> (r: Self)
        ensures
            r.uri == uri,
            r.raw == raw,
            r.content_type is None,
    {
        OpenXmlPart { uri, content_type: None, raw }
    }

    /// The raw bytes of the part.
    pub fn as_part_bytes(&self) -> (r: &[u8])
        ensures
            r@ == self.raw@,
    {
        self.raw.as_slice()
    }
}

} // verus!

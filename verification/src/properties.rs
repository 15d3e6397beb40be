//! Document property records: core properties, custom properties and the
//! typed variant values they carry.

use vstd::prelude::*;

verus! {

/// A typed property value.
#[derive(Debug)]
pub enum Variant {
    /// A vector of values with a declared base type.
    VtVector { size: usize, base_type: String, variants: Vec<Variant> },
    /// A wrapped value.
    VtVariant { value: Box<Variant> },
    /// No value.
    VtNull,
    VtI1(i8),
    VtI2(i8),
    VtI4(i8),
    VtI8(i8),
    VtLpstr(String),
    VtLpwstr(String),
}

impl Default for Variant {
    /// An absent property value reads as null.
    fn default() -> (r: Self)
        ensures
            r == Variant::VtNull,
    {
        Variant::VtNull
    }
}

/// The document's core properties.
#[derive(Debug, Clone, Default)]
pub struct Properties {
    pub category: Option<String>,
    pub content_status: Option<String>,
    pub content_type: Option<String>,
    pub created: Option<String>,
    pub creator: Option<String>,
    pub description: Option<String>,
    pub identifier: Option<String>,
    pub keywords: Option<String>,
    pub language: Option<String>,
    pub modified: Option<String>,
    pub last_modified_by: Option<String>,
    pub last_printed: Option<String>,
    pub revision: Option<String>,
    pub subject: Option<String>,
    pub title: Option<String>,
    pub version: Option<String>,
}

/// One custom property.
#[derive(Debug, Default)]
pub struct CustomProperty {
    pub fmtid: String,
    pub pid: String,
    pub name: String,
    pub value: Variant,
}

/// The document's custom properties.
#[derive(Debug, Default)]
pub struct CustomProperties {
    pub properties: Vec<CustomProperty>,
}

/// The writing application's name.
#[derive(Debug, Clone)]
pub struct Application(pub String);

/// Heading pairs of the extended properties.
#[derive(Debug)]
pub struct HeadingPairs {
    pub variant: Variant,
}

/// Titles of the document's parts.
#[derive(Debug)]
pub struct TitlesOfParts {
    pub value: Variant,
}

/// The extended application properties.
#[derive(Debug, Default)]
pub struct AppProperties {
    pub application: Option<Application>,
    pub heading_pairs: Option<HeadingPairs>,
    pub titles_of_parts: Option<TitlesOfParts>,
    pub lines: Option<String>,
    pub links_up_to_date: Option<String>,
    pub local_name: Option<String>,
    pub company: Option<String>,
    pub template: Option<String>,
    pub manager: Option<String>,
    pub pages: Option<String>,
}

} // verus!

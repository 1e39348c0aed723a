//! Documents as a loader hands them over.

use vstd::prelude::*;

verus! {

/// The metadata key under which a document's extension is kept.
pub const EXTENSION_METADATA: &'static str = "__extension__";

/// The extension of a document that names none.
pub const DEFAULT_EXTENSION: &'static str = "txt";

/// A document with its path, its text and its metadata, as `(key, value)`
/// pairs.
#[derive(Debug)]
pub struct LoadedDocument {
    pub path: String,
    pub contents: String,
    pub metadata: Vec<(String, String)>,
}

impl LoadedDocument {
    /// A document made of the given parts.
    pub fn new(path: String, contents: String, metadata: Vec<(String, String)>) -> (document:
        LoadedDocument)
        ensures
            document.path == path,
            document.contents == contents,
            document.metadata == metadata,
    {
        LoadedDocument { path, contents, metadata }
    }
}

} // verus!

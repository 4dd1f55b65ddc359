//! The failures that stop the processing of a chapter.

use vstd::prelude::*;

verus! {

/// A fatal failure. A reference to an unknown key is not one of these: it
/// is reported as a [`crate::substitute::Diagnostic`] and processing goes on.
#[derive(Debug, PartialEq, Eq)]
pub enum HintError {
    /// The Markdown compiler rejected the body of the hint with this key.
    Render { key: String },
    /// The rendered cache could not be serialized.
    Io,
    /// The regex engine rejected the pattern that describes a reference.
    Pattern,
}

} // verus!

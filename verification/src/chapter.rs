//! One chapter against the catalog: the cache to write, the chapter's new
//! text, and what to tell the operator.

use vstd::prelude::*;

use crate::cache::{fails_first_at, json_object, output_json, rendered, renders};
use crate::catalog::HintCatalog;
use crate::error::HintError;
use crate::reference::{regex_accepts, REFERENCE_PATTERN};
use crate::substitute::{diagnostics_of, render_hints, substituted, Diagnostic, DiagnosticView};

verus! {

/// What the work on one chapter gives.
#[derive(Debug)]
pub struct ChapterOutput {
    /// The chapter's text with its references replaced.
    pub content: String,
    /// One diagnostic for each reference to a key that is not escaped and
    /// has no entry, in the order of the references.
    pub diagnostics: Vec<Diagnostic>,
    /// The JSON text of the rendered hints.
    pub cache_json: String,
}

impl ChapterOutput {
    /// What the diagnostics hold.
    pub open spec fn diagnostics_view(&self) -> Seq<DiagnosticView> {
        self.diagnostics@.map_values(|diagnostic: Diagnostic| diagnostic@)
    }
}

/// Renders the catalog to the text of its cache, then rewrites the
/// references of `content`. The first failure ends the work: a hint
/// without a fragment, then a cache that cannot be serialized, then a
/// pattern that the regex engine refuses.
pub fn handle_chapter(content: &str, document_path: &str, hints: &HintCatalog) -> (out: Result<
    ChapterOutput,
    HintError,
>)
    requires
        hints.wf(),
    ensures
        match out {
            Ok(output) => {
                &&& renders(hints@)
                &&& json_object(rendered(hints@)) == Some(output.cache_json@)
                &&& regex_accepts(REFERENCE_PATTERN@)
                &&& output.content@ == substituted(content@, hints@)
                &&& output.diagnostics_view() == diagnostics_of(
                    content@,
                    document_path@,
                    hints@,
                )
            },
            Err(HintError::Render { key }) => exists|index: int| #[trigger]
                fails_first_at(hints@, hints.ordered_keys(), index) && key@
                    == hints.ordered_keys()[index],
            Err(HintError::Io) => renders(hints@) && json_object(rendered(hints@)) is None,
            Err(HintError::Pattern) => {
                &&& renders(hints@)
                &&& json_object(rendered(hints@)) is Some
                &&& !regex_accepts(REFERENCE_PATTERN@)
            },
        },
{
    let cache_json = match output_json(hints) {
        Ok(json) => json,
        Err(error) => {
            return Err(error);
        },
    };
    match render_hints(content, document_path, hints) {
        Ok(rewritten) => Ok(
            ChapterOutput {
                content: rewritten.content,
                diagnostics: rewritten.diagnostics,
                cache_json,
            },
        ),
        Err(error) => Err(error),
    }
}

} // verus!

//! Tooltip hints for book chapters.
//!
//! Authors write `[label](~key)` in a chapter; the key names an entry of a
//! catalog of hints. This crate rewrites such references into markup that
//! carries the key, reports references to unknown keys, and renders the
//! catalog into the key-to-fragment cache that the page's script reads.

pub mod cache;
pub mod catalog;
pub mod chapter;
pub mod error;
pub mod preprocessor;
pub mod reference;
pub mod render;
pub mod substitute;

pub use cache::{output_json, RenderedHintCache};
pub use catalog::{HintCatalog, HintEntry};
pub use chapter::{handle_chapter, ChapterOutput};
pub use error::HintError;
pub use preprocessor::HintPreprocessor;
pub use reference::{Reference, ReferencePattern, REFERENCE_PATTERN};
pub use render::{render_hint, strip_paragraph};
pub use substitute::{
    render_hints, render_manual, resolve_reference, substitute, Diagnostic, Rewritten,
};

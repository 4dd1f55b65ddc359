//! Rewriting the references of a chapter.
//!
//! Each reference is resolved by itself against the catalog; the chapter is
//! scanned once from the left, and what a reference is replaced with is not
//! scanned again.

use vstd::prelude::*;
use vstd::string::*;

use crate::catalog::{HintCatalog, HintEntryView};
use crate::error::HintError;
use crate::reference::{
    after, first_reference, has_reference, is_first_reference, key_at, label_at,
    lemma_first_reference, regex_accepts, ReferencePattern, Span, REFERENCE_PATTERN,
};

verus! {

/// A reference to a key that is not escaped and that the catalog does not
/// hold.
#[derive(Debug, PartialEq, Eq)]
pub struct Diagnostic {
    /// The key as the reference names it.
    pub key: String,
    /// The chapter in which the reference stands.
    pub document_path: String,
}

/// What a [`Diagnostic`] holds.
pub struct DiagnosticView {
    pub key: Seq<char>,
    pub document_path: Seq<char>,
}

impl View for Diagnostic {
    type V = DiagnosticView;

    open spec fn view(&self) -> DiagnosticView {
        DiagnosticView { key: self.key@, document_path: self.document_path@ }
    }
}

/// The line that tells an operator of a missing hint.
pub open spec fn missing_hint_message(key: Seq<char>, document_path: Seq<char>) -> Seq<char> {
    "-----\nHint for `"@ + key + "` ("@ + document_path
        + ") is missing in hints.toml!\n-----"@
}

impl Diagnostic {
    /// The text to log for this diagnostic.
    pub fn message(&self) -> (text: String)
        ensures
            text@ == missing_hint_message(self.key@, self.document_path@),
    {
        let mut text = String::from_str("-----\nHint for `");
        text.append(self.key.as_str());
        text.append("` (");
        text.append(self.document_path.as_str());
        text.append(") is missing in hints.toml!\n-----");
        text
    }
}

/// A key that begins with `!` asks for the bare label.
pub open spec fn is_escaped(key: Seq<char>) -> bool {
    key.len() > 0 && key[0] == '!'
}

/// The markup that stands for a resolved reference: the label, in a `span`
/// of class `hint` whose attribute `hint` carries the key.
pub open spec fn hint_tag(key: Seq<char>, label: Seq<char>) -> Seq<char> {
    "<span class=\"hint\" hint=\""@ + key + "\">"@ + label + "</span>"@
}

/// What a reference is replaced with. An escaped key gives the bare
/// label, whatever the catalog holds; else a key without an entry gives the
/// bare label; else the tag.
pub open spec fn replacement(
    label: Seq<char>,
    key: Seq<char>,
    catalog: Map<Seq<char>, HintEntryView>,
) -> Seq<char> {
    if is_escaped(key) {
        label
    } else if !catalog.contains_key(key) {
        label
    } else {
        hint_tag(key, label)
    }
}

/// What a reference gives rise to in the log: a diagnostic exactly when
/// its key is not escaped and has no entry.
pub open spec fn complaint(
    key: Seq<char>,
    document_path: Seq<char>,
    catalog: Map<Seq<char>, HintEntryView>,
) -> Option<DiagnosticView> {
    if !is_escaped(key) && !catalog.contains_key(key) {
        Some(DiagnosticView { key, document_path })
    } else {
        None
    }
}

/// `text` with each reference replaced, from the left, the references
/// taken as the scan meets them.
pub open spec fn substituted(text: Seq<char>, catalog: Map<Seq<char>, HintEntryView>) -> Seq<char>
    decreases text.len(),
{
    match first_reference(text) {
        Some(span) => text.subrange(0, span.start) + replacement(
            label_at(text, span),
            key_at(text, span),
            catalog,
        ) + substituted(after(text, span), catalog),
        None => text,
    }
}

/// The diagnostics of `text`, in the order of its references.
pub open spec fn diagnostics_of(
    text: Seq<char>,
    document_path: Seq<char>,
    catalog: Map<Seq<char>, HintEntryView>,
) -> Seq<DiagnosticView>
    decreases text.len(),
{
    match first_reference(text) {
        Some(span) => {
            let rest = diagnostics_of(after(text, span), document_path, catalog);
            match complaint(key_at(text, span), document_path, catalog) {
                Some(diagnostic) => seq![diagnostic] + rest,
                None => rest,
            }
        },
        None => Seq::empty(),
    }
}

/// A text that holds no reference is left as it is, and nothing is
/// reported of it.
pub proof fn lemma_no_reference_no_change(
    text: Seq<char>,
    document_path: Seq<char>,
    catalog: Map<Seq<char>, HintEntryView>,
)
    requires
        !has_reference(text),
    ensures
        substituted(text, catalog) == text,
        diagnostics_of(text, document_path, catalog) == Seq::<DiagnosticView>::empty(),
{
}

/// A reference to a key that is not escaped and has no entry is replaced
/// with its bare label, and gives one diagnostic, which names that key and
/// the chapter.
pub proof fn lemma_missing_key_falls_back(
    label: Seq<char>,
    key: Seq<char>,
    document_path: Seq<char>,
    catalog: Map<Seq<char>, HintEntryView>,
)
    requires
        !is_escaped(key),
        !catalog.contains_key(key),
    ensures
        replacement(label, key, catalog) == label,
        complaint(key, document_path, catalog) == Some(DiagnosticView { key, document_path }),
{
}

/// A text whose first reference names a key that is not escaped and has no
/// entry: the label takes the reference's place, without a tag, and the
/// diagnostics of the text are one for that key and then those of what
/// follows the reference.
pub proof fn lemma_missing_reference(
    text: Seq<char>,
    span: Span,
    document_path: Seq<char>,
    catalog: Map<Seq<char>, HintEntryView>,
)
    requires
        is_first_reference(text, span),
        !is_escaped(key_at(text, span)),
        !catalog.contains_key(key_at(text, span)),
    ensures
        substituted(text, catalog) == text.subrange(0, span.start) + label_at(text, span)
            + substituted(after(text, span), catalog),
        diagnostics_of(text, document_path, catalog) == seq![
            DiagnosticView { key: key_at(text, span), document_path },
        ] + diagnostics_of(after(text, span), document_path, catalog),
{
    lemma_unfold(text, span, document_path, catalog);
}

/// A reference whose key begins with `!` is replaced with its bare label,
/// and nothing is reported of it, whether or not the key, or the key
/// without its `!`, has an entry.
pub proof fn lemma_escaped_key_gives_label(
    label: Seq<char>,
    key: Seq<char>,
    document_path: Seq<char>,
    catalog: Map<Seq<char>, HintEntryView>,
)
    requires
        is_escaped(key),
    ensures
        replacement(label, key, catalog) == label,
        complaint(key, document_path, catalog) is None,
{
}

/// A text whose first reference names an escaped key: the label takes the
/// reference's place, and the diagnostics of the text are those of what
/// follows the reference.
pub proof fn lemma_escaped_reference(
    text: Seq<char>,
    span: Span,
    document_path: Seq<char>,
    catalog: Map<Seq<char>, HintEntryView>,
)
    requires
        is_first_reference(text, span),
        is_escaped(key_at(text, span)),
    ensures
        substituted(text, catalog) == text.subrange(0, span.start) + label_at(text, span)
            + substituted(after(text, span), catalog),
        diagnostics_of(text, document_path, catalog) == diagnostics_of(
            after(text, span),
            document_path,
            catalog,
        ),
{
    lemma_unfold(text, span, document_path, catalog);
}

/// Every diagnostic of a text names the chapter and a key that is not
/// escaped and has no entry: an escaped key is never reported.
pub proof fn lemma_diagnostics_name_missing_keys(
    text: Seq<char>,
    document_path: Seq<char>,
    catalog: Map<Seq<char>, HintEntryView>,
)
    ensures
        forall|i: int|
            0 <= i < diagnostics_of(text, document_path, catalog).len() ==> {
                let diagnostic = #[trigger] diagnostics_of(text, document_path, catalog)[i];
                &&& !is_escaped(diagnostic.key)
                &&& !catalog.contains_key(diagnostic.key)
                &&& diagnostic.document_path == document_path
            },
    decreases text.len(),
{
    if let Some(span) = first_reference(text) {
        let all = diagnostics_of(text, document_path, catalog);
        let rest = diagnostics_of(after(text, span), document_path, catalog);
        lemma_diagnostics_name_missing_keys(after(text, span), document_path, catalog);
        assert forall|i: int| 0 <= i < all.len() implies {
            let diagnostic = #[trigger] all[i];
            &&& !is_escaped(diagnostic.key)
            &&& !catalog.contains_key(diagnostic.key)
            &&& diagnostic.document_path == document_path
        } by {
            if complaint(key_at(text, span), document_path, catalog) is Some {
                if i > 0 {
                    assert(all[i] == rest[i - 1]);
                }
            } else {
                assert(all[i] == rest[i]);
            }
        }
    }
}

/// Resolves one reference: the text that takes its place, and the
/// diagnostic if its key is not escaped and has no entry. An escaped key
/// is not looked up.
pub fn resolve_reference(
    label: &str,
    key: &str,
    document_path: &str,
    catalog: &HintCatalog,
) -> (resolved: (String, Option<Diagnostic>))
    ensures
        resolved.0@ == replacement(label@, key@, catalog@),
        match resolved.1 {
            Some(diagnostic) => Some(diagnostic@) == complaint(key@, document_path@, catalog@),
            None => complaint(key@, document_path@, catalog@) is None,
        },
{
    if !key.is_empty() && key.get_char(0) == '!' {
        (String::from_str(label), None)
    } else if !catalog.contains_key(key) {
        let diagnostic = Diagnostic {
            key: String::from_str(key),
            document_path: String::from_str(document_path),
        };
        (String::from_str(label), Some(diagnostic))
    } else {
        let mut tag = String::from_str("<span class=\"hint\" hint=\"");
        tag.append(key);
        tag.append("\">");
        tag.append(label);
        tag.append("</span>");
        (tag, None)
    }
}

/// A chapter after substitution.
#[derive(Debug)]
pub struct Rewritten {
    /// The chapter's text with its references replaced.
    pub content: String,
    /// One diagnostic for each reference to a key that is not escaped and
    /// has no entry, in the order of the references.
    pub diagnostics: Vec<Diagnostic>,
}

impl Rewritten {
    /// What the diagnostics hold.
    pub open spec fn diagnostics_view(&self) -> Seq<DiagnosticView> {
        self.diagnostics@.map_values(|diagnostic: Diagnostic| diagnostic@)
    }

    /// This is what the chapter `content` at `document_path` becomes
    /// against `catalog`.
    pub open spec fn is_rewriting_of(
        &self,
        content: Seq<char>,
        document_path: Seq<char>,
        catalog: Map<Seq<char>, HintEntryView>,
    ) -> bool {
        &&& self.content@ == substituted(content, catalog)
        &&& self.diagnostics_view() == diagnostics_of(content, document_path, catalog)
    }
}

/// Unfolds [`substituted`] and [`diagnostics_of`] at the first reference.
proof fn lemma_unfold(
    text: Seq<char>,
    span: Span,
    document_path: Seq<char>,
    catalog: Map<Seq<char>, HintEntryView>,
)
    requires
        is_first_reference(text, span),
    ensures
        substituted(text, catalog) == text.subrange(0, span.start) + replacement(
            label_at(text, span),
            key_at(text, span),
            catalog,
        ) + substituted(after(text, span), catalog),
        diagnostics_of(text, document_path, catalog) == match complaint(
            key_at(text, span),
            document_path,
            catalog,
        ) {
            Some(diagnostic) => seq![diagnostic] + diagnostics_of(
                after(text, span),
                document_path,
                catalog,
            ),
            None => diagnostics_of(after(text, span), document_path, catalog),
        },
{
    lemma_first_reference(text, span);
}

/// Replaces the references of `content` with the compiled `pattern`.
pub fn substitute(
    pattern: &ReferencePattern,
    content: &str,
    document_path: &str,
    hints: &HintCatalog,
) -> (rewritten: Rewritten)
    requires
        pattern.wf(),
    ensures
        rewritten.is_rewriting_of(content@, document_path@, hints@),
        !has_reference(content@) ==> rewritten.content@ == content@
            && rewritten.diagnostics@.len() == 0,
{
    let mut out = String::new();
    let mut diagnostics: Vec<Diagnostic> = Vec::new();
    let mut rest: &str = content;
    loop
        invariant
            pattern.wf(),
            substituted(content@, hints@) == out@ + substituted(rest@, hints@),
            diagnostics_of(content@, document_path@, hints@) == diagnostics@.map_values(
                |diagnostic: Diagnostic| diagnostic@,
            ) + diagnostics_of(rest@, document_path@, hints@),
        decreases rest@.len(),
    {
        match pattern.first_reference(rest) {
            None => {
                out.append(rest);
                return Rewritten { content: out, diagnostics };
            },
            Some(reference) => {
                let resolved = resolve_reference(reference.label, reference.key, document_path, hints);
                proof {
                    lemma_unfold(rest@, reference.span(), document_path@, hints@);
                }
                out.append(reference.before);
                out.append(resolved.0.as_str());
                if let Some(diagnostic) = resolved.1 {
                    diagnostics.push(diagnostic);
                }
                rest = reference.after;
            },
        }
    }
}

/// Replaces the references that the author wrote by hand: compiles the
/// pattern of a reference and rewrites `content` with it.
pub fn render_manual(content: &str, document_path: &str, hints: &HintCatalog) -> (rewritten: Result<
    Rewritten,
    HintError,
>)
    ensures
        match rewritten {
            Ok(rewritten) => regex_accepts(REFERENCE_PATTERN@) && rewritten.is_rewriting_of(
                content@,
                document_path@,
                hints@,
            ),
            Err(error) => !regex_accepts(REFERENCE_PATTERN@) && error == HintError::Pattern,
        },
{
    match ReferencePattern::new() {
        Ok(pattern) => Ok(substitute(&pattern, content, document_path, hints)),
        Err(error) => Err(error),
    }
}

/// Rewrites a chapter's text against the catalog. Only the references
/// written by hand are rewritten.
pub fn render_hints(content: &str, document_path: &str, hints: &HintCatalog) -> (rewritten: Result<
    Rewritten,
    HintError,
>)
    ensures
        match rewritten {
            Ok(rewritten) => regex_accepts(REFERENCE_PATTERN@) && rewritten.is_rewriting_of(
                content@,
                document_path@,
                hints@,
            ),
            Err(error) => !regex_accepts(REFERENCE_PATTERN@) && error == HintError::Pattern,
        },
{
    render_manual(content, document_path, hints)
}

} // verus!

//! What counts as a reference to a hint, and how the first one is found.
//!
//! A reference is `[label](~key)` on one line. The search itself is the
//! regex engine's; what it finds is stated here over the text's characters.

use regex::Regex;
use vstd::prelude::*;

use crate::error::HintError;

verus! {

/// `regex::Regex`, a compiled pattern. Nothing inside it is read here.
#[verifier::external_type_specification]
#[verifier::external_body]
pub struct ExRegex(regex::Regex);

/// `regex::Error`, the engine's reason for refusing a pattern.
#[verifier::external_type_specification]
#[verifier::external_body]
pub struct ExRegexError(regex::Error);

/// The pattern of a reference: a label in square brackets, then a key in
/// round brackets behind a tilde, both as short as possible.
pub const REFERENCE_PATTERN: &'static str = "\\[(.*?)]\\(~(.*?)\\)";

/// Whether the regex engine compiles `pattern`.
pub uninterp spec fn regex_accepts(pattern: Seq<char>) -> bool;

/// `re` is the regex that the engine compiles `pattern` to, with the
/// engine's default settings.
pub uninterp spec fn is_regex_of(re: Regex, pattern: Seq<char>) -> bool;

/// The place of a reference in a text, in characters: the opening square
/// bracket, the square bracket that closes the label, and the round bracket
/// that closes the key.
pub struct Span {
    pub start: int,
    pub label_end: int,
    pub key_end: int,
}

/// `text` holds a reference at `span`: the brackets and the tilde stand
/// where `span` says, and neither label nor key holds a line break.
pub open spec fn is_reference(text: Seq<char>, span: Span) -> bool {
    &&& 0 <= span.start < span.label_end
    &&& span.label_end + 3 <= span.key_end < text.len()
    &&& text[span.start] == '['
    &&& text[span.label_end] == ']'
    &&& text[span.label_end + 1] == '('
    &&& text[span.label_end + 2] == '~'
    &&& text[span.key_end] == ')'
    &&& forall|i: int| span.start < i < span.label_end ==> text[i] != '\n'
    &&& forall|i: int| span.label_end + 3 <= i < span.key_end ==> text[i] != '\n'
}

/// `text` holds at least one reference.
pub open spec fn has_reference(text: Seq<char>) -> bool {
    exists|span: Span| is_reference(text, span)
}

/// `a` is found no later than `b`: it starts further left, or at the same
/// place with the shorter label, or with the same label and no longer a key.
pub open spec fn not_after(a: Span, b: Span) -> bool {
    ||| a.start < b.start
    ||| a.start == b.start && a.label_end < b.label_end
    ||| a.start == b.start && a.label_end == b.label_end && a.key_end <= b.key_end
}

/// `span` is the reference that a scan from the left meets first.
pub open spec fn is_first_reference(text: Seq<char>, span: Span) -> bool {
    &&& is_reference(text, span)
    &&& forall|other: Span| #[trigger] is_reference(text, other) ==> not_after(span, other)
}

/// A text has at most one first reference.
pub proof fn lemma_first_reference_unique(text: Seq<char>, a: Span, b: Span)
    requires
        is_first_reference(text, a),
        is_first_reference(text, b),
    ensures
        a == b,
{
}

/// The first reference of `text`, if it has one.
pub open spec fn first_reference(text: Seq<char>) -> Option<Span> {
    if exists|span: Span| is_first_reference(text, span) {
        Some(choose|span: Span| is_first_reference(text, span))
    } else {
        None
    }
}

/// Among the numbers from 0 that `holds` accepts there is a least one.
proof fn lemma_least(holds: spec_fn(int) -> bool, witness: int)
    requires
        0 <= witness,
        holds(witness),
    ensures
        exists|least: int|
            0 <= least <= witness && #[trigger] holds(least) && forall|below: int|
                0 <= below < least ==> !#[trigger] holds(below),
    decreases witness,
{
    if exists|below: int| 0 <= below < witness && #[trigger] holds(below) {
        let below = choose|below: int| 0 <= below < witness && #[trigger] holds(below);
        lemma_least(holds, below);
    }
}

/// Among spans without a negative part that `holds` accepts, one is not
/// after any other.
proof fn lemma_least_span(holds: spec_fn(Span) -> bool, any: Span)
    requires
        holds(any),
        forall|span: Span| #[trigger]
            holds(span) ==> 0 <= span.start && 0 <= span.label_end && 0 <= span.key_end,
    ensures
        exists|first: Span| #[trigger]
            holds(first) && forall|other: Span| #[trigger] holds(other) ==> not_after(first, other),
{
    let starts = |start: int|
        exists|label_end: int, key_end: int| #[trigger]
            holds(Span { start, label_end, key_end });
    assert(holds(Span { start: any.start, label_end: any.label_end, key_end: any.key_end }));
    lemma_least(starts, any.start);
    let start = choose|least: int|
        0 <= least <= any.start && #[trigger] starts(least) && forall|below: int|
            0 <= below < least ==> !#[trigger] starts(below);
    let (label_end0, key_end0) = choose|label_end: int, key_end: int| #[trigger]
        holds(Span { start, label_end, key_end });
    let labels = |label_end: int|
        exists|key_end: int| #[trigger] holds(Span { start, label_end, key_end });
    lemma_least(labels, label_end0);
    let label_end = choose|least: int|
        0 <= least <= label_end0 && #[trigger] labels(least) && forall|below: int|
            0 <= below < least ==> !#[trigger] labels(below);
    let key_end1 = choose|key_end: int| #[trigger] holds(Span { start, label_end, key_end });
    let keys = |key_end: int| holds(Span { start, label_end, key_end });
    lemma_least(keys, key_end1);
    let key_end = choose|least: int|
        0 <= least <= key_end1 && #[trigger] keys(least) && forall|below: int|
            0 <= below < least ==> !#[trigger] keys(below);
    let first = Span { start, label_end, key_end };
    assert forall|other: Span| #[trigger] holds(other) implies not_after(first, other) by {
        assert(other == Span {
            start: other.start,
            label_end: other.label_end,
            key_end: other.key_end,
        });
        if other.start < start {
            assert(starts(other.start));
        } else if other.start == start {
            if other.label_end < label_end {
                assert(labels(other.label_end));
            } else if other.label_end == label_end {
                if other.key_end < key_end {
                    assert(keys(other.key_end));
                }
            }
        }
    }
}

/// A text that holds a reference has a first one.
pub proof fn lemma_reference_has_first(text: Seq<char>)
    requires
        has_reference(text),
    ensures
        first_reference(text) is Some,
{
    let any = choose|span: Span| is_reference(text, span);
    let holds = |span: Span| is_reference(text, span);
    lemma_least_span(holds, any);
    let first = choose|first: Span| #[trigger]
        holds(first) && forall|other: Span| #[trigger] holds(other) ==> not_after(first, other);
    assert forall|other: Span| #[trigger] is_reference(text, other) implies not_after(
        first,
        other,
    ) by {
        assert(holds(other));
    }
    assert(is_first_reference(text, first));
}

/// The label of the reference at `span`.
pub open spec fn label_at(text: Seq<char>, span: Span) -> Seq<char> {
    text.subrange(span.start + 1, span.label_end)
}

/// The key of the reference at `span`.
pub open spec fn key_at(text: Seq<char>, span: Span) -> Seq<char> {
    text.subrange(span.label_end + 3, span.key_end)
}

/// What follows the reference at `span`.
pub open spec fn after(text: Seq<char>, span: Span) -> Seq<char> {
    text.subrange(span.key_end + 1, text.len() as int)
}

/// A first reference is the first reference.
pub proof fn lemma_first_reference(text: Seq<char>, span: Span)
    requires
        is_first_reference(text, span),
    ensures
        first_reference(text) == Some(span),
{
    let chosen = choose|span: Span| is_first_reference(text, span);
    lemma_first_reference_unique(text, span, chosen);
}

/// A text cut at its first reference.
pub struct Reference<'a> {
    /// What stands before the opening square bracket.
    pub before: &'a str,
    /// The label, without its brackets.
    pub label: &'a str,
    /// The key, without the tilde and the brackets.
    pub key: &'a str,
    /// What stands behind the closing round bracket.
    pub after: &'a str,
}

impl<'a> Reference<'a> {
    /// Where the reference lies in the text that it was cut from.
    pub open spec fn span(&self) -> Span {
        Span {
            start: self.before@.len() as int,
            label_end: (self.before@.len() + 1 + self.label@.len()) as int,
            key_end: (self.before@.len() + 1 + self.label@.len() + 3 + self.key@.len()) as int,
        }
    }

    /// The pieces are those of `text`, cut at `self.span()`.
    pub open spec fn cuts(&self, text: Seq<char>) -> bool {
        let span = self.span();
        &&& span.key_end < text.len()
        &&& self.before@ == text.subrange(0, span.start)
        &&& self.label@ == label_at(text, span)
        &&& self.key@ == key_at(text, span)
        &&& self.after@ == after(text, span)
    }
}

/// Calls `regex::Regex::new`. It returns a regex exactly for the patterns
/// that the engine accepts, and that regex is the one of the pattern.
#[verifier::external_body]
fn compile(pattern: &str) -> (compiled: Result<Regex, regex::Error>)
    ensures
        compiled is Ok <==> regex_accepts(pattern@),
        compiled matches Ok(re) ==> is_regex_of(re, pattern@),
{
    Regex::new(pattern)
}

/// Calls `regex::Regex::captures` with the regex of [`REFERENCE_PATTERN`].
/// The engine reports the leftmost match and, the two groups being lazy,
/// the one with the shortest label and then the shortest key; `.` matches
/// every character but the line feed. Without a match it returns `None`.
#[verifier::external_body]
fn captures<'a>(re: &Regex, text: &'a str) -> (found: Option<Reference<'a>>)
    requires
        is_regex_of(*re, REFERENCE_PATTERN@),
    ensures
        match found {
            Some(reference) => reference.cuts(text@) && is_first_reference(
                text@,
                reference.span(),
            ),
            None => !has_reference(text@),
        },
{
    let caps = re.captures(text)?;
    let whole = caps.get(0)?;
    let label = caps.get(1)?.as_str();
    let key = caps.get(2)?.as_str();
    Some(Reference { before: &text[..whole.start()], label, key, after: &text[whole.end()..] })
}

/// The compiled form of [`REFERENCE_PATTERN`].
pub struct ReferencePattern {
    re: Regex,
}

impl ReferencePattern {
    /// The regex is that of [`REFERENCE_PATTERN`].
    pub closed spec fn wf(&self) -> bool {
        is_regex_of(self.re, REFERENCE_PATTERN@)
    }

    /// Keeps a compiled regex, or reports that the engine refused the
    /// pattern.
    pub fn from_compiled(compiled: Result<Regex, regex::Error>) -> (pattern: Result<Self, HintError>)
        requires
            compiled matches Ok(re) ==> is_regex_of(re, REFERENCE_PATTERN@),
        ensures
            compiled is Ok ==> pattern is Ok && pattern->Ok_0.wf(),
            compiled is Err ==> pattern == Err::<Self, HintError>(HintError::Pattern),
    {
        match compiled {
            Ok(re) => Ok(ReferencePattern { re }),
            Err(_) => Err(HintError::Pattern),
        }
    }

    /// Compiles [`REFERENCE_PATTERN`].
    pub fn new() -> (pattern: Result<Self, HintError>)
        ensures
            regex_accepts(REFERENCE_PATTERN@) ==> pattern is Ok && pattern->Ok_0.wf(),
            !regex_accepts(REFERENCE_PATTERN@) ==> pattern == Err::<Self, HintError>(
                HintError::Pattern,
            ),
    {
        Self::from_compiled(compile(REFERENCE_PATTERN))
    }

    /// Cuts `text` at its first reference; `None` exactly when it holds
    /// none.
    pub fn first_reference<'a>(&self, text: &'a str) -> (found: Option<Reference<'a>>)
        requires
            self.wf(),
        ensures
            match found {
                Some(reference) => reference.cuts(text@) && is_first_reference(
                    text@,
                    reference.span(),
                ),
                None => !has_reference(text@),
            },
    {
        captures(&self.re, text)
    }
}

} // verus!

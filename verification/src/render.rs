//! Rendering the body of a hint to the fragment that a tooltip shows.
//!
//! The Markdown compiler turns the body into HTML; a hint is shown inline,
//! so the paragraph that encloses the HTML is taken off.

use markdown::message::Message;
use markdown::{to_html_with_options, CompileOptions, Options};
use vstd::prelude::*;
use vstd::string::*;

use crate::error::HintError;

verus! {

/// `markdown::message::Message`, the compiler's reason for rejecting a
/// body.
#[verifier::external_type_specification]
#[verifier::external_body]
pub struct ExMessage(markdown::message::Message);

/// The HTML that the Markdown compiler makes of `body`, with raw HTML in
/// the body passed through or not; `None` where it rejects the body.
pub uninterp spec fn markdown_html(body: Seq<char>, allow_raw_html: bool) -> Option<Seq<char>>;

/// Calls `markdown::to_html_with_options` with the default options but for
/// `allow_dangerous_html`. The compiler reads nothing but its arguments, so
/// its answer is named after them.
#[verifier::external_body]
fn compile_markdown(body: &str, allow_raw_html: bool) -> (html: Result<String, Message>)
    ensures
        match html {
            Ok(html) => markdown_html(body@, allow_raw_html) == Some(html@),
            Err(_) => markdown_html(body@, allow_raw_html) is None,
        },
{
    let compile = CompileOptions { allow_dangerous_html: allow_raw_html, ..CompileOptions::default() };
    to_html_with_options(body, &Options { compile, ..Options::default() })
}

/// `html` begins with `<p>` and ends with `</p>`, the two apart.
pub open spec fn is_wrapped(html: Seq<char>) -> bool {
    let len = html.len() as int;
    &&& len >= 7
    &&& html[0] == '<' && html[1] == 'p' && html[2] == '>'
    &&& html[len - 4] == '<' && html[len - 3] == '/' && html[len - 2] == 'p' && html[len - 1]
        == '>'
}

/// `html` without the paragraph that encloses it, if one does.
pub open spec fn stripped(html: Seq<char>) -> Seq<char> {
    if is_wrapped(html) {
        html.subrange(3, html.len() - 4)
    } else {
        html
    }
}

/// The fragment of a hint with this body; `None` where the compiler rejects
/// the body.
pub open spec fn fragment(body: Seq<char>) -> Option<Seq<char>> {
    match markdown_html(body, true) {
        Some(html) => Some(stripped(html)),
        None => None,
    }
}

/// Takes one enclosing paragraph off `html`: a `<p>` at its start together
/// with a `</p>` at its end.
pub fn strip_paragraph(html: &str) -> (inline: String)
    ensures
        inline@ == stripped(html@),
{
    let len = html.unicode_len();
    if len >= 7 && html.get_char(0) == '<' && html.get_char(1) == 'p' && html.get_char(2) == '>'
        && html.get_char(len - 4) == '<' && html.get_char(len - 3) == '/' && html.get_char(len - 2)
        == 'p' && html.get_char(len - 1) == '>' {
        String::from_str(html.substring_char(3, len - 4))
    } else {
        String::from_str(html)
    }
}

/// What is made of the compiler's answer for the hint `key`: the fragment,
/// or the error that names the hint.
pub open spec fn rendered_as(
    key: Seq<char>,
    html: Option<Seq<char>>,
    out: Result<String, HintError>,
) -> bool {
    match html {
        Some(html) => out matches Ok(inline) && inline@ == stripped(html),
        None => out matches Err(HintError::Render { key: named }) && named@ == key,
    }
}

/// Makes the fragment of the hint `key` from what the compiler answered.
pub fn fragment_of(key: &str, compiled: Result<String, Message>) -> (out: Result<String, HintError>)
    ensures
        match compiled {
            Ok(html) => rendered_as(key@, Some(html@), out),
            Err(_) => rendered_as(key@, None, out),
        },
{
    match compiled {
        Ok(html) => Ok(strip_paragraph(html.as_str())),
        Err(_) => Err(HintError::Render { key: String::from_str(key) }),
    }
}

/// Renders the body of the hint `key` to its fragment. Raw HTML in the body
/// is passed through.
pub fn render_hint(key: &str, body: &str) -> (out: Result<String, HintError>)
    ensures
        rendered_as(key@, markdown_html(body@, true), out),
        out matches Ok(inline) ==> fragment(body@) == Some(inline@),
        out is Err <==> fragment(body@) is None,
{
    fragment_of(key, compile_markdown(body, true))
}

/// Rendering is a function of the body: two renderings of one body both
/// succeed or both fail, and where they succeed the fragments are equal.
pub proof fn lemma_render_deterministic(
    body: Seq<char>,
    key: Seq<char>,
    first: Result<String, HintError>,
    second: Result<String, HintError>,
)
    requires
        rendered_as(key, markdown_html(body, true), first),
        rendered_as(key, markdown_html(body, true), second),
    ensures
        first is Ok <==> second is Ok,
        first matches Ok(a) ==> second matches Ok(b) && a@ == b@,
{
}

} // verus!

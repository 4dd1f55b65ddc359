use mdbook_hints::render::fragment_of;
use mdbook_hints::{render_hint, strip_paragraph, HintError};

#[test]
fn bold_renders_without_a_paragraph() {
    assert_eq!(render_hint("k", "**bold**"), Ok("<strong>bold</strong>".to_string()));
}

#[test]
fn emphasis_renders_inline() {
    assert_eq!(render_hint("tip1", "Use *care*."), Ok("Use <em>care</em>.".to_string()));
}

#[test]
fn rendering_twice_gives_the_same_fragment() {
    for body in ["**bold**", "Use *care*.", "", "a\n\nb", "<i>raw</i> and `code`", "# Title"] {
        assert_eq!(render_hint("k", body), render_hint("k", body));
        assert_eq!(render_hint("k", body), render_hint("other", body));
    }
}

#[test]
fn raw_html_is_passed_through() {
    assert_eq!(render_hint("k", "Hi, <i>venus</i>!"), Ok("Hi, <i>venus</i>!".to_string()));
}

#[test]
fn markup_characters_in_text_are_escaped() {
    assert_eq!(render_hint("k", "1 < 2 & 3"), Ok("1 &lt; 2 &amp; 3".to_string()));
}

#[test]
fn an_empty_body_renders_to_nothing() {
    assert_eq!(render_hint("k", ""), Ok(String::new()));
}

#[test]
fn a_heading_keeps_its_element() {
    assert_eq!(render_hint("k", "# Title"), Ok("<h1>Title</h1>".to_string()));
}

#[test]
fn only_the_outermost_paragraph_tags_are_taken_off() {
    assert_eq!(render_hint("k", "a\n\nb"), Ok("a</p>\n<p>b".to_string()));
}

#[test]
fn strip_takes_one_enclosing_paragraph_off() {
    assert_eq!(strip_paragraph("<p>x</p>"), "x");
    assert_eq!(strip_paragraph("<p></p>"), "");
    assert_eq!(strip_paragraph("<p><strong>bold</strong></p>"), "<strong>bold</strong>");
    assert_eq!(strip_paragraph("<p><p>x</p></p>"), "<p>x</p>");
    assert_eq!(strip_paragraph("<p>héllo → wörld</p>"), "héllo → wörld");
}

#[test]
fn strip_leaves_other_text_as_it_is() {
    for html in [
        "",
        "x",
        "<p>",
        "</p>",
        "<p>x",
        "x</p>",
        "<p>x</p>\n",
        " <p>x</p>",
        "<P>x</P>",
        "<h1>x</h1>",
        "<p>x</p",
        "<p/p>",
        "<p></p",
        "é<p>x</p>é",
    ] {
        assert_eq!(strip_paragraph(html), html);
    }
}

#[test]
fn a_rejected_body_is_a_render_error_with_the_key() {
    let rejected = markdown::message::Message {
        place: None,
        reason: "unexpected end".to_string(),
        rule_id: Box::new("rule".to_string()),
        source: Box::new("source".to_string()),
    };
    assert_eq!(
        fragment_of("tip7", Err(rejected)),
        Err(HintError::Render { key: "tip7".to_string() })
    );
}

#[test]
fn compiled_html_becomes_the_fragment() {
    assert_eq!(fragment_of("k", Ok("<p>x</p>".to_string())), Ok("x".to_string()));
    assert_eq!(fragment_of("k", Ok("<h1>x</h1>".to_string())), Ok("<h1>x</h1>".to_string()));
}

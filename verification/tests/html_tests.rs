use url_map::html::{escape_html, render_diagnostic};

#[test]
fn escape_rewrites_every_markup_character() {
    assert_eq!(escape_html("a&b<c>d\"e'f"), "a&amp;b&lt;c&gt;d&quot;e&#39;f");
}

#[test]
fn escape_leaves_plain_text_alone() {
    assert_eq!(escape_html("plain-text_123"), "plain-text_123");
    assert_eq!(escape_html(""), "");
}

#[test]
fn escape_handles_non_ascii_text() {
    assert_eq!(escape_html("héllo<wörld>"), "héllo&lt;wörld&gt;");
}

#[test]
fn diagnostic_page_embeds_escaped_segment() {
    assert_eq!(render_diagnostic("other"), "<h1>Hi! From other</h1>");
    assert_eq!(render_diagnostic("a&b"), "<h1>Hi! From a&amp;b</h1>");
    assert_eq!(render_diagnostic(""), "<h1>Hi! From </h1>");
}

//! Rendering of the diagnostic page. User-controlled text lands inside a
//! heading element, so every character with a meaning in HTML is escaped
//! before it reaches the output.

use vstd::prelude::*;

verus! {

/// Characters that must not reach HTML output verbatim.
pub open spec fn is_escape_char(c: char) -> bool {
    c == '&' || c == '<' || c == '>' || c == '"' || c == '\''
}

/// What a single character becomes in escaped output.
pub open spec fn escaped_char(c: char) -> Seq<char> {
    if c == '&' {
        "&amp;"@
    } else if c == '<' {
        "&lt;"@
    } else if c == '>' {
        "&gt;"@
    } else if c == '"' {
        "&quot;"@
    } else if c == '\'' {
        "&#39;"@
    } else {
        seq![c]
    }
}

/// HTML-escaping of a text, character by character.
pub open spec fn escaped(s: Seq<char>) -> Seq<char>
    decreases s.len(),
{
    if s.len() == 0 {
        Seq::empty()
    } else {
        escaped(s.drop_last()) + escaped_char(s.last())
    }
}

/// Escape a text for inclusion in HTML.
pub fn escape_html(s: &str) -> (r: String)
    ensures
        r@ == escaped(s@),
{
    let n: usize = s.unicode_len();
    let mut r = String::new();
    let mut i: usize = 0;
    while i < n
        invariant
            n == s@.len(),
            i <= n,
            r@ == escaped(s@.take(i as int)),
        decreases n - i,
    {
        proof {
            assert(s@.take(i + 1).drop_last() =~= s@.take(i as int));
            assert(s@.take(i + 1).last() == s@[i as int]);
        }
        let c = s.get_char(i);
        if c == '&' {
            r.append("&amp;");
        } else if c == '<' {
            r.append("&lt;");
        } else if c == '>' {
            r.append("&gt;");
        } else if c == '"' {
            r.append("&quot;");
        } else if c == '\'' {
            r.append("&#39;");
        } else {
            let piece = s.substring_char(i, i + 1);
            proof {
                assert(piece@ =~= seq![s@[i as int]]);
            }
            r.append(piece);
        }
        i = i + 1;
    }
    proof {
        assert(s@.take(n as int) =~= s@);
    }
    r
}

/// What the diagnostic page opens with, before the escaped segment.
pub open spec fn body_prefix() -> Seq<char> {
    "<h1>Hi! From "@
}

/// What the diagnostic page closes with, after the escaped segment.
pub open spec fn body_suffix() -> Seq<char> {
    "</h1>"@
}

/// The body of the diagnostic page for an unmatched path segment.
pub open spec fn diagnostic_body(seg: Seq<char>) -> Seq<char> {
    body_prefix() + escaped(seg) + body_suffix()
}

/// Render the diagnostic page for an unmatched path segment.
pub fn render_diagnostic(seg: &str) -> (r: String)
    ensures
        r@ == diagnostic_body(seg@),
{
    let mut r = String::from_str("<h1>Hi! From ");
    let escaped_seg = escape_html(seg);
    r.append(escaped_seg.as_str());
    r.append("</h1>");
    r
}

/// `needle` occurs contiguously inside `hay`.
pub open spec fn has_substring(hay: Seq<char>, needle: Seq<char>) -> bool {
    exists|i: int|
        0 <= i && i + needle.len() <= hay.len()
            && #[trigger] hay.subrange(i, i + needle.len()) == needle
}

/// Escaping changes nothing in a text free of the escaped characters.
pub proof fn lemma_escaped_identity(s: Seq<char>)
    requires
        forall|i: int| 0 <= i < s.len() ==> !is_escape_char(#[trigger] s[i]),
    ensures
        escaped(s) == s,
    decreases s.len(),
{
    if s.len() > 0 {
        assert(!is_escape_char(s[s.len() - 1]));
        lemma_escaped_identity(s.drop_last());
        assert(escaped(s) =~= s);
    } else {
        assert(escaped(s) =~= s);
    }
}

/// The diagnostic page always embeds the escaped segment.
pub proof fn lemma_diagnostic_embeds_escaped(seg: Seq<char>)
    ensures
        has_substring(diagnostic_body(seg), escaped(seg)),
{
    let i = body_prefix().len() as int;
    assert(diagnostic_body(seg).subrange(i, i + escaped(seg).len()) =~= escaped(seg));
}

/// For a segment free of characters that escaping rewrites, the diagnostic
/// page embeds the segment itself, literally.
pub proof fn lemma_diagnostic_embeds_segment(seg: Seq<char>)
    requires
        forall|i: int| 0 <= i < seg.len() ==> !is_escape_char(#[trigger] seg[i]),
    ensures
        has_substring(diagnostic_body(seg), seg),
{
    lemma_escaped_identity(seg);
    lemma_diagnostic_embeds_escaped(seg);
}

} // verus!

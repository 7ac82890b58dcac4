//! Turning feed HTML into terminal text.
use vstd::prelude::*;
use crate::text::{
    chars_of, collapse_whitespace, collapse_ws, contains_char, is_ws, lemma_collapse_idempotent,
    lemma_collapse_tidy, lemma_replace_absent, push_char, replace_all, replace_chars, string_from,
    tidy, trim, trim_str,
};

verus! {

/// The characters kept by a left-to-right scan that drops everything from a
/// `<` up to the next `>`, together with whether the scan ends inside a tag.
pub open spec fn tag_fold(s: Seq<char>) -> (Seq<char>, bool)
    decreases s.len(),
{
    if s.len() == 0 {
        (Seq::empty(), false)
    } else {
        let (out, in_tag) = tag_fold(s.drop_last());
        let c = s.last();
        if c == '<' {
            (out, true)
        } else if c == '>' {
            (out, false)
        } else if !in_tag {
            (out.push(c), in_tag)
        } else {
            (out, in_tag)
        }
    }
}

/// The text outside of tags, with whitespace runs collapsed to single spaces.
pub open spec fn stripped(s: Seq<char>) -> Seq<char> {
    collapse_ws(tag_fold(s).0)
}

/// The seven entities that titles commonly carry, decoded in a fixed order.
pub open spec fn decoded(s: Seq<char>) -> Seq<char> {
    let s1 = replace_all(s, "&amp;"@, "&"@);
    let s2 = replace_all(s1, "&lt;"@, "<"@);
    let s3 = replace_all(s2, "&gt;"@, ">"@);
    let s4 = replace_all(s3, "&quot;"@, "\""@);
    let s5 = replace_all(s4, "&#39;"@, "'"@);
    let s6 = replace_all(s5, "&apos;"@, "'"@);
    replace_all(s6, "&nbsp;"@, " "@)
}

/// A one-line rendering: tags dropped when there are any, entities decoded,
/// whitespace collapsed.
pub open spec fn one_line_text(s: Seq<char>) -> Seq<char> {
    let base = if s.contains('<') {
        stripped(s)
    } else {
        s
    };
    collapse_ws(decoded(base))
}

/// What html2text renders for `html` at `width` columns (`None` when it fails).
pub uninterp spec fn html_render(html: Seq<char>, width: usize) -> Option<Seq<char>>;

/// The view of an optional string.
pub open spec fn opt_view(o: Option<String>) -> Option<Seq<char>> {
    match o {
        Some(s) => Some(s@),
        None => None,
    }
}

/// The view of an optional string slice.
pub open spec fn opt_str_view(o: Option<&str>) -> Option<Seq<char>> {
    match o {
        Some(s) => Some(s@),
        None => None,
    }
}

/// The wrapped terminal text for a story body.
pub open spec fn html_text(html: Seq<char>, width: usize) -> Seq<char> {
    let w = if width < 20 {
        20
    } else {
        width
    };
    let t = trim(html);
    if t.len() == 0 {
        Seq::empty()
    } else {
        match html_render(t, w) {
            Some(out) => out,
            None => stripped(t),
        }
    }
}

/// `html2text::config::plain().allow_width_overflow().string_from_read`:
/// the result is the named rendering of `html` at `width` columns.
#[verifier::external_body]
fn render_html(html: &str, width: usize) -> (r: Option<String>)
    ensures
        opt_view(r) == html_render(html@, width),
{
    html2text::config::plain().allow_width_overflow().string_from_read(html.as_bytes(), width).ok()
}

/// Convert RSS/Atom HTML (or plain text) into wrapped terminal text.
pub fn html_to_text(html: &str, width: usize) -> (r: String)
    ensures
        r@ == html_text(html@, width),
{
    let width = if width < 20 {
        20
    } else {
        width
    };
    let trimmed = trim_str(html);
    if trimmed.as_str().is_empty() {
        return String::new();
    }
    match render_html(trimmed.as_str(), width) {
        Some(out) => out,
        None => strip_tags(trimmed.as_str()),
    }
}

/// Drop markup: the text outside `<...>`, with whitespace collapsed.
pub fn strip_tags(html: &str) -> (r: String)
    ensures
        r@ == stripped(html@),
{
    let mut out = String::new();
    let mut in_tag = false;
    for c in it: html.chars()
        invariant
            it.seq() == html@,
            (out@, in_tag) == tag_fold(html@.take(it.index() as int)),
    {
        proof {
            assert(html@.take(it.index() + 1).drop_last() == html@.take(it.index() as int));
            assert(html@.take(it.index() + 1).last() == c);
        }
        if c == '<' {
            in_tag = true;
        } else if c == '>' {
            in_tag = false;
        } else if !in_tag {
            push_char(&mut out, c);
        }
    }
    proof {
        assert(html@.take(html@.len() as int) == html@);
    }
    collapse_whitespace(out.as_str())
}

/// Replace every occurrence of a literal pattern in `s`.
fn replace_lit(s: &Vec<char>, pat: &str, rep: &str) -> (r: Vec<char>)
    requires
        pat@.len() > 0,
    ensures
        r@ == replace_all(s@, pat@, rep@),
{
    let p = chars_of(pat);
    let q = chars_of(rep);
    replace_chars(s, &p, &q)
}

/// Decode the entities of `decoded`.
pub fn decode_basic(s: &str) -> (r: String)
    ensures
        r@ == decoded(s@),
{
    proof {
        reveal_strlit("&amp;");
        reveal_strlit("&lt;");
        reveal_strlit("&gt;");
        reveal_strlit("&quot;");
        reveal_strlit("&#39;");
        reveal_strlit("&apos;");
        reveal_strlit("&nbsp;");
    }
    let v = chars_of(s);
    let v = replace_lit(&v, "&amp;", "&");
    let v = replace_lit(&v, "&lt;", "<");
    let v = replace_lit(&v, "&gt;", ">");
    let v = replace_lit(&v, "&quot;", "\"");
    let v = replace_lit(&v, "&#39;", "'");
    let v = replace_lit(&v, "&apos;", "'");
    let v = replace_lit(&v, "&nbsp;", " ");
    string_from(&v)
}

/// Collapse HTML in titles and other one-line fields.
pub fn one_line(html: &str) -> (r: String)
    ensures
        r@ == one_line_text(html@),
{
    let base = if contains_char(html, '<') {
        strip_tags(html)
    } else {
        let v = chars_of(html);
        string_from(&v)
    };
    let d = decode_basic(base.as_str());
    collapse_whitespace(d.as_str())
}

/// The body a story offers: the longer of its full content and its description,
/// the content when they are equally long.
pub open spec fn longest(content: Option<Seq<char>>, summary: Option<Seq<char>>) -> Option<
    Seq<char>,
> {
    match (content, summary) {
        (Some(c), Some(s)) => if s.len() > c.len() {
            Some(s)
        } else {
            Some(c)
        },
        (Some(c), None) => Some(c),
        (None, Some(s)) => Some(s),
        (None, None) => None,
    }
}

/// Prefer the longest text the feed actually sent (full content, then description).
pub fn longest_html<'a>(content: Option<&'a str>, summary: Option<&'a str>) -> (r: Option<&'a str>)
    ensures
        opt_str_view(r) == longest(opt_str_view(content), opt_str_view(summary)),
{
    match (content, summary) {
        (Some(c), Some(s)) => {
            let cn = chars_of(c).len();
            let sn = chars_of(s).len();
            if sn > cn {
                Some(s)
            } else {
                Some(c)
            }
        },
        (Some(c), None) => Some(c),
        (None, Some(s)) => Some(s),
        (None, None) => None,
    }
}

/// Whether a body has no visible text at all.
pub fn looks_empty(html: &str) -> (r: bool)
    ensures
        r == (one_line_text(html@).len() == 0),
{
    let t = one_line(html);
    t.as_str().is_empty()
}

// ---------------------------------------------------------------------------
// Laws
// ---------------------------------------------------------------------------

proof fn lemma_tag_fold_clean(s: Seq<char>)
    ensures
        forall|i: int|
            0 <= i < tag_fold(s).0.len() ==> (#[trigger] tag_fold(s).0[i]) != '<' && tag_fold(
                s,
            ).0[i] != '>' && s.contains(tag_fold(s).0[i]),
    decreases s.len(),
{
    if s.len() > 0 {
        let t = s.drop_last();
        lemma_tag_fold_clean(t);
        let out = tag_fold(t).0;
        let c = s.last();
        assert(s[s.len() - 1] == c);
        assert forall|i: int| 0 <= i < out.len() implies s.contains(#[trigger] out[i]) by {
            let k = choose|k: int| 0 <= k < t.len() && t[k] == out[i];
            assert(s[k] == out[i]);
        }
        assert forall|i: int| 0 <= i < out.push(c).len() && i < out.len() implies (
        #[trigger] out.push(c)[i]) == out[i] by {}
    }
}

/// Stripping tags leaves no markup: no `<` or `>` remains, and the text left
/// is tidy (single spaces between words, none at the ends) and made of the
/// input's characters.
pub proof fn law_strip_tags_drops_markup(s: Seq<char>)
    ensures
        !stripped(s).contains('<'),
        !stripped(s).contains('>'),
        tidy(stripped(s), s),
{
    let x = tag_fold(s).0;
    lemma_tag_fold_clean(s);
    lemma_collapse_tidy(x);
    let t = stripped(s);
    assert forall|i: int| 0 <= i < t.len() implies (#[trigger] t[i]) != '<' && t[i] != '>' && (t[i]
        == ' ' || (!is_ws(t[i]) && s.contains(t[i]))) by {
        if t[i] != ' ' {
            let k = choose|k: int| 0 <= k < x.len() && x[k] == t[i];
            assert(x[k] != '<' && x[k] != '>' && s.contains(x[k]));
        }
    }
}

/// A one-line rendering is one tidy line: its only whitespace is single
/// spaces between words, and its characters come from the decoded text.
pub proof fn law_one_line_is_one_line(s: Seq<char>)
    ensures
        tidy(
            one_line_text(s),
            decoded(
                if s.contains('<') {
                    stripped(s)
                } else {
                    s
                },
            ),
        ),
        !one_line_text(s).contains('\n'),
{
    let base = if s.contains('<') {
        stripped(s)
    } else {
        s
    };
    lemma_collapse_tidy(decoded(base));
    let t = one_line_text(s);
    if t.contains('\n') {
        let i = choose|i: int| 0 <= i < t.len() && t[i] == '\n';
        assert(is_ws(t[i]));
    }
}

/// Text holding no `&` decodes to itself.
proof fn lemma_decoded_plain(s: Seq<char>)
    requires
        !s.contains('&'),
    ensures
        decoded(s) == s,
{
    reveal_strlit("&amp;");
    reveal_strlit("&lt;");
    reveal_strlit("&gt;");
    reveal_strlit("&quot;");
    reveal_strlit("&#39;");
    reveal_strlit("&apos;");
    reveal_strlit("&nbsp;");
    lemma_replace_absent(s, "&amp;"@, "&"@);
    lemma_replace_absent(s, "&lt;"@, "<"@);
    lemma_replace_absent(s, "&gt;"@, ">"@);
    lemma_replace_absent(s, "&quot;"@, "\""@);
    lemma_replace_absent(s, "&#39;"@, "'"@);
    lemma_replace_absent(s, "&apos;"@, "'"@);
    lemma_replace_absent(s, "&nbsp;"@, " "@);
}

/// For text without `&`, a one-line rendering is already one line: making
/// it one line again changes nothing.
pub proof fn law_one_line_idempotent(s: Seq<char>)
    requires
        !s.contains('&'),
    ensures
        one_line_text(one_line_text(s)) == one_line_text(s),
{
    let base = if s.contains('<') {
        stripped(s)
    } else {
        s
    };
    if s.contains('<') {
        law_strip_tags_drops_markup(s);
    }
    assert(!base.contains('&')) by {
        if base.contains('&') {
            let k = choose|k: int| 0 <= k < base.len() && base[k] == '&';
            if s.contains('<') {
                assert(base[k] != ' ');
                assert(s.contains(base[k]));
            }
        }
    }
    lemma_decoded_plain(base);
    let t = collapse_ws(base);
    assert(one_line_text(s) == t);
    lemma_collapse_tidy(base);
    assert(!t.contains('&') && !t.contains('<')) by {
        if t.contains('&') {
            let k = choose|k: int| 0 <= k < t.len() && t[k] == '&';
            assert(t[k] != ' ');
            assert(base.contains(t[k]));
        }
        if t.contains('<') {
            let k = choose|k: int| 0 <= k < t.len() && t[k] == '<';
            assert(t[k] != ' ');
            assert(base.contains(t[k]));
        }
    }
    lemma_decoded_plain(t);
    lemma_collapse_idempotent(base);
}

/// A story body is rendered at its width, but never narrower than twenty
/// columns: a narrower width renders as twenty, and from twenty on the
/// renderer's output at exactly that width is the text (when it renders).
pub proof fn law_html_width(html: Seq<char>, width: usize)
    ensures
        width < 20 ==> html_text(html, width) == html_text(html, 20),
        width >= 20 && trim(html).len() > 0 ==> (html_render(trim(html), width) matches Some(out)
            ==> html_text(html, width) == out),
        trim(html).len() == 0 ==> html_text(html, width) == Seq::<char>::empty(),
{
}

} // verus!

//! Reading a parsed feed into stories, and cleaning up feed URLs.
use vstd::prelude::*;
use feed_rs::model::Link;
use feed_rs::parser::parse as read_feed;
use crate::html::{one_line, one_line_text, opt_str_view, opt_view};
use crate::model::NewArticle;
use crate::text::{
    digits, is_blank, lemma_trim_fixed, owned, u64_text, lemma_trim_shape, push_str, starts, str_eq, str_starts_with, trim,
    trim_str,
};

verus! {

/// A link of a parsed feed or entry.
#[derive(Debug, Clone)]
pub struct RawLink {
    pub href: String,
    pub rel: Option<String>,
}

/// An entry of a parsed feed: what the reader uses of it.
#[derive(Debug, Clone)]
pub struct RawEntry {
    pub id: String,
    pub title: Option<String>,
    pub links: Vec<RawLink>,
    pub published: Option<i64>,
    pub updated: Option<i64>,
    pub summary: Option<String>,
    pub content: Option<String>,
}

/// A parsed RSS, Atom or JSON feed: what the reader uses of it.
#[derive(Debug, Clone)]
pub struct RawFeed {
    pub title: Option<String>,
    pub links: Vec<RawLink>,
    pub entries: Vec<RawEntry>,
}

/// The feed title, site link and stories read from one fetch.
#[derive(Debug, Clone)]
pub struct FetchedFeed {
    pub title: String,
    pub site_url: Option<String>,
    pub articles: Vec<NewArticle>,
}

/// A link as values.
pub struct LinkView {
    pub href: Seq<char>,
    pub rel: Option<Seq<char>>,
}

/// An entry as values.
pub struct EntryView {
    pub id: Seq<char>,
    pub title: Option<Seq<char>>,
    pub links: Seq<LinkView>,
    pub published: Option<i64>,
    pub updated: Option<i64>,
    pub summary: Option<Seq<char>>,
    pub content: Option<Seq<char>>,
}

/// A parsed feed as values.
pub struct FeedView {
    pub title: Option<Seq<char>>,
    pub links: Seq<LinkView>,
    pub entries: Seq<EntryView>,
}

/// A new story as values.
pub struct NewArticleView {
    pub guid: Seq<char>,
    pub title: Seq<char>,
    pub url: Option<Seq<char>>,
    pub published: Option<i64>,
    pub summary: Option<Seq<char>>,
    pub content: Option<Seq<char>>,
}

/// A fetch result as values.
pub struct FetchedView {
    pub title: Seq<char>,
    pub site_url: Option<Seq<char>>,
    pub articles: Seq<NewArticleView>,
}

impl View for RawLink {
    type V = LinkView;

    open spec fn view(&self) -> LinkView {
        LinkView { href: self.href@, rel: opt_view(self.rel) }
    }
}

/// The views of a sequence of links.
pub open spec fn link_views(v: Seq<RawLink>) -> Seq<LinkView> {
    v.map_values(|l: RawLink| l@)
}

impl View for RawEntry {
    type V = EntryView;

    open spec fn view(&self) -> EntryView {
        EntryView {
            id: self.id@,
            title: opt_view(self.title),
            links: link_views(self.links@),
            published: self.published,
            updated: self.updated,
            summary: opt_view(self.summary),
            content: opt_view(self.content),
        }
    }
}

impl View for RawFeed {
    type V = FeedView;

    open spec fn view(&self) -> FeedView {
        FeedView {
            title: opt_view(self.title),
            links: link_views(self.links@),
            entries: self.entries@.map_values(|e: RawEntry| e@),
        }
    }
}

impl View for NewArticle {
    type V = NewArticleView;

    open spec fn view(&self) -> NewArticleView {
        NewArticleView {
            guid: self.guid@,
            title: self.title@,
            url: opt_view(self.url),
            published: self.published,
            summary: opt_view(self.summary),
            content: opt_view(self.content),
        }
    }
}

/// The views of a sequence of new stories.
pub open spec fn article_views(v: Seq<NewArticle>) -> Seq<NewArticleView> {
    v.map_values(|a: NewArticle| a@)
}

impl View for FetchedFeed {
    type V = FetchedView;

    open spec fn view(&self) -> FetchedView {
        FetchedView {
            title: self.title@,
            site_url: opt_view(self.site_url),
            articles: article_views(self.articles@),
        }
    }
}

/// Whether a link is taken as the page link: no `rel`, `rel="alternate"`,
/// and, where `allow_self`, `rel="self"`.
pub open spec fn page_rel(l: LinkView, allow_self: bool) -> bool {
    match l.rel {
        None => true,
        Some(r) => r == "alternate"@ || (allow_self && r == "self"@),
    }
}

/// The first page link of `links`.
pub open spec fn first_page_link(links: Seq<LinkView>, allow_self: bool) -> Option<LinkView>
    decreases links.len(),
{
    if links.len() == 0 {
        None
    } else if page_rel(links[0], allow_self) {
        Some(links[0])
    } else {
        first_page_link(links.drop_first(), allow_self)
    }
}

/// The page URL of `links`: the first page link, else the first link.
pub open spec fn page_url(links: Seq<LinkView>, allow_self: bool) -> Option<Seq<char>> {
    match first_page_link(links, allow_self) {
        Some(l) => Some(l.href),
        None => if links.len() > 0 {
            Some(links[0].href)
        } else {
            None
        },
    }
}

/// A text field kept only when it holds more than whitespace.
pub open spec fn non_blank(o: Option<Seq<char>>) -> Option<Seq<char>> {
    match o {
        Some(s) => if trim(s).len() > 0 {
            Some(s)
        } else {
            None
        },
        None => None,
    }
}

/// A title flattened to one line, or `fallback` when that leaves nothing.
pub open spec fn title_or(t: Option<Seq<char>>, fallback: Seq<char>) -> Seq<char> {
    match t {
        Some(s) => if one_line_text(s).len() > 0 {
            one_line_text(s)
        } else {
            fallback
        },
        None => fallback,
    }
}

/// The story stored for a feed entry.
pub open spec fn entry_story(e: EntryView) -> NewArticleView {
    let title = title_or(e.title, "(untitled)"@);
    let url = page_url(e.links, false);
    let guid = if trim(e.id).len() == 0 {
        match url {
            Some(u) => u,
            None => title,
        }
    } else {
        e.id
    };
    NewArticleView {
        guid,
        title,
        url,
        published: if e.published is Some {
            e.published
        } else {
            e.updated
        },
        summary: non_blank(e.summary),
        content: non_blank(e.content),
    }
}

/// What a fetch of `source_url` yields from a parsed feed.
pub open spec fn fetched(f: FeedView, source_url: Seq<char>) -> FetchedView {
    FetchedView {
        title: title_or(f.title, source_url),
        site_url: page_url(f.links, true),
        articles: f.entries.map_values(|e: EntryView| entry_story(e)),
    }
}

fn is_page_link(l: &RawLink, allow_self: bool) -> (r: bool)
    ensures
        r == page_rel(l@, allow_self),
{
    match &l.rel {
        None => true,
        Some(r) => {
            proof {
                reveal_strlit("alternate");
                reveal_strlit("self");
            }
            str_eq(r.as_str(), "alternate") || (allow_self && str_eq(r.as_str(), "self"))
        },
    }
}

/// The page URL of a list of links.
fn pick_page_url(links: &Vec<RawLink>, allow_self: bool) -> (r: Option<String>)
    ensures
        opt_view(r) == page_url(link_views(links@), allow_self),
{
    let ghost lv = link_views(links@);
    let n = links.len();
    let mut i: usize = 0;
    proof {
        assert(lv.skip(0) == lv);
    }
    while i < n
        invariant
            i <= n == links.len(),
            lv == link_views(links@),
            first_page_link(lv, allow_self) == first_page_link(lv.skip(i as int), allow_self),
        decreases n - i,
    {
        proof {
            assert(lv.skip(i as int)[0] == links@[i as int]@);
            assert(lv.skip(i as int).drop_first() == lv.skip(i + 1));
        }
        if is_page_link(&links[i], allow_self) {
            return Some(links[i].href.clone());
        }
        i = i + 1;
    }
    if n > 0 {
        Some(links[0].href.clone())
    } else {
        None
    }
}

/// A title flattened to one line, or `fallback`.
fn one_line_or(t: &Option<String>, fallback: &str) -> (r: String)
    ensures
        r@ == title_or(opt_view(*t), fallback@),
{
    match t {
        Some(s) => {
            let line = one_line(s.as_str());
            if line.as_str().is_empty() {
                let mut out = String::new();
                push_str(&mut out, fallback);
                out
            } else {
                line
            }
        },
        None => {
            let mut out = String::new();
            push_str(&mut out, fallback);
            out
        },
    }
}

fn keep_non_blank(o: &Option<String>) -> (r: Option<String>)
    ensures
        opt_view(r) == non_blank(opt_view(*o)),
{
    match o {
        Some(s) => if is_blank(s.as_str()) {
            None
        } else {
            Some(s.clone())
        },
        None => None,
    }
}

/// The story stored for one feed entry.
pub fn entry_to_article(entry: &RawEntry) -> (r: NewArticle)
    ensures
        r@ == entry_story(entry@),
{
    proof {
        reveal_strlit("(untitled)");
    }
    let title = one_line_or(&entry.title, "(untitled)");
    let url = pick_page_url(&entry.links, false);
    let guid = if is_blank(entry.id.as_str()) {
        match &url {
            Some(u) => u.clone(),
            None => title.clone(),
        }
    } else {
        entry.id.clone()
    };
    let published = match entry.published {
        Some(p) => Some(p),
        None => entry.updated,
    };
    NewArticle {
        guid,
        title,
        url,
        published,
        summary: keep_non_blank(&entry.summary),
        content: keep_non_blank(&entry.content),
    }
}

/// The feed title, site link and stories that a fetch of `source_url` yields.
pub fn from_parsed(parsed: &RawFeed, source_url: &str) -> (r: FetchedFeed)
    ensures
        r@ == fetched(parsed@, source_url@),
{
    let title = one_line_or(&parsed.title, source_url);
    let site_url = pick_page_url(&parsed.links, true);
    let mut articles: Vec<NewArticle> = Vec::new();
    let n = parsed.entries.len();
    let ghost ev = parsed@.entries;
    let mut i: usize = 0;
    while i < n
        invariant
            i <= n == parsed.entries.len(),
            ev == parsed@.entries,
            article_views(articles@) == ev.take(i as int).map_values(
                |e: EntryView| entry_story(e),
            ),
        decreases n - i,
    {
        let a = entry_to_article(&parsed.entries[i]);
        proof {
            assert(ev[i as int] == parsed.entries@[i as int]@);
            assert(article_views(articles@.push(a)) =~= article_views(articles@).push(a@));
            assert(ev.take(i + 1).map_values(|e: EntryView| entry_story(e)) =~= ev.take(
                i as int,
            ).map_values(|e: EntryView| entry_story(e)).push(entry_story(ev[i as int])));
        }
        articles.push(a);
        i = i + 1;
    }
    proof {
        assert(ev.take(n as int) == ev);
    }
    FetchedFeed { title, site_url, articles }
}

// ---------------------------------------------------------------------------
// Documents the parser cannot read
// ---------------------------------------------------------------------------
//
// feed-rs reads a time value (the text of an `itunes:duration` element, the
// `start` and `end` attributes of `media:text`, the `time` attribute of
// `media:thumbnail`) by matching digits with a Unicode-aware pattern and
// unwrapping their conversion to a number. That panics on digits of other
// scripts and on a run of digits too long for a `u64` (or, for the hours,
// long enough that counting their seconds overflows). Before parsing, the
// library looks at exactly those spans of the document: the text that
// follows each start tag named `duration` up to the next end tag (a CDATA
// section joined in), and the quoted value of each attribute named `start`,
// `end` or `time`. A span is refused when it holds a byte outside ASCII, a
// character reference, a comment or processing instruction (which the
// parser skips, joining the digits around it), or sixteen digits in a row.
// The scan reads the bytes as ASCII; in a document with a NUL byte (UTF-16)
// or an ESC byte (ISO-2022) the markup is not ASCII and the spans cannot be
// found, so such documents are refused too. Neither byte may occur in
// well-formed XML encoded in UTF-8.

/// `pat` occurs in `bs` at `i`.
pub open spec fn bytes_at(bs: Seq<u8>, i: int, pat: Seq<u8>) -> bool {
    0 <= i && i + pat.len() <= bs.len() && bs.subrange(i, i + pat.len()) == pat
}

/// An XML white-space byte.
pub open spec fn xml_space(b: u8) -> bool {
    b == 0x20 || b == 0x09 || b == 0x0A || b == 0x0D
}

/// An ASCII digit.
pub open spec fn digit_byte(b: u8) -> bool {
    0x30 <= b <= 0x39
}

/// A byte that may stand in a tag's or an attribute's name: anything but
/// white space and `<`, `>`, `/`, `"`, `'`, `=`.
pub open spec fn qname_byte(b: u8) -> bool {
    !xml_space(b) && b != 0x3C && b != 0x3E && b != 0x2F && b != 0x22 && b != 0x27 && b != 0x3D
}

/// The bytes of `duration`.
pub open spec fn duration_name() -> Seq<u8> {
    seq![0x64u8, 0x75, 0x72, 0x61, 0x74, 0x69, 0x6F, 0x6E]
}

/// The bytes of `start`.
pub open spec fn start_name() -> Seq<u8> {
    seq![0x73u8, 0x74, 0x61, 0x72, 0x74]
}

/// The bytes of `end`.
pub open spec fn end_name() -> Seq<u8> {
    seq![0x65u8, 0x6E, 0x64]
}

/// The bytes of `time`.
pub open spec fn time_name() -> Seq<u8> {
    seq![0x74u8, 0x69, 0x6D, 0x65]
}

/// The bytes of `<![CDATA[`.
pub open spec fn cdata_open() -> Seq<u8> {
    seq![0x3Cu8, 0x21, 0x5B, 0x43, 0x44, 0x41, 0x54, 0x41, 0x5B]
}

/// The bytes of `]]>`.
pub open spec fn cdata_close() -> Seq<u8> {
    seq![0x5Du8, 0x5D, 0x3E]
}

/// The bytes of `&#`, which open a character reference.
pub open spec fn char_ref() -> Seq<u8> {
    seq![0x26u8, 0x23]
}

/// Walking back from `k` over name bytes reaches a `<`.
pub open spec fn opens_tag_back(bs: Seq<u8>, k: int) -> bool
    decreases k + 1,
{
    if k < 0 || k >= bs.len() {
        false
    } else if bs[k] == 0x3C {
        true
    } else if qname_byte(bs[k]) {
        opens_tag_back(bs, k - 1)
    } else {
        false
    }
}

/// A start tag whose local name is `duration` (with or without a prefix)
/// has that name at `j`.
pub open spec fn duration_tag_at(bs: Seq<u8>, j: int) -> bool {
    &&& bytes_at(bs, j, duration_name())
    &&& j > 0
    &&& j + 8 < bs.len()
    &&& (xml_space(bs[j + 8]) || bs[j + 8] == 0x3E || bs[j + 8] == 0x2F)
    &&& (bs[j - 1] == 0x3C || (bs[j - 1] == 0x3A && opens_tag_back(bs, j - 2)))
}

/// From `k` on (inside a value quoted by `q` when `q` is not 0), the index
/// of the `>` that closes the tag, or the length when none does.
pub open spec fn tag_end(bs: Seq<u8>, k: int, q: u8) -> int
    decreases bs.len() - k,
{
    if k < 0 || k >= bs.len() {
        bs.len() as int
    } else if q == 0 {
        if bs[k] == 0x3E {
            k
        } else if bs[k] == 0x22 || bs[k] == 0x27 {
            tag_end(bs, k + 1, bs[k])
        } else {
            tag_end(bs, k + 1, 0)
        }
    } else if bs[k] == q {
        tag_end(bs, k + 1, 0)
    } else {
        tag_end(bs, k + 1, q)
    }
}

/// From `i` on, an element's text (inside a CDATA section when `cdata`,
/// `run` digits just read) holds, before its end or the next element, a
/// byte outside ASCII, a character reference, a comment or processing
/// instruction, or sixteen digits in a row (CDATA marks do not break a run).
pub open spec fn text_hazard(bs: Seq<u8>, i: int, run: int, cdata: bool) -> bool
    decreases bs.len() - i,
{
    if i < 0 || i >= bs.len() {
        false
    } else if cdata {
        if bytes_at(bs, i, cdata_close()) {
            text_hazard(bs, i + 3, run, false)
        } else if bs[i] >= 0x80 {
            true
        } else if digit_byte(bs[i]) {
            run + 1 >= 16 || text_hazard(bs, i + 1, run + 1, true)
        } else {
            text_hazard(bs, i + 1, 0, true)
        }
    } else if bytes_at(bs, i, cdata_open()) {
        text_hazard(bs, i + 9, run, true)
    } else if bs[i] == 0x3C {
        i + 1 < bs.len() && (bs[i + 1] == 0x21 || bs[i + 1] == 0x3F)
    } else if bs[i] >= 0x80 || bytes_at(bs, i, char_ref()) {
        true
    } else if digit_byte(bs[i]) {
        run + 1 >= 16 || text_hazard(bs, i + 1, run + 1, false)
    } else {
        text_hazard(bs, i + 1, 0, false)
    }
}

/// The `duration` start tag at `j` is followed by text the parser could
/// not convert.
pub open spec fn duration_hazard_at(bs: Seq<u8>, j: int) -> bool {
    let e = tag_end(bs, j + 8, 0);
    &&& duration_tag_at(bs, j)
    &&& e < bs.len()
    &&& bs[e - 1] != 0x2F
    &&& text_hazard(bs, e + 1, 0, false)
}

/// From `k` on, the first byte that is not white space.
pub open spec fn skip_space(bs: Seq<u8>, k: int) -> int
    decreases bs.len() - k,
{
    if 0 <= k < bs.len() && xml_space(bs[k]) {
        skip_space(bs, k + 1)
    } else {
        k
    }
}

/// From `i` on, the rest of a value quoted by `q` (`run` digits just read)
/// holds a byte outside ASCII, a character reference or sixteen digits in a
/// row.
pub open spec fn value_hazard(bs: Seq<u8>, i: int, q: u8, run: int) -> bool
    decreases bs.len() - i,
{
    if i < 0 || i >= bs.len() || bs[i] == q {
        false
    } else if bs[i] >= 0x80 || bytes_at(bs, i, char_ref()) {
        true
    } else if digit_byte(bs[i]) {
        run + 1 >= 16 || value_hazard(bs, i + 1, q, run + 1)
    } else {
        value_hazard(bs, i + 1, q, 0)
    }
}

/// An attribute named `name` (the whole name) is at `i`, and its quoted
/// value could spell a number the parser cannot convert.
pub open spec fn attr_hazard_at(bs: Seq<u8>, i: int, name: Seq<u8>) -> bool {
    let e = skip_space(bs, i + name.len());
    let v = skip_space(bs, e + 1);
    &&& bytes_at(bs, i, name)
    &&& (i == 0 || !qname_byte(bs[i - 1]))
    &&& 0 <= e < bs.len()
    &&& bs[e] == 0x3D
    &&& 0 <= v < bs.len()
    &&& (bs[v] == 0x22 || bs[v] == 0x27)
    &&& value_hazard(bs, v + 1, bs[v], 0)
}

/// Documents refused before parsing: those in UTF-16 or ISO-2022, and
/// those with a time value that could spell a number the parser cannot
/// convert.
pub open spec fn time_value_hazard(bs: Seq<u8>) -> bool {
    ||| bs.contains(0u8)
    ||| bs.contains(0x1Bu8)
    ||| exists|j: int| duration_hazard_at(bs, j)
    ||| exists|i: int| attr_hazard_at(bs, i, start_name())
    ||| exists|i: int| attr_hazard_at(bs, i, end_name())
    ||| exists|i: int| attr_hazard_at(bs, i, time_name())
}

/// Whether `pat` occurs at `i`.
fn bytes_match(bs: &[u8], i: usize, pat: &Vec<u8>) -> (r: bool)
    ensures
        r == bytes_at(bs@, i as int, pat@),
{
    let n = bs.len();
    let m = pat.len();
    if i > n || m > n - i {
        return false;
    }
    let mut k: usize = 0;
    while k < m
        invariant
            n == bs@.len(),
            m == pat@.len(),
            i + m <= n,
            k <= m,
            forall|j: int| 0 <= j < k ==> bs@[i + j] == pat@[j],
        decreases m - k,
    {
        if bs[i + k] != pat[k] {
            proof {
                assert(bs@.subrange(i as int, i + m)[k as int] != pat@[k as int]);
            }
            return false;
        }
        k = k + 1;
    }
    proof {
        assert(bs@.subrange(i as int, i + m) =~= pat@);
    }
    true
}

fn is_xml_space(b: u8) -> (r: bool)
    ensures
        r == xml_space(b),
{
    b == 0x20 || b == 0x09 || b == 0x0A || b == 0x0D
}

fn is_qname_byte(b: u8) -> (r: bool)
    ensures
        r == qname_byte(b),
{
    !is_xml_space(b) && b != 0x3C && b != 0x3E && b != 0x2F && b != 0x22 && b != 0x27 && b != 0x3D
}

/// Whether walking back from `k` over name bytes reaches a `<`.
fn opens_tag_before(bs: &[u8], k: usize) -> (r: bool)
    ensures
        r == opens_tag_back(bs@, k as int),
{
    let n = bs.len();
    let mut p = k;
    loop
        invariant
            n == bs@.len(),
            opens_tag_back(bs@, k as int) == opens_tag_back(bs@, p as int),
        decreases p,
    {
        if p >= n {
            return false;
        }
        if bs[p] == 0x3C {
            return true;
        }
        if !is_qname_byte(bs[p]) {
            return false;
        }
        if p == 0 {
            proof {
                assert(!opens_tag_back(bs@, -1));
            }
            return false;
        }
        p = p - 1;
    }
}

/// Whether a `duration` start tag has its name at `j`.
fn duration_tag(bs: &[u8], j: usize, name: &Vec<u8>) -> (r: bool)
    requires
        name@ == duration_name(),
    ensures
        r == duration_tag_at(bs@, j as int),
{
    let n = bs.len();
    if j == 0 || j >= n || n - j <= 8 || !bytes_match(bs, j, name) {
        return false;
    }
    let after = bs[j + 8];
    if !(is_xml_space(after) || after == 0x3E || after == 0x2F) {
        return false;
    }
    let before = bs[j - 1];
    if before == 0x3C {
        return true;
    }
    before == 0x3A && j >= 2 && opens_tag_before(bs, j - 2)
}

/// The index of the `>` closing the tag from `k` on (`tag_end`).
fn tag_end_from(bs: &[u8], k: usize) -> (r: usize)
    requires
        k <= bs@.len(),
    ensures
        r as int == tag_end(bs@, k as int, 0),
        k <= r <= bs@.len(),
{
    let n = bs.len();
    let mut p = k;
    let mut q: u8 = 0;
    while p < n
        invariant
            n == bs@.len(),
            k <= p <= n,
            tag_end(bs@, k as int, 0) == tag_end(bs@, p as int, q),
        decreases n - p,
    {
        let b = bs[p];
        if q == 0 {
            if b == 0x3E {
                return p;
            }
            if b == 0x22 || b == 0x27 {
                q = b;
            }
        } else if b == q {
            q = 0;
        }
        p = p + 1;
    }
    n
}

/// Whether the text from `i` on is a hazard (`text_hazard` from a fresh start).
fn text_hazard_from(bs: &[u8], i: usize, open: &Vec<u8>, close: &Vec<u8>, amp_hash: &Vec<u8>) -> (r: bool)
    requires
        open@ == cdata_open(),
        close@ == cdata_close(),
        amp_hash@ == char_ref(),
    ensures
        r == text_hazard(bs@, i as int, 0, false),
{
    let n = bs.len();
    let mut p = i;
    let mut run: usize = 0;
    let mut cdata = false;
    proof {
        assert(cdata_open().len() == 9);
        assert(cdata_close().len() == 3);
    }
    while p < n
        invariant
            n == bs@.len(),
            run < 16,
            text_hazard(bs@, i as int, 0, false) == text_hazard(bs@, p as int, run as int, cdata),
            open@ == cdata_open(),
            close@ == cdata_close(),
            amp_hash@ == char_ref(),
            cdata_open().len() == 9,
            cdata_close().len() == 3,
        decreases n - p,
    {
        let b = bs[p];
        proof {
            assert(bs@[p as int] == b);
        }
        if cdata {
            if bytes_match(bs, p, close) {
                p = p + 3;
                cdata = false;
            } else if b >= 0x80 {
                return true;
            } else if 0x30 <= b && b <= 0x39 {
                if run + 1 >= 16 {
                    return true;
                }
                run = run + 1;
                p = p + 1;
            } else {
                run = 0;
                p = p + 1;
            }
        } else if bytes_match(bs, p, open) {
            p = p + 9;
            cdata = true;
        } else if b == 0x3C {
            return p + 1 < n && (bs[p + 1] == 0x21 || bs[p + 1] == 0x3F);
        } else if b >= 0x80 || bytes_match(bs, p, amp_hash) {
            return true;
        } else if 0x30 <= b && b <= 0x39 {
            if run + 1 >= 16 {
                return true;
            }
            run = run + 1;
            p = p + 1;
        } else {
            run = 0;
            p = p + 1;
        }
    }
    false
}

/// Whether the `duration` start tag at `j` is followed by a hazard.
fn duration_hazard(bs: &[u8], j: usize, name: &Vec<u8>, open: &Vec<u8>, close: &Vec<u8>, amp_hash: &Vec<u8>) -> (r: bool)
    requires
        name@ == duration_name(),
        open@ == cdata_open(),
        close@ == cdata_close(),
        amp_hash@ == char_ref(),
    ensures
        r == duration_hazard_at(bs@, j as int),
{
    if !duration_tag(bs, j, name) {
        return false;
    }
    let n = bs.len();
    assert(j + 8 < n);
    let e = tag_end_from(bs, j + 8);
    if e >= n || bs[e - 1] == 0x2F {
        return false;
    }
    text_hazard_from(bs, e + 1, open, close, amp_hash)
}

/// The first index from `k` on that is not white space.
fn skip_space_from(bs: &[u8], k: usize) -> (r: usize)
    ensures
        r as int == skip_space(bs@, k as int),
{
    let mut p = k;
    while p < bs.len() && is_xml_space(bs[p])
        invariant
            k <= p,
            skip_space(bs@, k as int) == skip_space(bs@, p as int),
        decreases bs.len() - p,
    {
        p = p + 1;
    }
    p
}

/// Whether the rest of a value quoted by `q` from `i` on is a hazard.
fn value_hazard_from(bs: &[u8], i: usize, q: u8, amp_hash: &Vec<u8>) -> (r: bool)
    requires
        amp_hash@ == char_ref(),
    ensures
        r == value_hazard(bs@, i as int, q, 0),
{
    let n = bs.len();
    let mut p = i;
    let mut run: usize = 0;
    while p < n
        invariant
            n == bs@.len(),
            run < 16,
            value_hazard(bs@, i as int, q, 0) == value_hazard(bs@, p as int, q, run as int),
            amp_hash@ == char_ref(),
        decreases n - p,
    {
        let b = bs[p];
        proof {
            assert(bs@[p as int] == b);
        }
        if b == q {
            return false;
        }
        if b >= 0x80 || bytes_match(bs, p, amp_hash) {
            return true;
        }
        if 0x30 <= b && b <= 0x39 {
            if run + 1 >= 16 {
                return true;
            }
            run = run + 1;
        } else {
            run = 0;
        }
        p = p + 1;
    }
    false
}

/// Whether an attribute named `name` at `i` has a hazardous value.
fn attr_hazard(bs: &[u8], i: usize, name: &Vec<u8>, amp_hash: &Vec<u8>) -> (r: bool)
    requires
        amp_hash@ == char_ref(),
    ensures
        r == attr_hazard_at(bs@, i as int, name@),
{
    if !bytes_match(bs, i, name) {
        return false;
    }
    if i > 0 && is_qname_byte(bs[i - 1]) {
        return false;
    }
    let e = skip_space_from(bs, i + name.len());
    if e >= bs.len() || bs[e] != 0x3D {
        return false;
    }
    let v = skip_space_from(bs, e + 1);
    if v >= bs.len() {
        return false;
    }
    let q = bs[v];
    if q != 0x22 && q != 0x27 {
        return false;
    }
    value_hazard_from(bs, v + 1, q, amp_hash)
}

/// Whether the document is refused before parsing (`time_value_hazard`).
pub fn time_value_hazard_in(bs: &[u8]) -> (r: bool)
    ensures
        r == time_value_hazard(bs@),
{
    let n = bs.len();
    let mut i: usize = 0;
    let mut bad = false;
    while i < n
        invariant
            n == bs@.len(),
            i <= n,
            bad == exists|j: int| 0 <= j < i && (bs@[j] == 0u8 || bs@[j] == 0x1Bu8),
        decreases n - i,
    {
        let b = bs[i];
        proof {
            assert(bs@[i as int] == b);
        }
        bad = bad || b == 0 || b == 0x1B;
        i = i + 1;
    }
    if bad {
        proof {
            let j = choose|j: int| 0 <= j < n && (bs@[j] == 0u8 || bs@[j] == 0x1Bu8);
            if bs@[j] == 0u8 {
                assert(bs@.contains(0u8));
            } else {
                assert(bs@.contains(0x1Bu8));
            }
        }
        return true;
    }
    let duration: Vec<u8> = vec![0x64, 0x75, 0x72, 0x61, 0x74, 0x69, 0x6F, 0x6E];
    let start: Vec<u8> = vec![0x73, 0x74, 0x61, 0x72, 0x74];
    let end: Vec<u8> = vec![0x65, 0x6E, 0x64];
    let time: Vec<u8> = vec![0x74, 0x69, 0x6D, 0x65];
    let open: Vec<u8> = vec![0x3C, 0x21, 0x5B, 0x43, 0x44, 0x41, 0x54, 0x41, 0x5B];
    let close: Vec<u8> = vec![0x5D, 0x5D, 0x3E];
    let amp_hash: Vec<u8> = vec![0x26, 0x23];
    proof {
        assert(duration@ =~= duration_name());
        assert(start@ =~= start_name());
        assert(end@ =~= end_name());
        assert(time@ =~= time_name());
        assert(open@ =~= cdata_open());
        assert(close@ =~= cdata_close());
        assert(amp_hash@ =~= char_ref());
    }
    let mut j: usize = 0;
    while j < n
        invariant
            n == bs@.len(),
            duration@ == duration_name(),
            start@ == start_name(),
            end@ == end_name(),
            time@ == time_name(),
            open@ == cdata_open(),
            close@ == cdata_close(),
            amp_hash@ == char_ref(),
            forall|k: int| 0 <= k < j ==> !duration_hazard_at(bs@, k),
            forall|k: int| 0 <= k < j ==> !attr_hazard_at(bs@, k, start_name()),
            forall|k: int| 0 <= k < j ==> !attr_hazard_at(bs@, k, end_name()),
            forall|k: int| 0 <= k < j ==> !attr_hazard_at(bs@, k, time_name()),
        decreases n - j,
    {
        if duration_hazard(bs, j, &duration, &open, &close, &amp_hash) || attr_hazard(
            bs,
            j,
            &start,
            &amp_hash,
        ) || attr_hazard(bs, j, &end, &amp_hash) || attr_hazard(bs, j, &time, &amp_hash) {
            return true;
        }
        j = j + 1;
    }
    proof {
        assert(!bs@.contains(0u8));
        assert(!bs@.contains(0x1Bu8));
    }
    false
}

// ---------------------------------------------------------------------------
// Parsing
// ---------------------------------------------------------------------------

/// An entry of a parsed document as values. Its id is `None` where the
/// parser makes one up at random (an entry with neither an id nor a link).
pub struct EntryDoc {
    pub id: Option<Seq<char>>,
    pub title: Option<Seq<char>>,
    pub links: Seq<LinkView>,
    pub published: Option<i64>,
    pub updated: Option<i64>,
    pub summary: Option<Seq<char>>,
    pub content: Option<Seq<char>>,
}

/// A parsed document as values.
pub struct DocView {
    pub title: Option<Seq<char>>,
    pub links: Seq<LinkView>,
    pub entries: Seq<EntryDoc>,
}

/// What feed-rs reads from the bytes of a document: its title, links and
/// entries (times as seconds since the epoch), or the parser's message.
pub uninterp spec fn feed_doc(bytes: Seq<u8>) -> Result<DocView, Seq<char>>;

/// A parsed entry agrees with the document's: the same fields, and the same
/// id unless the parser made it up.
pub open spec fn entry_agrees(e: EntryView, d: EntryDoc) -> bool {
    &&& (d.id matches Some(id) ==> e.id == id)
    &&& e.title == d.title
    &&& e.links == d.links
    &&& e.published == d.published
    &&& e.updated == d.updated
    &&& e.summary == d.summary
    &&& e.content == d.content
}

/// A parsed feed agrees with the document's, entry by entry.
pub open spec fn doc_agrees(f: FeedView, d: DocView) -> bool {
    &&& f.title == d.title
    &&& f.links == d.links
    &&& f.entries.len() == d.entries.len()
    &&& forall|k: int| 0 <= k < f.entries.len() ==> entry_agrees(f.entries[k], d.entries[k])
}

/// `feed_rs::model::Link`, a link of a parsed feed or entry, carried to
/// `raw_links`.
#[verifier::external_type_specification]
#[verifier::external_body]
pub struct ExFeedLink(Link);

/// Links of a parsed feed or entry (`feed_rs::model::Link`) as plain
/// values, one for one and in order: the part of `parse_document`'s
/// conversion shared by the feed and its entries.
#[verifier::external_body]
fn raw_links(v: Vec<Link>) -> (r: Vec<RawLink>) {
    v.into_iter().map(|l| RawLink { href: l.href, rel: l.rel }).collect()
}

/// `feed_rs::parser::parse` on `bytes`, the parsed feed converted to plain
/// values: the document's named reading, up to the ids the parser makes up
/// at random, or its message. Documents that make the parser panic are
/// shut out.
#[verifier::external_body]
fn parse_document(bytes: &[u8]) -> (r: Result<RawFeed, String>)
    requires
        !time_value_hazard(bytes@),
    ensures
        match (r, feed_doc(bytes@)) {
            (Ok(f), Ok(d)) => doc_agrees(f@, d),
            (Err(e), Err(m)) => e@ == m,
            _ => false,
        },
{
    let f = read_feed(bytes).map_err(|e| e.to_string())?;
    Ok(RawFeed { title: f.title.map(|t| t.content), links: raw_links(f.links), entries: f.entries
        .into_iter().map(|e| RawEntry { id: e.id, title: e.title.map(|t| t.content),
        links: raw_links(e.links), published: e.published.map(|d| d.timestamp()),
        updated: e.updated.map(|d| d.timestamp()), summary: e.summary.map(|t| t.content),
        content: e.content.and_then(|c| c.body) }).collect() })
}

/// The message for a document refused before parsing.
pub open spec fn refused_message() -> Seq<char> {
    "parse error: a time value in this feed cannot be read"@
}

/// Parse a downloaded feed document and read it into stories: the stories
/// `from_parsed` reads from the document's parsed feed. A document with a
/// time value that could hold digits the parser cannot convert, or in
/// UTF-16 or ISO-2022, is refused first (`time_value_hazard`); a parse
/// failure is reported as `parse error: ` and the parser's message.
pub fn parse_feed(bytes: &[u8], source_url: &str) -> (r: Result<FetchedFeed, String>)
    ensures
        time_value_hazard(bytes@) ==> (r matches Err(e) && e@ == refused_message()),
        !time_value_hazard(bytes@) ==> match (r, feed_doc(bytes@)) {
            (Ok(f), Ok(d)) => exists|raw: FeedView| doc_agrees(raw, d) && f@ == fetched(raw, source_url@),
            (Err(e), Err(m)) => e@ == "parse error: "@ + m,
            _ => false,
        },
{
    if time_value_hazard_in(bytes) {
        return Err(owned("parse error: a time value in this feed cannot be read"));
    }
    match parse_document(bytes) {
        Ok(raw) => {
            let f = from_parsed(&raw, source_url);
            Ok(f)
        },
        Err(msg) => {
            let mut e = String::new();
            push_str(&mut e, "parse error: ");
            push_str(&mut e, msg.as_str());
            Err(e)
        },
    }
}

/// What a finished request's status means: nothing for a success (a code
/// in 200..300), else the feed's error: `HTTP `, the code, and its reason
/// phrase (`<unknown status code>` when it has none).
pub open spec fn status_text(code: u16, reason: Option<Seq<char>>) -> Option<Seq<char>> {
    if 200 <= code < 300 {
        None
    } else {
        Some(
            "HTTP "@ + digits(code as nat) + " "@ + match reason {
                Some(r) => r,
                None => "<unknown status code>"@,
            },
        )
    }
}

/// The error for a request that finished with status `code` (and the code's
/// reason phrase, where it has one); `None` when it succeeded.
pub fn status_error(code: u16, reason: Option<&str>) -> (r: Option<String>)
    ensures
        opt_view(r) == status_text(code, opt_str_view(reason)),
{
    if 200 <= code && code < 300 {
        return None;
    }
    let mut e = owned("HTTP ");
    let n = u64_text(code as u64);
    push_str(&mut e, n.as_str());
    push_str(&mut e, " ");
    match reason {
        Some(r) => push_str(&mut e, r),
        None => push_str(&mut e, "<unknown status code>"),
    }
    Some(e)
}

/// Why a typed feed URL was refused.
#[derive(Debug, Clone, Copy, PartialEq, Eq)]
pub enum UrlError {
    /// Nothing but whitespace was typed.
    Empty,
}

impl UrlError {
    /// The message shown in the status line.
    pub fn message(&self) -> (r: String)
        ensures
            r@ == "feed URL is empty"@,
    {
        let mut s = String::new();
        push_str(&mut s, "feed URL is empty");
        s
    }
}

/// The URL stored for typed text: trimmed, with `https://` put in front unless
/// it already starts with `http://` or `https://`.
pub open spec fn normalized(raw: Seq<char>) -> Seq<char> {
    let t = trim(raw);
    if starts(t, "http://"@) || starts(t, "https://"@) {
        t
    } else {
        "https://"@ + t
    }
}

/// Turn typed text into a feed URL.
pub fn normalize_url(raw: &str) -> (r: Result<String, UrlError>)
    ensures
        (r is Err) <==> trim(raw@).len() == 0,
        r matches Ok(u) ==> u@ == normalized(raw@),
{
    let trimmed = trim_str(raw);
    if trimmed.as_str().is_empty() {
        return Err(UrlError::Empty);
    }
    if str_starts_with(trimmed.as_str(), "http://") || str_starts_with(
        trimmed.as_str(),
        "https://",
    ) {
        Ok(trimmed)
    } else {
        let mut url = String::new();
        push_str(&mut url, "https://");
        push_str(&mut url, trimmed.as_str());
        Ok(url)
    }
}

/// A normalized URL always names `http` or `https`, and normalizing it
/// again changes nothing.
pub proof fn law_normalize_is_stable(raw: Seq<char>)
    requires
        trim(raw).len() > 0,
    ensures
        starts(normalized(raw), "http://"@) || starts(normalized(raw), "https://"@),
        trim(normalized(raw)).len() > 0,
        normalized(normalized(raw)) == normalized(raw),
{
    reveal_strlit("http://");
    reveal_strlit("https://");
    let t = trim(raw);
    lemma_trim_shape(raw);
    let u = normalized(raw);
    if !(starts(t, "http://"@) || starts(t, "https://"@)) {
        assert(u == "https://"@ + t);
        assert(u[0] == 'h');
        assert(u.last() == t.last());
        assert(u.take(8) =~= "https://"@);
    }
    lemma_trim_fixed(u);
}

/// A story's time is the entry's publication time; the update time stands
/// in only when the entry has no publication time.
pub proof fn law_story_time_is_published(e: EntryView)
    ensures
        e.published is Some ==> entry_story(e).published == e.published,
        e.published is None ==> entry_story(e).published == e.updated,
{
}

/// A story keeps the entry's id as its guid when the id is not blank; a
/// blank id gives way to the story's link, then to its title.
pub proof fn law_story_guid(e: EntryView)
    ensures
        trim(e.id).len() > 0 ==> entry_story(e).guid == e.id,
        trim(e.id).len() == 0 ==> entry_story(e).guid == match entry_story(e).url {
            Some(u) => u,
            None => entry_story(e).title,
        },
{
}

} // verus!

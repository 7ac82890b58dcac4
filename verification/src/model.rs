//! Feeds, stories and the catalogue of popular feeds.
use vstd::prelude::*;
use crate::html::{longest, longest_html, looks_empty, one_line_text, opt_str_view, opt_view};
use crate::text::{
    contains_char, has_sub, lowercase, starts, str_contains, str_eq, str_starts_with, to_lowercase,
    trim, trim_str,
};

verus! {

/// A subscribed feed, with its count of unread stories.
#[derive(Debug, Clone)]
pub struct Feed {
    pub id: i64,
    pub url: String,
    pub title: String,
    pub last_fetched: Option<i64>,
    pub error: Option<String>,
    pub unread: i64,
}

/// A stored story, as listed in the stories pane.
#[derive(Debug, Clone)]
pub struct Article {
    pub id: i64,
    pub feed_title: String,
    pub title: String,
    pub url: Option<String>,
    pub published: Option<i64>,
    pub summary: Option<String>,
    pub content: Option<String>,
    pub is_read: bool,
}

/// The body a story offers for reading, as characters.
pub open spec fn body_text(a: Article) -> Seq<char> {
    match longest(opt_view(a.content), opt_view(a.summary)) {
        Some(b) => b,
        None => Seq::empty(),
    }
}

/// The borrowed form of an optional string.
fn opt_str(o: &Option<String>) -> (r: Option<&str>)
    ensures
        opt_str_view(r) == opt_view(*o),
{
    match o {
        Some(s) => Some(s.as_str()),
        None => None,
    }
}

impl Article {
    /// Prefer the longest text the feed actually sent (full content, then
    /// description). Many RSS feeds only include a headline.
    pub fn body_html(&self) -> (r: &str)
        ensures
            r@ == body_text(*self),
    {
        match longest_html(opt_str(&self.content), opt_str(&self.summary)) {
            Some(b) => b,
            None => {
                proof {
                    reveal_strlit("");
                }
                ""
            },
        }
    }

    /// Whether the story has any text besides its headline.
    pub fn has_body(&self) -> (r: bool)
        ensures
            r == (one_line_text(body_text(*self)).len() > 0),
    {
        !looks_empty(self.body_html())
    }
}

/// A story as read from a feed, before it is stored.
#[derive(Debug, Clone)]
pub struct NewArticle {
    pub guid: String,
    pub title: String,
    pub url: Option<String>,
    pub published: Option<i64>,
    pub summary: Option<String>,
    pub content: Option<String>,
}

/// A popular public feed the user can pick from in the add-feed dialog.
#[derive(Debug, Clone, Copy, PartialEq, Eq)]
pub struct CatalogFeed {
    pub name: &'static str,
    pub url: &'static str,
    pub kind: &'static str,
}

/// The feeds a new database starts with: `(url, title)` pairs.
pub open spec fn default_feeds_spec() -> Seq<(&'static str, &'static str)> {
    seq![
        ("https://news.ycombinator.com/rss", "Hacker News"),
        ("https://feeds.bbci.co.uk/news/world/rss.xml", "BBC World"),
        ("https://blog.rust-lang.org/feed.xml", "Rust Blog"),
        ("https://lobste.rs/rss", "Lobsters"),
        ("https://www.theverge.com/rss/index.xml", "The Verge"),
    ]
}

/// The feeds a new database starts with: `(url, title)` pairs.
pub fn default_feeds() -> (r: Vec<(&'static str, &'static str)>)
    ensures
        r@ == default_feeds_spec(),
{
    let mut v = Vec::new();
    v.push(("https://news.ycombinator.com/rss", "Hacker News"));
    v.push(("https://feeds.bbci.co.uk/news/world/rss.xml", "BBC World"));
    v.push(("https://blog.rust-lang.org/feed.xml", "Rust Blog"));
    v.push(("https://lobste.rs/rss", "Lobsters"));
    v.push(("https://www.theverge.com/rss/index.xml", "The Verge"));
    assert(v@ =~= default_feeds_spec());
    v
}

/// One catalogue entry.
pub open spec fn entry(name: &'static str, url: &'static str, kind: &'static str) -> CatalogFeed {
    CatalogFeed { name, url, kind }
}

/// Popular public feeds, in the order the add-feed dialog lists them.
pub open spec fn catalog_spec() -> Seq<CatalogFeed> {
    seq![
        entry("Hacker News", "https://news.ycombinator.com/rss", "tech"),
        entry("Lobsters", "https://lobste.rs/rss", "tech"),
        entry("Rust Blog", "https://blog.rust-lang.org/feed.xml", "tech"),
        entry("This Week in Rust", "https://this-week-in-rust.org/atom.xml", "tech"),
        entry("LWN", "https://lwn.net/headlines/rss", "tech"),
        entry("Ars Technica", "https://feeds.arstechnica.com/arstechnica/index", "tech"),
        entry("The Verge", "https://www.theverge.com/rss/index.xml", "tech"),
        entry("Wired", "https://www.wired.com/feed/rss", "tech"),
        entry("BBC World", "https://feeds.bbci.co.uk/news/world/rss.xml", "news"),
        entry("NPR News", "https://feeds.npr.org/1001/rss.xml", "news"),
        entry("The Guardian World", "https://www.theguardian.com/world/rss", "news"),
        entry("Al Jazeera", "https://www.aljazeera.com/xml/rss/all.xml", "news"),
        entry("CNN Top", "https://rss.cnn.com/rss/edition.rss", "news"),
        entry("NASA Breaking News", "https://www.nasa.gov/rss/dyn/breaking_news.rss", "science"),
        entry("Krebs on Security", "https://krebsonsecurity.com/feed/", "security"),
        entry("xkcd", "https://xkcd.com/rss.xml", "comics"),
    ]
}

fn feed_entry(name: &'static str, url: &'static str, kind: &'static str) -> (r: CatalogFeed)
    ensures
        r == entry(name, url, kind),
{
    CatalogFeed { name, url, kind }
}

/// Popular public feeds the user can pick from in the add-feed dialog.
pub fn catalog() -> (r: Vec<CatalogFeed>)
    ensures
        r@ == catalog_spec(),
{
    let mut v = Vec::new();
    v.push(feed_entry("Hacker News", "https://news.ycombinator.com/rss", "tech"));
    v.push(feed_entry("Lobsters", "https://lobste.rs/rss", "tech"));
    v.push(feed_entry("Rust Blog", "https://blog.rust-lang.org/feed.xml", "tech"));
    v.push(feed_entry("This Week in Rust", "https://this-week-in-rust.org/atom.xml", "tech"));
    v.push(feed_entry("LWN", "https://lwn.net/headlines/rss", "tech"));
    v.push(
        feed_entry("Ars Technica", "https://feeds.arstechnica.com/arstechnica/index", "tech"),
    );
    v.push(feed_entry("The Verge", "https://www.theverge.com/rss/index.xml", "tech"));
    v.push(feed_entry("Wired", "https://www.wired.com/feed/rss", "tech"));
    v.push(feed_entry("BBC World", "https://feeds.bbci.co.uk/news/world/rss.xml", "news"));
    v.push(feed_entry("NPR News", "https://feeds.npr.org/1001/rss.xml", "news"));
    v.push(feed_entry("The Guardian World", "https://www.theguardian.com/world/rss", "news"));
    v.push(feed_entry("Al Jazeera", "https://www.aljazeera.com/xml/rss/all.xml", "news"));
    v.push(feed_entry("CNN Top", "https://rss.cnn.com/rss/edition.rss", "news"));
    v.push(
        feed_entry(
            "NASA Breaking News",
            "https://www.nasa.gov/rss/dyn/breaking_news.rss",
            "science",
        ),
    );
    v.push(feed_entry("Krebs on Security", "https://krebsonsecurity.com/feed/", "security"));
    v.push(feed_entry("xkcd", "https://xkcd.com/rss.xml", "comics"));
    assert(v@ =~= catalog_spec());
    v
}

/// Text that reads as a URL rather than a search: it has a scheme, starts
/// with `www.`, or holds both a dot and a slash (after trimming).
pub open spec fn url_like(raw: Seq<char>) -> bool {
    let t = trim(raw);
    has_sub(t, "://"@) || starts(t, "www."@) || (t.contains('.') && t.contains('/'))
}

/// Whether pasted text looks like a feed URL rather than a search.
pub fn looks_like_feed_url(raw: &str) -> (r: bool)
    ensures
        r == url_like(raw@),
{
    let t = trim_str(raw);
    str_contains(t.as_str(), "://") || str_starts_with(t.as_str(), "www.") || (contains_char(
        t.as_str(),
        '.',
    ) && contains_char(t.as_str(), '/'))
}

/// The views of a slice of string slices.
pub open spec fn str_views(v: Seq<&str>) -> Seq<Seq<char>> {
    v.map_values(|s: &str| s@)
}

/// Whether the catalogue entry `f` is offered for `query` when `subscribed`
/// are the URLs already subscribed: never an entry already subscribed; when
/// the query is a search word (not empty, not URL-like), only entries whose
/// lower-cased name, kind or URL contains the lower-cased, trimmed query.
pub open spec fn offered(f: CatalogFeed, query: Seq<char>, subscribed: Seq<Seq<char>>) -> bool {
    let q = lowercase(trim(query));
    let searching = q.len() > 0 && !url_like(query);
    &&& !subscribed.contains(f.url@)
    &&& (!searching || has_sub(lowercase(f.name@), q) || has_sub(lowercase(f.kind@), q) || has_sub(
        lowercase(f.url@),
        q,
    ))
}

/// The catalogue entries offered for `query`, in catalogue order.
pub open spec fn suggestions(query: Seq<char>, subscribed: Seq<Seq<char>>) -> Seq<CatalogFeed> {
    catalog_spec().filter(|f: CatalogFeed| offered(f, query, subscribed))
}

fn is_subscribed(url: &str, subscribed_urls: &[&str]) -> (r: bool)
    ensures
        r == str_views(subscribed_urls@).contains(url@),
{
    let n = subscribed_urls.len();
    let mut j: usize = 0;
    while j < n
        invariant
            j <= n == subscribed_urls@.len(),
            forall|k: int| 0 <= k < j ==> subscribed_urls@[k]@ != url@,
        decreases n - j,
    {
        if str_eq(subscribed_urls[j], url) {
            assert(str_views(subscribed_urls@)[j as int] == url@);
            return true;
        }
        j = j + 1;
    }
    proof {
        if str_views(subscribed_urls@).contains(url@) {
            let k = choose|k: int|
                0 <= k < str_views(subscribed_urls@).len() && str_views(subscribed_urls@)[k]
                    == url@;
            assert(subscribed_urls@[k]@ == url@);
        }
    }
    false
}

/// Whether a search word matches a catalogue entry, all lower-cased: the
/// query occurs in the entry's name, kind or URL.
pub fn lowered_match(name: &str, kind: &str, url: &str, q: &str) -> (r: bool)
    ensures
        r == (has_sub(name@, q@) || has_sub(kind@, q@) || has_sub(url@, q@)),
{
    str_contains(name, q) || str_contains(kind, q) || str_contains(url, q)
}

/// Popular feeds to offer for what the user typed, hiding the subscribed ones.
pub fn catalog_suggestions(query: &str, subscribed_urls: &[&str]) -> (r: Vec<CatalogFeed>)
    ensures
        r@ == suggestions(query@, str_views(subscribed_urls@)),
{
    let t = trim_str(query);
    let q = to_lowercase(t.as_str());
    let searching = !q.as_str().is_empty() && !looks_like_feed_url(query);
    let all = catalog();
    let ghost sub = str_views(subscribed_urls@);
    let ghost pred = |f: CatalogFeed| offered(f, query@, sub);
    let mut out: Vec<CatalogFeed> = Vec::new();
    let n = all.len();
    let mut i: usize = 0;
    while i < n
        invariant
            i <= n == all@.len(),
            all@ == catalog_spec(),
            sub == str_views(subscribed_urls@),
            pred == (|f: CatalogFeed| offered(f, query@, sub)),
            q@ == lowercase(trim(query@)),
            searching == (q@.len() > 0 && !url_like(query@)),
            out@ == all@.take(i as int).filter(pred),
        decreases n - i,
    {
        let f = all[i];
        let keep = if is_subscribed(f.url, subscribed_urls) {
            false
        } else if !searching {
            true
        } else {
            let name = to_lowercase(f.name);
            let kind = to_lowercase(f.kind);
            let url = to_lowercase(f.url);
            lowered_match(name.as_str(), kind.as_str(), url.as_str(), q.as_str())
        };
        proof {
            assert(keep == pred(f));
            assert(all@.take(i + 1).drop_last() == all@.take(i as int));
            assert(all@.take(i + 1).last() == f);
            reveal_with_fuel(Seq::<_>::filter, 1);
        }
        if keep {
            out.push(f);
        }
        i = i + 1;
    }
    proof {
        assert(all@.take(n as int) == all@);
    }
    out
}

/// The add-feed dialog never offers a feed that is already subscribed; for
/// an empty or URL-like query it offers every catalogue feed that is not.
pub proof fn law_catalog_hides_subscribed(query: Seq<char>, subscribed: Seq<Seq<char>>)
    ensures
        forall|i: int|
            0 <= i < suggestions(query, subscribed).len() ==> !subscribed.contains(
                (#[trigger] suggestions(query, subscribed)[i]).url@,
            ),
        (lowercase(trim(query)).len() == 0 || url_like(query)) ==> forall|i: int|
            0 <= i < catalog_spec().len() && !subscribed.contains(
                (#[trigger] catalog_spec()[i]).url@,
            ) ==> suggestions(query, subscribed).contains(catalog_spec()[i]),
{
    broadcast use vstd::seq_lib::group_filter_ensures;

    let pred = |f: CatalogFeed| offered(f, query, subscribed);
    assert forall|i: int| 0 <= i < suggestions(query, subscribed).len() implies !subscribed.contains(
        (#[trigger] suggestions(query, subscribed)[i]).url@,
    ) by {
        assert(pred(catalog_spec().filter(pred)[i]));
    }
    if lowercase(trim(query)).len() == 0 || url_like(query) {
        assert forall|i: int|
            0 <= i < catalog_spec().len() && !subscribed.contains(
                (#[trigger] catalog_spec()[i]).url@,
            ) implies suggestions(query, subscribed).contains(catalog_spec()[i]) by {
            assert(pred(catalog_spec()[i]));
        }
    }
}

/// The add-feed dialog offers every catalogue feed that is not subscribed
/// and matches the search: one whose lower-cased name, kind or URL contains
/// the lower-cased, trimmed query; without a search word (an empty or
/// URL-like query), every one that is not subscribed.
pub proof fn law_search_offers_matches(query: Seq<char>, subscribed: Seq<Seq<char>>, f: CatalogFeed)
    requires
        catalog_spec().contains(f),
        !subscribed.contains(f.url@),
    ensures
        lowercase(trim(query)).len() == 0 ==> suggestions(query, subscribed).contains(f),
        url_like(query) ==> suggestions(query, subscribed).contains(f),
        has_sub(lowercase(f.name@), lowercase(trim(query))) ==> suggestions(query, subscribed).contains(f),
        has_sub(lowercase(f.kind@), lowercase(trim(query))) ==> suggestions(query, subscribed).contains(f),
        has_sub(lowercase(f.url@), lowercase(trim(query))) ==> suggestions(query, subscribed).contains(f),
{
    let pred = |g: CatalogFeed| offered(g, query, subscribed);
    let i = choose|i: int| 0 <= i < catalog_spec().len() && catalog_spec()[i] == f;
    if pred(f) {
        catalog_spec().lemma_filter_contains(pred, i);
    }
}

/// The add-feed dialog offers only catalogue feeds, none already
/// subscribed, and while searching only ones whose lower-cased name, kind
/// or URL contains the lower-cased, trimmed query.
pub proof fn law_search_offers_only_matches(
    query: Seq<char>,
    subscribed: Seq<Seq<char>>,
    f: CatalogFeed,
)
    requires
        suggestions(query, subscribed).contains(f),
    ensures
        catalog_spec().contains(f),
        !subscribed.contains(f.url@),
        lowercase(trim(query)).len() > 0 && !url_like(query) ==> {
            ||| has_sub(lowercase(f.name@), lowercase(trim(query)))
            ||| has_sub(lowercase(f.kind@), lowercase(trim(query)))
            ||| has_sub(lowercase(f.url@), lowercase(trim(query)))
        },
{
    broadcast use vstd::seq_lib::group_filter_ensures;

    let pred = |g: CatalogFeed| offered(g, query, subscribed);
    let s = catalog_spec().filter(pred);
    let k = choose|k: int| 0 <= k < s.len() && s[k] == f;
    assert(pred(s[k]));
    catalog_spec().lemma_filter_contains_rev(pred, f);
}

} // verus!

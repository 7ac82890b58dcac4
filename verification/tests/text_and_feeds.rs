use tui_news::fetch::{
    entry_to_article, from_parsed, normalize_url, parse_feed, status_error, time_value_hazard_in,
    RawEntry, RawFeed,
    RawLink, UrlError,
};
use tui_news::html::{decode_basic, html_to_text, one_line, strip_tags};
use tui_news::model::{
    catalog, catalog_suggestions, default_feeds, looks_like_feed_url, lowered_match, Article,
};
use tui_news::store::{new_rows, story_query, unread_for, SqlArg};
use tui_news::timefmt::{relative, wire_clock};

const RSS: &str = r#"<?xml version="1.0" encoding="UTF-8"?>
<rss version="2.0">
  <channel>
    <title>Example Feed</title>
    <link>https://example.com/</link>
    <item>
      <title>Hello &amp; welcome</title>
      <link>https://example.com/hello</link>
      <guid>hello-1</guid>
      <pubDate>Mon, 06 Sep 2010 00:01:00 +0000</pubDate>
      <description><![CDATA[<p>First <em>story</em>.</p>]]></description>
    </item>
    <item>
      <title></title>
      <link>https://example.com/empty</link>
      <guid>empty-1</guid>
    </item>
  </channel>
</rss>"#;

#[test]
fn parses_rss_items() {
    let fetched = parse_feed(RSS.as_bytes(), "https://example.com/rss").unwrap();
    assert_eq!(fetched.title, "Example Feed");
    assert_eq!(fetched.site_url.as_deref(), Some("https://example.com/"));
    assert_eq!(fetched.articles.len(), 2);
    assert_eq!(fetched.articles[0].title, "Hello & welcome");
    assert_eq!(
        fetched.articles[0].url.as_deref(),
        Some("https://example.com/hello")
    );
    assert!(fetched.articles[0].published.is_some());
    assert_eq!(fetched.articles[1].title, "(untitled)");
}

#[test]
fn normalize_adds_https() {
    assert_eq!(
        normalize_url("example.com/feed.xml").unwrap(),
        "https://example.com/feed.xml"
    );
    assert!(normalize_url("   ").is_err());
}

#[test]
fn converts_list_html() {
    let html = "<ul><li>Item one</li><li>Item two</li></ul>";
    let text = html_to_text(html, 40);
    assert!(text.contains("Item one"), "{text}");
    assert!(text.contains("Item two"), "{text}");
}

#[test]
fn one_line_strips_markup() {
    assert_eq!(one_line("<b>Hello</b> world"), "Hello world");
}

#[test]
fn empty_html_is_empty() {
    assert!(html_to_text("   ", 80).is_empty());
}

#[test]
fn strip_tags_keeps_text() {
    assert_eq!(strip_tags("<p>Hello <em>there</em></p>"), "Hello there");
}

#[test]
fn catalog_hides_subscribed_and_filters() {
    let subscribed = ["https://news.ycombinator.com/rss"];
    let all = catalog_suggestions("", &subscribed);
    assert!(all.iter().all(|f| f.name != "Hacker News"));
    assert!(all.iter().any(|f| f.name == "NPR News"));

    let npr = catalog_suggestions("npr", &subscribed);
    assert_eq!(npr.len(), 1);
    assert_eq!(npr[0].name, "NPR News");
}

#[test]
fn url_paste_is_not_treated_as_search() {
    let hits = catalog_suggestions("https://example.com/rss", &[]);
    assert_eq!(hits.len(), catalog().len());
    assert!(looks_like_feed_url("https://example.com/feed.xml"));
    assert!(!looks_like_feed_url("guardian"));
}

#[test]
fn relative_buckets() {
    let now = 1_700_000_000;
    assert_eq!(relative(now - 10, now), "now");
    assert_eq!(relative(now - 5 * 60, now), "5m");
    assert_eq!(relative(now - 3 * 3600, now), "3h");
    assert_eq!(relative(now - 2 * 86400, now), "2d");
}

#[test]
fn future_is_now() {
    assert_eq!(relative(100, 50), "now");
}

// ---------------------------------------------------------------------------

#[test]
fn old_stories_show_their_date() {
    assert_eq!(relative(1_700_000_000, 1_800_000_000), "2023-11-14");
}

#[test]
fn relative_at_the_ends_of_time() {
    assert_eq!(relative(i64::MIN, i64::MAX), "-9223372036854775808");
    assert_eq!(relative(i64::MAX, i64::MIN), "now");
}

#[test]
fn wire_clock_reads_upper_case() {
    assert_eq!(wire_clock(0).as_deref(), Some("THU 01 JAN 1970  00:00"));
    assert_eq!(wire_clock(1_787_754_720).as_deref(), Some("WED 26 AUG 2026  14:32"));
}

#[test]
fn normalize_keeps_http_and_trims() {
    assert_eq!(normalize_url("  http://a.b/rss  ").unwrap(), "http://a.b/rss");
    assert_eq!(normalize_url("https://a.b").unwrap(), "https://a.b");
}

#[test]
fn normalize_is_stable() {
    let once = normalize_url("  lobste.rs/rss ").unwrap();
    let twice = normalize_url(&once).unwrap();
    assert_eq!(once, twice);
    assert!(once.starts_with("https://"));
}

#[test]
fn empty_url_error_reads() {
    let e = normalize_url("\t\n ").unwrap_err();
    assert_eq!(e, UrlError::Empty);
    assert_eq!(e.message(), "feed URL is empty");
}

#[test]
fn unparsable_feed_reports_parse_error() {
    let e = parse_feed(b"this is not a feed", "https://example.com/rss").unwrap_err();
    assert!(e.starts_with("parse error: "), "{e}");
}

fn link(href: &str, rel: Option<&str>) -> RawLink {
    RawLink { href: href.into(), rel: rel.map(str::to_string) }
}

fn entry(id: &str, title: Option<&str>, links: Vec<RawLink>) -> RawEntry {
    RawEntry {
        id: id.into(),
        title: title.map(str::to_string),
        links,
        published: None,
        updated: Some(42),
        summary: Some("  ".into()),
        content: Some("<p>body</p>".into()),
    }
}

#[test]
fn feed_without_title_uses_its_url() {
    let raw = RawFeed {
        title: Some(" <b> </b> ".into()),
        links: vec![link("https://x.test/hub", Some("hub")), link("https://x.test/", Some("self"))],
        entries: vec![entry(" ", Some("A"), vec![link("https://x.test/a", None)])],
    };
    let fetched = from_parsed(&raw, "https://x.test/rss");
    assert_eq!(fetched.title, "https://x.test/rss");
    assert_eq!(fetched.site_url.as_deref(), Some("https://x.test/"));
    assert_eq!(fetched.articles.len(), 1);
    assert_eq!(fetched.articles[0].guid, "https://x.test/a");
}

#[test]
fn entry_fields_fall_back_in_order() {
    let e = entry("", None, vec![link("https://x.test/edit", Some("edit")), link("https://x.test/b", Some("enclosure"))]);
    let a = entry_to_article(&e);
    assert_eq!(a.title, "(untitled)");
    assert_eq!(a.url.as_deref(), Some("https://x.test/edit"));
    assert_eq!(a.guid, "https://x.test/edit");
    assert_eq!(a.published, Some(42));
    assert_eq!(a.summary, None);
    assert_eq!(a.content.as_deref(), Some("<p>body</p>"));
    let bare = entry(" ", Some("Only &amp; title"), vec![]);
    let b = entry_to_article(&bare);
    assert_eq!(b.url, None);
    assert_eq!(b.guid, "Only & title");
    let kept = entry("id-7", Some("x"), vec![link("https://x.test/alt", Some("alternate"))]);
    assert_eq!(entry_to_article(&kept).guid, "id-7");
}

#[test]
fn http_status_errors() {
    assert_eq!(status_error(200, Some("OK")), None);
    assert_eq!(status_error(299, None), None);
    assert_eq!(
        status_error(404, Some("Not Found")).as_deref(),
        Some("HTTP 404 Not Found")
    );
    assert_eq!(
        status_error(599, None).as_deref(),
        Some("HTTP 599 <unknown status code>")
    );
}

#[test]
fn one_line_decodes_and_collapses() {
    assert_eq!(one_line("  Tom &amp; Jerry\n\t&lt;3  "), "Tom & Jerry <3");
    assert_eq!(decode_basic("&quot;hi&quot; &#39;x&apos;&nbsp;y"), "\"hi\" 'x' y");
    assert!(!one_line("a\nb\r\nc").contains('\n'));
}

#[test]
fn one_line_twice_is_one_line() {
    for s in ["<b>Hello</b>   world", "  a\n\tb  ", "<p>x < y</p>", "plain"] {
        let once = one_line(s);
        assert_eq!(one_line(&once), once);
    }
}

#[test]
fn stripped_text_holds_no_markup() {
    let s = strip_tags("<div>  a <b>b</b>\n\n c <br/> </div>");
    assert_eq!(s, "a b c");
    assert!(!s.contains('<') && !s.contains('>'));
}

#[test]
fn catalog_search_ignores_case() {
    let hits = catalog_suggestions("  NPR ", &[]);
    assert_eq!(hits.len(), 1);
    assert_eq!(hits[0].url, "https://feeds.npr.org/1001/rss.xml");
    let tech = catalog_suggestions("tech", &[]);
    assert_eq!(tech.len(), 8);
}

#[test]
fn starter_feeds_are_the_five_promised() {
    let titles: Vec<&str> = default_feeds().iter().map(|(_, t)| *t).collect();
    assert_eq!(
        titles,
        vec!["Hacker News", "BBC World", "Rust Blog", "Lobsters", "The Verge"]
    );
}

fn story(content: Option<&str>, summary: Option<&str>) -> Article {
    Article {
        id: 1,
        feed_title: "Example".into(),
        title: "T".into(),
        url: None,
        published: None,
        summary: summary.map(str::to_string),
        content: content.map(str::to_string),
        is_read: false,
    }
}

#[test]
fn body_prefers_the_longer_text() {
    assert_eq!(story(Some("<p>long body</p>"), Some("short")).body_html(), "<p>long body</p>");
    assert_eq!(story(Some("ab"), Some("abc")).body_html(), "abc");
    assert_eq!(story(Some("abc"), Some("xyz")).body_html(), "abc");
    assert_eq!(story(None, None).body_html(), "");
    assert!(story(None, Some("<p>text</p>")).has_body());
    assert!(!story(Some("<p> </p>"), None).has_body());
}

#[test]
fn story_query_binds_in_order() {
    let q = story_query(Some(3), Some("  rust "), true);
    assert_eq!(
        q.sql,
        "SELECT a.id, f.title, a.title, a.url, a.published, a.summary, a.content, a.is_read FROM articles a JOIN feeds f ON f.id = a.feed_id WHERE 1=1 AND a.feed_id = ? AND a.title LIKE ? AND a.is_read = 0 ORDER BY COALESCE(a.published, 0) DESC, a.id DESC LIMIT 500"
    );
    assert_eq!(q.args, vec![SqlArg::Int(3), SqlArg::Text("%rust%".into())]);
    let all = story_query(None, Some("   "), false);
    assert!(all.args.is_empty());
    assert_eq!(
        all.sql,
        "SELECT a.id, f.title, a.title, a.url, a.published, a.summary, a.content, a.is_read FROM articles a JOIN feeds f ON f.id = a.feed_id WHERE 1=1 ORDER BY COALESCE(a.published, 0) DESC, a.id DESC LIMIT 500"
    );
    let search = story_query(None, Some("rust"), false);
    assert!(search.sql.contains(" AND a.title LIKE ? ORDER BY"));
    assert!(!search.sql.contains("summary, '')"));
}

#[test]
fn counts_read_back_from_the_store() {
    assert_eq!(new_rows(3, 5), 2);
    assert_eq!(new_rows(5, 5), 0);
    assert_eq!(new_rows(5, 3), u64::MAX - 1);
    assert_eq!(new_rows(i64::MIN, i64::MAX), i64::MAX as u64);
    assert_eq!(unread_for(&[(1, 5), (2, 7), (1, 9)], 1), 9);
    assert_eq!(unread_for(&[(1, 5), (2, 7)], 2), 7);
    assert_eq!(unread_for(&[(1, 5)], 4), 0);
}

#[test]
fn rendered_html_loses_its_tags() {
    let text = html_to_text("<p>Hello <b>world</b></p>", 40);
    assert!(text.contains("Hello"), "{text}");
    assert!(!text.contains('<'), "{text}");
    assert_eq!(html_to_text("<p>x</p>", 3), html_to_text("<p>x</p>", 20));
}

fn podcast(duration: &str) -> String {
    format!(
        r#"<?xml version="1.0"?><rss version="2.0" xmlns:itunes="http://www.itunes.com/dtds/podcast-1.0.dtd"><channel><title>Cast</title>
      <item><title>Ep</title><link>https://x.test/1</link><itunes:duration>{duration}</itunes:duration></item>
    </channel></rss>"#
    )
}

#[test]
fn plain_durations_are_read() {
    let f = parse_feed(podcast("01:02:03").as_bytes(), "https://x.test/rss").unwrap();
    assert_eq!(f.title, "Cast");
    assert_eq!(f.articles.len(), 1);
    assert!(!time_value_hazard_in(podcast("123456789012345").as_bytes()));
}

#[test]
fn unreadable_time_values_are_refused() {
    let refused = "parse error: a time value in this feed cannot be read";
    for d in [
        "99999999999999999999999",
        "\u{0661}\u{0662}:00:00",
        "1234567890<![CDATA[123456]]>",
        "12<!-- -->34",
        "&#49;",
    ] {
        let doc = podcast(d);
        assert!(time_value_hazard_in(doc.as_bytes()), "{d}");
        assert_eq!(parse_feed(doc.as_bytes(), "https://x.test/rss").unwrap_err(), refused);
    }
    let thumb = r#"<rss version="2.0" xmlns:media="http://search.yahoo.com/mrss/"><channel><title>T</title>
      <item><title>é</title><media:thumbnail url="https://x.test/a.png" time = "١"/></item></channel></rss>"#;
    assert!(time_value_hazard_in(thumb.as_bytes()));
    assert!(time_value_hazard_in(b"<rss>\0</rss>"));
    assert!(time_value_hazard_in(b"<rss>\x1b$B</rss>"));
}

#[test]
fn other_non_ascii_feeds_are_read() {
    let rss = r#"<rss version="2.0"><channel><title>ශ්‍රී ලංකා — news</title>
      <item><title>Café</title><link>https://x.test/c</link><description>starts at the end of 2024</description></item>
    </channel></rss>"#;
    assert!(!time_value_hazard_in(rss.as_bytes()));
    let f = parse_feed(rss.as_bytes(), "https://x.test/rss").unwrap();
    assert_eq!(f.title, "ශ්‍රී ලංකා — news");
    assert_eq!(f.articles[0].title, "Café");
}

#[test]
fn ordinary_podcast_feeds_are_read() {
    let rss = r#"<?xml version="1.0" encoding="UTF-8"?><!-- generator="WordPress" -->
<rss version="2.0" xmlns:itunes="http://www.itunes.com/dtds/podcast-1.0.dtd" xmlns:media="http://search.yahoo.com/mrss/"><channel><title>Café Talk</title>
      <item><title>Let&#8217;s talk</title><link>https://x.test/ep?start=10&amp;end=20</link>
      <itunes:duration>00:45:12</itunes:duration>
      <media:thumbnail url="https://x.test/t.png?time=99" time="12"/></item>
      <item><title>ශ්‍රී ලංකා</title><link>https://x.test/2</link><itunes:duration><![CDATA[3600]]></itunes:duration></item>
    </channel></rss>"#;
    assert!(!time_value_hazard_in(rss.as_bytes()));
    let f = parse_feed(rss.as_bytes(), "https://x.test/rss").unwrap();
    assert_eq!(f.title, "Café Talk");
    assert_eq!(f.articles.len(), 2);
    assert_eq!(f.articles[0].title, "Let\u{2019}s talk");
    assert_eq!(f.articles[1].title, "ශ්‍රී ලංකා");
}

#[test]
fn only_time_value_spans_are_scanned() {
    // The bad digits sit in the title, not in the duration.
    let doc = podcast("1:00:00").replace("<title>Ep</title>", "<title>Ep \u{0661}&#49;</title>");
    assert!(!time_value_hazard_in(doc.as_bytes()));
    assert!(parse_feed(doc.as_bytes(), "https://x.test/rss").is_ok());
    // A bad value in an attribute named `end` is caught, with spaces around `=`.
    let attr = "<rss><channel><media:text end = '1234567890123456'>x</media:text></channel></rss>";
    assert!(time_value_hazard_in(attr.as_bytes()));
    // An end tag named `duration` starts no span.
    let closing = "<rss><a:duration>1</a:duration><b>\u{0661}</b></rss>";
    assert!(!time_value_hazard_in(closing.as_bytes()));
}

#[test]
fn search_matches_any_lowered_field() {
    assert!(lowered_match("hacker news", "tech", "https://news.ycombinator.com/rss", "news"));
    assert!(lowered_match("bbc", "world", "https://x.test", "wor"));
    assert!(lowered_match("bbc", "world", "https://x.test/feed", "x.test"));
    assert!(!lowered_match("bbc", "world", "https://x.test", "tech"));
    assert!(lowered_match("bbc", "world", "https://x.test", ""));
}

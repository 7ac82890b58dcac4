use tui_news::app::Mode;
use tui_news::script::ellipsize_shaped;
use tui_news::ui::{
    centered, feed_row, feed_tag, fetch_badge, footer, kicker_of, kicker_title, render_shaped,
    render_shaped_checked, right_aligned, shaped_body, stories_label, story_suffix, story_when,
    swatch_index, title_height, title_rows, unread_banner, visible_offset, visible_text, Area,
    FooterKind, RowMark, SWATCHES,
};

#[test]
fn ellipsize_short_is_unchanged() {
    assert_eq!(ellipsize_shaped("hello", 10), "hello");
}

#[test]
fn ellipsize_long_adds_ellipsis() {
    assert_eq!(ellipsize_shaped("hello world", 8), "hello w…");
}

#[test]
fn ellipsize_keeps_sinhala_clusters() {
    let title = "ශ්‍රී ලංකාවේ පුවත්";
    let cut = ellipsize_shaped(title, 8);
    assert!(cut.ends_with('…'), "{cut}");
    assert!(
        !cut.trim_end_matches('…').ends_with('\u{0DCA}'),
        "dangling virama: {cut}"
    );
}

#[test]
fn feed_tag_uses_initials() {
    assert_eq!(feed_tag("Hacker News"), "HN");
    assert_eq!(feed_tag("BBC World"), "BW");
    assert_eq!(feed_tag("Lobsters"), "LOB");
}

// ---------------------------------------------------------------------------

#[test]
fn feed_tag_of_short_and_empty_names() {
    assert_eq!(feed_tag("xk"), "XK");
    assert_eq!(feed_tag(""), "");
    assert_eq!(feed_tag("  the   verge  "), "TV");
}

#[test]
fn offset_keeps_the_selection_in_view() {
    assert_eq!(visible_offset(10, 7, 3), 5);
    assert_eq!(visible_offset(10, 2, 3), 0);
    assert_eq!(visible_offset(10, 50, 3), 7);
    assert_eq!(visible_offset(0, 5, 3), 0);
    assert_eq!(visible_offset(10, 5, 0), 0);
    for sel in 0..12 {
        let off = visible_offset(10, sel, 4);
        let shown = sel.min(9);
        assert!(off <= shown && shown < off + 4);
    }
}

#[test]
fn boxes_are_centred_and_clipped() {
    let screen = Area::new(0, 0, 100, 40);
    let b = centered(screen, 74, 18);
    assert_eq!((b.x, b.y, b.width, b.height), (13, 11, 74, 18));
    let small = centered(Area::new(5, 2, 20, 6), 74, 18);
    assert_eq!((small.x, small.y, small.width, small.height), (5, 2, 20, 6));
    let clipped = Area::new(65_000, 0, 1_000, 10);
    assert_eq!(clipped.width, 535);
}

#[test]
fn swatch_follows_the_name_hash() {
    assert_eq!(SWATCHES, 6);
    assert_eq!(swatch_index("Hacker News"), 1);
    assert_eq!(swatch_index("BBC World"), 1);
    assert_eq!(swatch_index(""), 0);
    assert_eq!(swatch_index("Hacker News"), swatch_index("Hacker News"));
}

#[test]
fn title_rows_stay_between_two_and_four() {
    assert_eq!(title_height("hello", 2), 3);
    assert_eq!(title_height("hi", 80), 2);
    assert_eq!(title_height("a long headline over many lines", 5), 4);
    assert_eq!(title_height("x", 0), 2);
    assert_eq!(title_rows("hello", 2), Some(3));
    assert_eq!(title_rows(&"a".repeat(70_000), 80), None);
}

#[test]
fn reader_body_joins_paragraphs() {
    let (body, lines) = shaped_body("<p>Hello</p><p>World</p>", 80);
    assert_eq!(body, "Hello\n\nWorld");
    assert_eq!(lines, 3);
    let (empty, n) = shaped_body("   ", 80);
    assert_eq!(empty, "");
    assert_eq!(n, 1);
}

#[test]
fn visible_text_is_a_window_of_wrapped_lines() {
    assert_eq!(visible_text("one two three four", 5, 1, 2), "wo th\nree f");
    assert_eq!(visible_text("ab cd", 2, 0, 9), "ab\ncd");
    assert_eq!(visible_text("one two", 5, 9, 2), "");
    assert_eq!(visible_text("one two", 5, 0, 0), "");
}

#[test]
fn feed_rows_show_mark_and_count() {
    let r = feed_row("Hacker News", 5, false, 1);
    assert_eq!(r.title, "Hacker News");
    assert_eq!(r.mark, RowMark::Unread);
    assert_eq!(r.count, "  5");
    assert!(r.stripe);
    let quiet = feed_row("Lobsters", 0, false, 2);
    assert_eq!(quiet.mark, RowMark::Idle);
    assert_eq!(quiet.count, "  ·");
    assert!(!quiet.stripe);
    let broken = feed_row("Broken", 1234, true, 0);
    assert_eq!(broken.mark, RowMark::Error);
    assert_eq!(broken.count, "1234");
}

#[test]
fn labels_read_as_shown() {
    assert_eq!(stories_label(false, None), "stories");
    assert_eq!(stories_label(true, Some("rust")), "stories · unread · /rust");
    assert_eq!(right_aligned("ab", 4), "  ab");
    assert_eq!(right_aligned("abcdef", 4), "abcdef");
    assert_eq!(story_suffix("5m", "Hacker News"), "  5m HN");
    assert_eq!(story_when(None, 0, "—"), "—");
    assert_eq!(story_when(Some(100), 160, "—"), "1m");
    assert_eq!(kicker_title("bbc world"), "BBC WORLD");
    assert_eq!(kicker_title("ලංකා news"), "ලංකා news");
    assert_eq!(unread_banner(12), "12 unread");
    assert_eq!(unread_banner(0), "caught up");
    assert_eq!(fetch_badge(3), "  ● fetch 3");
}

#[test]
fn footer_follows_the_mode() {
    assert_eq!(footer(Mode::Search, true), (FooterKind::SearchPrompt, vec![]));
    let (kind, keys) = footer(Mode::AddFeed, true);
    assert_eq!(kind, FooterKind::Keys);
    assert_eq!(keys[2], ("tab", "use url"));
    let (kind, keys) = footer(Mode::Normal, true);
    assert_eq!(kind, FooterKind::Status);
    assert_eq!(keys, vec![("?", "keys"), ("q", "quit")]);
    let (kind, keys) = footer(Mode::Help, false);
    assert_eq!(kind, FooterKind::Keys);
    assert_eq!(keys.len(), 9);
    assert_eq!(footer(Mode::ConfirmDelete, false).1[0], ("y", "remove"));
}

fn cells(area: Area, text: &str) -> Vec<(u16, u16, Option<String>)> {
    render_shaped(area, text)
        .into_iter()
        .map(|c| (c.x, c.y, c.symbol))
        .collect()
}

#[test]
fn shaped_text_fills_its_area() {
    assert_eq!(
        cells(Area::new(2, 1, 4, 1), "ab"),
        vec![
            (2, 1, Some("a".into())),
            (3, 1, Some("b".into())),
            (4, 1, Some(" ".into())),
            (5, 1, Some(" ".into())),
        ]
    );
    assert_eq!(
        cells(Area::new(0, 0, 3, 2), "日 x"),
        vec![
            (0, 0, Some("日".into())),
            (1, 0, None),
            (2, 0, Some(" ".into())),
            (0, 1, Some("x".into())),
            (1, 1, Some(" ".into())),
            (2, 1, Some(" ".into())),
        ]
    );
    assert!(cells(Area::new(0, 0, 0, 3), "abc").is_empty());
    assert_eq!(cells(Area::new(0, 0, 2, 1), "abc\ndef").len(), 2);
}

#[test]
fn shaped_text_keeps_conjuncts_in_one_cell() {
    let c = cells(Area::new(0, 0, 4, 1), "ශ්‍රී");
    assert_eq!(c[0], (0, 0, Some("ශ්‍රී".into())));
    assert_eq!(c.len(), 4);
}

#[test]
fn shaped_text_at_the_last_column_is_refused_when_it_would_overflow() {
    let edge = Area::new(65_533, 0, 2, 1);
    assert!(render_shaped_checked(edge, "a").is_some());
    assert!(render_shaped_checked(edge, "ක්ක්ක්ක").is_none());
    assert!(render_shaped_checked(Area::new(0, 0, 5, 1), "日本").is_some());
}

#[test]
fn shaped_text_stays_in_its_area() {
    let a = Area::new(3, 2, 5, 2);
    for text in ["ශ්‍රී ලංකාවේ පුවත්", "日本語のテキスト", "plain words here", ""] {
        for (x, y, _) in cells(a, text) {
            assert!((3..=8).contains(&x) && (2..4).contains(&y), "{text:?} ({x}, {y})");
        }
    }
}

#[test]
fn tag_letters_before_upper_casing() {
    assert_eq!(tui_news::ui::tag_letters("Hacker News"), "HN");
    assert_eq!(tui_news::ui::tag_letters("Lobsters"), "Lob");
    assert_eq!(tui_news::ui::tag_letters("the verge"), "tv");
    assert_eq!(tui_news::ui::tag_letters("xk"), "xk");
}

#[test]
fn kicker_keeps_sinhala_as_written() {
    assert_eq!(kicker_of("bbc world", "BBC WORLD"), "BBC WORLD");
    assert_eq!(kicker_of("ලංකා news", "ලංකා NEWS"), "ලංකා news");
}

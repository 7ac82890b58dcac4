use tui_news::app::{
    fetch_writes, wrap_index, Action, App, FeedWrite, FetchMsg, Focus, Key, KeyCode, Mode,
};
use tui_news::model::{Article, Feed};

#[test]
fn wrap_moves_and_loops() {
    assert_eq!(wrap_index(0, 3, 1), 1);
    assert_eq!(wrap_index(2, 3, 1), 0);
    assert_eq!(wrap_index(0, 3, -1), 2);
}

// ---------------------------------------------------------------------------

fn key(code: KeyCode) -> Key {
    Key { code, ctrl: false, press: true }
}

fn ch(c: char) -> Key {
    key(KeyCode::Char(c))
}

fn feed(id: i64, title: &str, unread: i64) -> Feed {
    Feed {
        id,
        url: format!("https://feeds.test/{id}"),
        title: title.into(),
        last_fetched: None,
        error: None,
        unread,
    }
}

fn story(id: i64, read: bool) -> Article {
    Article {
        id,
        feed_title: "Example".into(),
        title: format!("story {id}"),
        url: Some(format!("https://example.com/{id}")),
        published: Some(1_700_000_000),
        summary: None,
        content: None,
        is_read: read,
    }
}

fn reader(reads: &[bool]) -> App {
    let mut app = App::new(false);
    app.set_feeds(vec![feed(1, "Hacker News", 2), feed(2, "Lobsters", 0)]);
    let stories = reads.iter().enumerate().map(|(i, r)| story(i as i64 + 10, *r)).collect();
    app.set_articles(stories, None);
    app
}

#[test]
fn wrap_round_trip_comes_back() {
    for len in 1..6usize {
        for cur in 0..len {
            for delta in -7i32..8 {
                let there = wrap_index(cur, len, delta);
                assert!(there < len);
                assert_eq!(wrap_index(there, len, -delta), cur);
            }
        }
    }
    assert_eq!(wrap_index(0, 0, 5), 0);
    assert_eq!(wrap_index(usize::MAX, 0, i32::MAX), 0);
}

#[test]
fn new_reader_starts_on_all_feeds() {
    let app = App::new(true);
    assert_eq!(app.feed_sel, Some(0));
    assert_eq!(app.focus, Focus::Feeds);
    assert_eq!(app.mode, Mode::Normal);
    assert_eq!(app.status, "starter feeds added — fetching…");
    assert!(app.needs_initial_fetch());
    assert_eq!(App::new(false).status, "");
}

#[test]
fn quitting_keys() {
    let mut app = reader(&[false]);
    assert_eq!(app.handle_key(ch('q')), Action::Quit);
    assert_eq!(app.handle_key(key(KeyCode::Esc)), Action::Quit);
    app.handle_key(ch('a'));
    assert_eq!(app.mode, Mode::AddFeed);
    let ctrl_c = Key { code: KeyCode::Char('c'), ctrl: true, press: true };
    assert_eq!(app.handle_key(ctrl_c), Action::Quit);
}

#[test]
fn releases_change_nothing() {
    let mut app = reader(&[false, true]);
    let before = (app.focus, app.article_sel, app.mode);
    let release = Key { code: KeyCode::Char('j'), ctrl: false, press: false };
    assert_eq!(app.handle_key(release), Action::Nothing);
    assert_eq!((app.focus, app.article_sel, app.mode), before);
}

#[test]
fn three_tabs_come_back() {
    let mut app = reader(&[false]);
    let start = app.focus;
    app.handle_key(key(KeyCode::Tab));
    assert_eq!(app.focus, Focus::Articles);
    app.handle_key(key(KeyCode::Tab));
    assert_eq!(app.focus, Focus::Reader);
    app.handle_key(key(KeyCode::Tab));
    assert_eq!(app.focus, start);
    app.handle_key(ch('l'));
    app.handle_key(ch('h'));
    assert_eq!(app.focus, start);
}

#[test]
fn toggling_twice_restores_the_mark() {
    let mut app = reader(&[false, true]);
    assert_eq!(app.handle_key(ch(' ')), Action::SetRead { id: 10, read: true });
    assert!(app.articles[0].is_read);
    assert_eq!(app.handle_key(ch('m')), Action::SetRead { id: 10, read: false });
    assert!(!app.articles[0].is_read);
    assert!(app.articles[1].is_read);
}

#[test]
fn next_and_previous_unread() {
    let mut app = reader(&[true, true, false, true]);
    assert_eq!(app.article_sel, Some(0));
    app.handle_key(ch('n'));
    assert_eq!(app.article_sel, Some(2));
    assert_eq!(app.focus, Focus::Articles);
    app.handle_key(ch('p'));
    assert_eq!(app.article_sel, Some(2));
    let mut done = reader(&[true, true]);
    done.handle_key(ch('n'));
    assert_eq!(done.status, "no unread stories in this list");
    assert_eq!(done.article_sel, Some(0));
    let mut none = reader(&[]);
    none.handle_key(ch('n'));
    assert_eq!(none.status, "no stories");
    assert!(none.status_error);
}

#[test]
fn moving_wraps_in_each_pane() {
    let mut app = reader(&[false, false, false]);
    assert_eq!(app.handle_key(ch('k')), Action::LoadArticles { keep: None, quiet: true });
    assert_eq!(app.feed_sel, Some(2));
    app.handle_key(key(KeyCode::Tab));
    app.handle_key(ch('k'));
    assert_eq!(app.article_sel, Some(2));
    app.handle_key(ch('j'));
    assert_eq!(app.article_sel, Some(0));
    app.handle_key(ch('G'));
    assert_eq!(app.article_sel, Some(2));
    app.handle_key(ch('g'));
    assert_eq!(app.article_sel, Some(0));
}

#[test]
fn adding_a_pasted_url() {
    let mut app = reader(&[]);
    app.handle_key(ch('a'));
    for c in "example.com/rss".chars() {
        app.handle_key(ch(c));
    }
    assert_eq!(app.input, "example.com/rss");
    app.handle_key(key(KeyCode::Backspace));
    app.handle_key(ch('s'));
    let r = app.handle_key(key(KeyCode::Enter));
    assert_eq!(
        r,
        Action::AddFeed {
            url: "https://example.com/rss".into(),
            title: "https://example.com/rss".into()
        }
    );
    assert_eq!(app.mode, Mode::Normal);
    assert_eq!(app.input, "");
}

#[test]
fn adding_from_the_catalog() {
    let mut app = reader(&[]);
    app.handle_key(ch('a'));
    assert_eq!(app.catalog_matches().len(), 16);
    app.handle_key(key(KeyCode::Down));
    let r = app.handle_key(key(KeyCode::Enter));
    assert_eq!(
        r,
        Action::AddFeed { url: "https://lobste.rs/rss".into(), title: "Lobsters".into() }
    );
}

#[test]
fn an_empty_add_is_refused() {
    let mut app = reader(&[]);
    app.handle_key(ch('a'));
    for c in "zzzz".chars() {
        app.handle_key(ch(c));
    }
    assert!(app.catalog_matches().is_empty());
    let r = app.handle_key(key(KeyCode::Enter));
    assert_eq!(
        r,
        Action::AddFeed { url: "https://zzzz".into(), title: "https://zzzz".into() }
    );
    app.handle_key(ch('a'));
    let ctrl_u = Key { code: KeyCode::Char('u'), ctrl: true, press: true };
    app.handle_key(ctrl_u);
    assert_eq!(app.input, "");
}

#[test]
fn deleting_a_feed_asks_first() {
    let mut app = reader(&[false]);
    app.handle_key(ch('d'));
    assert_eq!(app.status, "select a feed to delete");
    app.handle_key(ch('j'));
    app.handle_key(ch('d'));
    assert_eq!(app.mode, Mode::ConfirmDelete);
    assert_eq!(app.handle_key(ch('y')), Action::DeleteFeed { id: 1 });
    assert_eq!(app.status, "removed Hacker News");
    assert_eq!(app.feed_sel, Some(0));
    app.handle_key(ch('j'));
    app.handle_key(ch('d'));
    assert_eq!(app.handle_key(ch('n')), Action::Nothing);
    assert_eq!(app.mode, Mode::Normal);
}

#[test]
fn searching_reloads_the_stories() {
    let mut app = reader(&[false]);
    app.handle_key(ch('/'));
    assert_eq!(app.mode, Mode::Search);
    assert_eq!(app.handle_key(ch('r')), Action::LoadArticles { keep: None, quiet: false });
    assert_eq!(app.search.as_deref(), Some("r"));
    app.handle_key(key(KeyCode::Enter));
    assert_eq!(app.mode, Mode::Normal);
    app.handle_key(ch('/'));
    app.handle_key(key(KeyCode::Esc));
    assert_eq!(app.search, None);
}

#[test]
fn refreshing_fetches_each_feed_once() {
    let mut app = reader(&[]);
    let r = app.refresh_all();
    assert_eq!(
        r,
        Action::Fetch {
            feeds: vec![(1, "https://feeds.test/1".into()), (2, "https://feeds.test/2".into())]
        }
    );
    assert_eq!(app.status, "fetching 2 feeds…");
    assert!(app.fetching());
    assert_eq!(app.refresh_all(), Action::Fetch { feeds: vec![] });
    app.apply_fetch(1, 3);
    app.apply_fetch(2, 4);
    assert!(!app.fetching());
    assert_eq!(app.batch_new(), 7);
}

#[test]
fn opening_marks_read_first() {
    let mut app = reader(&[false]);
    let r = app.handle_key(key(KeyCode::Enter));
    assert_eq!(
        r,
        Action::Open { url: "https://example.com/10".into(), mark_read: Some(10) }
    );
    assert!(app.articles[0].is_read);
    app.browser_result(None);
    assert_eq!(app.status, "opened in browser");
    app.browser_result(Some("no display".into()));
    assert_eq!(app.status, "could not open browser: no display");
    assert!(app.status_error);
}

#[test]
fn reloading_keeps_the_selected_story() {
    let mut app = reader(&[false, false, false]);
    app.handle_key(key(KeyCode::Tab));
    app.handle_key(ch('j'));
    app.handle_key(ch('j'));
    let keep = app.reload(vec![feed(1, "Hacker News", 2)]);
    assert_eq!(keep, Some(12));
    app.set_articles(vec![story(12, false), story(10, false)], keep);
    assert_eq!(app.article_sel, Some(0));
    app.set_articles(vec![story(30, false)], Some(12));
    assert_eq!(app.article_sel, Some(0));
    app.set_articles(vec![], Some(12));
    assert_eq!(app.article_sel, None);
}

#[test]
fn reader_scroll_stops_at_the_ends() {
    let mut app = reader(&[false]);
    app.scroll_reader(-3);
    assert_eq!(app.reader_scroll, 0);
    app.scroll_reader(10);
    app.clamp_reader_scroll(4);
    assert_eq!(app.reader_scroll, 4);
    app.scroll_reader(i32::MAX);
    assert_eq!(app.reader_scroll, u16::MAX);
}

#[test]
fn totals_and_selection_queries() {
    let app = reader(&[false]);
    assert_eq!(app.total_unread(), 2);
    assert_eq!(app.selected_feed_id(), None);
    assert!(app.selected_feed().is_none());
    assert_eq!(app.selected_article().map(|a| a.id), Some(10));
    assert_eq!(app.selected_article_id(), Some(10));
}

#[test]
fn marking_read_names_only_the_listed_stories() {
    let mut app = reader(&[false, false, true]);
    app.handle_key(ch('j'));
    app.set_articles(vec![story(11, false)], None);
    assert_eq!(app.listed_ids(), vec![11]);
    assert_eq!(app.handle_key(ch('A')), Action::MarkRead { ids: vec![11], keep: Some(11) });
    app.cycle_focus(true);
    app.cycle_focus(false);
    assert_eq!(app.focus, Focus::Feeds);
}

#[test]
fn fetch_messages_name_their_feed() {
    let failed = FetchMsg::Failed { feed_id: 4, error: "HTTP 500".into() };
    assert_eq!(failed.feed_id(), 4);
}

#[test]
fn any_key_closes_the_help() {
    let mut app = reader(&[false]);
    app.handle_key(ch('?'));
    assert_eq!(app.mode, Mode::Help);
    assert_eq!(app.handle_key(ch('x')), Action::Nothing);
    assert_eq!(app.mode, Mode::Normal);
    app.handle_key(ch('?'));
    let ctrl_c = Key { code: KeyCode::Char('C'), ctrl: true, press: true };
    assert_eq!(app.handle_key(ctrl_c), Action::Quit);
    assert_eq!(app.mode, Mode::Help);
}

#[test]
fn unread_filter_reloads_keeping_the_story() {
    let mut app = reader(&[false, true]);
    assert_eq!(app.handle_key(ch('u')), Action::LoadArticles { keep: Some(10), quiet: false });
    assert!(app.unread_only);
    assert_eq!(app.status, "showing unread only");
    app.handle_key(ch('u'));
    assert_eq!(app.status, "showing all stories");
    assert_eq!(
        app.handle_key(ch('A')),
        Action::MarkRead { ids: vec![10, 11], keep: Some(10) }
    );
    assert_eq!(app.status, "marked visible stories read");
}

#[test]
fn progress_reports_then_completes() {
    let mut app = reader(&[]);
    app.refresh_all();
    app.apply_fetch(1, 2);
    app.report_progress();
    assert_eq!(app.status, "fetching 1 remaining… (2 new so far)");
    app.apply_fetch(2, 0);
    app.report_progress();
    assert_eq!(app.status, "refresh complete — 2 new stories");
    assert_eq!(app.batch_new(), 0);
    assert_eq!(app.select_new_feed(2, "https://feeds.test/2".into()), Some((2, "https://feeds.test/2".into())));
    assert_eq!(app.feed_sel, Some(2));
    assert_eq!(app.select_new_feed(2, "https://feeds.test/2".into()), None);
    app.already_subscribed("Lobsters");
    assert_eq!(app.status, "already subscribed: Lobsters");
    app.feed_added("Lobsters");
    assert_eq!(app.status, "added Lobsters — fetching…");
}

#[test]
fn finished_fetches_decide_the_store_writes() {
    let fetched = tui_news::fetch::FetchedFeed {
        title: "Example".to_string(),
        site_url: Some("https://x.test/".to_string()),
        articles: vec![],
    };
    match fetch_writes(FetchMsg::Fetched { feed_id: 7, fetched }, 1_700_000_000) {
        FeedWrite::Stored { feed_id, articles, title, site_url, at } => {
            assert_eq!(feed_id, 7);
            assert!(articles.is_empty());
            assert_eq!(title, "Example");
            assert_eq!(site_url.as_deref(), Some("https://x.test/"));
            assert_eq!(at, 1_700_000_000);
        }
        other => panic!("{other:?}"),
    }
    match fetch_writes(FetchMsg::Failed { feed_id: 3, error: "HTTP 404 Not Found".to_string() }, 5) {
        FeedWrite::Failed { feed_id, error, at } => {
            assert_eq!((feed_id, error.as_str(), at), (3, "HTTP 404 Not Found", 5));
        }
        other => panic!("{other:?}"),
    }
}

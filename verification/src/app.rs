//! The reader's state and the decisions it takes on each key and each
//! finished fetch. Storage, network and the browser are outside: a decision
//! that needs them returns an `Action`, and the caller hands the outcome back.
use vstd::prelude::*;
use crate::fetch::{normalize_url, normalized, FetchedFeed, UrlError};
use crate::model::{
    catalog_suggestions, looks_like_feed_url, str_views, suggestions, url_like, Article,
    CatalogFeed, Feed, NewArticle,
};
use crate::text::{
    digits, is_blank, owned, pop_char, push_char, push_str, trim, trim_str, u64_text,
};
use std::collections::HashSet;

verus! {

broadcast use vstd::std_specs::hash::group_hash_axioms;

/// The focused pane.
#[derive(Debug, Clone, Copy, PartialEq, Eq, Structural)]
pub enum Focus {
    Feeds,
    Articles,
    Reader,
}

/// What the keyboard is driving.
#[derive(Debug, Clone, Copy, PartialEq, Eq, Structural)]
pub enum Mode {
    Normal,
    AddFeed,
    Search,
    ConfirmDelete,
    Help,
}

/// The outcome of fetching one feed.
#[derive(Debug)]
pub enum FetchMsg {
    Fetched { feed_id: i64, fetched: FetchedFeed },
    Failed { feed_id: i64, error: String },
}

impl FetchMsg {
    /// The feed the message is about.
    pub fn feed_id(&self) -> (r: i64)
        ensures
            r == match self {
                FetchMsg::Fetched { feed_id, .. } => *feed_id,
                FetchMsg::Failed { feed_id, .. } => *feed_id,
            },
    {
        match self {
            FetchMsg::Fetched { feed_id, .. } => *feed_id,
            FetchMsg::Failed { feed_id, .. } => *feed_id,
        }
    }
}

/// What a finished fetch writes to the store, in this order.
#[derive(Debug)]
pub enum FeedWrite {
    /// Upsert `articles` under feed `feed_id` (the count of new stories it
    /// gives goes to `App::apply_fetch`), then record the feed's `title`,
    /// `site_url` and fetch time `at`, clearing its error.
    Stored {
        feed_id: i64,
        articles: Vec<NewArticle>,
        title: String,
        site_url: Option<String>,
        at: i64,
    },
    /// Record `error` and the fetch time `at` on feed `feed_id`, leaving its
    /// title and stories as they are; no new stories.
    Failed { feed_id: i64, error: String, at: i64 },
}

/// The store writes for a finished fetch, made at time `now`: a feed that
/// was fetched gets its stories and, from the fetch, its title and site
/// link, the time, and no error; a failed fetch records its error and the
/// time.
pub fn fetch_writes(msg: FetchMsg, now: i64) -> (r: FeedWrite)
    ensures
        match msg {
            FetchMsg::Fetched { feed_id, fetched } => r == (FeedWrite::Stored {
                feed_id,
                articles: fetched.articles,
                title: fetched.title,
                site_url: fetched.site_url,
                at: now,
            }),
            FetchMsg::Failed { feed_id, error } => r == (FeedWrite::Failed {
                feed_id,
                error,
                at: now,
            }),
        },
{
    match msg {
        FetchMsg::Fetched { feed_id, fetched } => FeedWrite::Stored {
            feed_id,
            articles: fetched.articles,
            title: fetched.title,
            site_url: fetched.site_url,
            at: now,
        },
        FetchMsg::Failed { feed_id, error } => FeedWrite::Failed { feed_id, error, at: now },
    }
}

/// A key, as far as the reader tells keys apart.
#[derive(Debug, Clone, Copy, PartialEq, Eq, Structural)]
pub enum KeyCode {
    Char(char),
    Esc,
    Enter,
    Tab,
    BackTab,
    Backspace,
    Left,
    Right,
    Up,
    Down,
    PageUp,
    PageDown,
    Other,
}

/// A key event: the key, whether Control was held, and whether it is a press
/// (rather than a release or a repeat).
#[derive(Debug, Clone, Copy, PartialEq, Eq, Structural)]
pub struct Key {
    pub code: KeyCode,
    pub ctrl: bool,
    pub press: bool,
}

/// Outside work a decision asks for. After it, the caller hands back what the
/// work produced: `set_articles` after loading stories, `reload` (then a
/// story load) after a change of feeds, `set_feeds` after a change of read
/// marks, `browser_result` after opening a link.
#[derive(Debug, PartialEq, Eq)]
pub enum Action {
    /// Nothing to do.
    Nothing,
    /// Leave the reader.
    Quit,
    /// Load the stories of the selected feed (all feeds when none is
    /// selected), with the search and the unread filter, then `set_articles`
    /// with `keep`. When `quiet`, a storage error is ignored.
    LoadArticles { keep: Option<i64>, quiet: bool },
    /// Start fetching these feeds (already counted as in flight).
    Fetch { feeds: Vec<(i64, String)> },
    /// Subscribe to `url` under `title`, unless it is already subscribed.
    AddFeed { url: String, title: String },
    /// Delete the feed and its stories, then reload.
    DeleteFeed { id: i64 },
    /// Store the read mark of a story, then `set_feeds`.
    SetRead { id: i64, read: bool },
    /// Mark the stories listed (the visible ones, by id) read, then reload
    /// and load the stories again keeping `keep` selected.
    MarkRead { ids: Vec<i64>, keep: Option<i64> },
    /// Open `url` in the browser, first storing story `mark_read` as read (and
    /// `set_feeds`) when there is one; then `browser_result`.
    Open { url: String, mark_read: Option<i64> },
}

/// Everything the reader shows and remembers between keys.
pub struct App {
    pub feeds: Vec<Feed>,
    pub articles: Vec<Article>,
    /// The selected row of the feeds pane: 0 is "All", `i` is `feeds[i - 1]`.
    pub feed_sel: Option<usize>,
    pub article_sel: Option<usize>,
    pub catalog_sel: Option<usize>,
    pub focus: Focus,
    pub mode: Mode,
    pub input: String,
    pub unread_only: bool,
    pub search: Option<String>,
    pub reader_scroll: u16,
    pub status: String,
    pub status_error: bool,
    /// Feeds being fetched.
    pub in_flight: HashSet<i64>,
    pub seeded: bool,
    /// New stories found by the fetches of the current batch.
    pub batch_new: u64,
}

/// The largest list the selection arithmetic (on `i32`) handles.
pub open spec fn max_rows() -> int {
    0x3fff_ffff
}

/// The selected feeds-pane row, 0 when none is selected.
pub open spec fn feed_row(s: Option<usize>) -> int {
    match s {
        Some(i) => i as int,
        None => 0,
    }
}

/// The first index of a story with id `id`.
pub open spec fn find_article(arts: Seq<Article>, id: i64) -> Option<int>
    decreases arts.len(),
{
    if arts.len() == 0 {
        None
    } else if arts[0].id == id {
        Some(0)
    } else {
        match find_article(arts.drop_first(), id) {
            Some(i) => Some(i + 1),
            None => None,
        }
    }
}

/// The ids of a list of stories, in order.
pub open spec fn story_ids(arts: Seq<Article>) -> Seq<i64> {
    arts.map_values(|a: Article| a.id)
}

/// The story selected after loading `arts` while keeping `keep`: the kept
/// story where it is listed, else the first story, else none.
pub open spec fn kept_selection(arts: Seq<Article>, keep: Option<i64>) -> Option<usize> {
    let found = match keep {
        Some(id) => find_article(arts, id),
        None => None,
    };
    match found {
        Some(i) => Some(i as usize),
        None => if arts.len() > 0 {
            Some(0)
        } else {
            None
        },
    }
}

/// The index of the first story with id `id`.
fn position_of(articles: &Vec<Article>, id: i64) -> (r: Option<usize>)
    ensures
        match find_article(articles@, id) {
            Some(j) => r == Some(j as usize) && j < articles@.len(),
            None => r is None,
        },
{
    let n = articles.len();
    let mut i: usize = 0;
    proof {
        assert(articles@.skip(0) == articles@);
    }
    while i < n
        invariant
            i <= n == articles@.len(),
            find_article(articles@, id) == match find_article(articles@.skip(i as int), id) {
                Some(j) => Some(j + i),
                None => None,
            },
        decreases n - i,
    {
        proof {
            let rest = articles@.skip(i as int);
            assert(rest[0] == articles@[i as int]);
            assert(rest.drop_first() == articles@.skip(i + 1));
        }
        if articles[i].id == id {
            return Some(i);
        }
        i = i + 1;
    }
    proof {
        assert(articles@.skip(n as int).len() == 0);
    }
    None
}

/// `find_article` finds a story inside the list.
proof fn lemma_find_in_range(arts: Seq<Article>, id: i64)
    ensures
        find_article(arts, id) matches Some(j) ==> 0 <= j < arts.len() && arts[j].id == id,
    decreases arts.len(),
{
    if arts.len() > 0 && arts[0].id != id {
        lemma_find_in_range(arts.drop_first(), id);
    }
}

/// None of the feeds was ever fetched.
pub open spec fn never_fetched(fs: Seq<Feed>) -> bool {
    forall|i: int| 0 <= i < fs.len() ==> (#[trigger] fs[i]).last_fetched is None
}

/// The sum of the unread counts of `fs`.
pub open spec fn unread_sum(fs: Seq<Feed>) -> int
    decreases fs.len(),
{
    if fs.len() == 0 {
        0
    } else {
        unread_sum(fs.drop_last()) + fs.last().unread
    }
}

/// Every running sum of the unread counts fits an `i64`.
pub open spec fn unread_sums_fit(fs: Seq<Feed>) -> bool {
    forall|k: int| 0 <= k <= fs.len() ==> i64::MIN <= #[trigger] unread_sum(fs.take(k)) <= i64::MAX
}

/// `current` moved by `delta` within `len` rows, wrapping at both ends.
pub open spec fn wrapped_index(current: int, len: int, delta: int) -> int {
    if len == 0 {
        0
    } else {
        (current + delta) % len
    }
}

/// Move `current` by `delta` within `len` rows, wrapping at both ends. The
/// arithmetic is done in `i32`, which bounds the rows and the move.
pub fn wrap_index(current: usize, len: usize, delta: i32) -> (r: usize)
    requires
        len <= max_rows(),
        len > 0 ==> current <= i32::MAX,
        len > 0 ==> i32::MIN <= current + delta <= i32::MAX,
    ensures
        r == wrapped_index(current as int, len as int, delta as int),
        len > 0 ==> r < len,
{
    if len == 0 {
        return 0;
    }
    let len_i = len as i32;
    let next = current as i32 + delta;
    let a = next % len_i;
    let b = a + len_i;
    let c = b % len_i;
    proof {
        let n = next as int;
        let l = len_i as int;
        if n >= 0 {
            assert(a == n % l);
            assert(0 <= n % l < l) by (nonlinear_arith)
                requires
                    l > 0,
            ;
            assert(((n % l + l) % l) == n % l) by (nonlinear_arith)
                requires
                    l > 0,
            ;
        } else {
            let m = (-n) % l;
            assert(a == -m);
            assert(0 <= m < l) by (nonlinear_arith)
                requires
                    l > 0,
                    m == (-n) % l,
            ;
            let q = (-n) / l;
            vstd::arithmetic::div_mod::lemma_fundamental_div_mod(-n, l);
            assert(l - m == l * (q + 1) + n) by (nonlinear_arith)
                requires
                    -n == l * q + m,
            ;
            vstd::arithmetic::div_mod::lemma_mod_multiples_vanish(q + 1, n, l);
        }
        assert(c == n % l);
    }
    c as usize
}

/// The pane after `cycle_focus(forward)`: feeds, stories, reader, round.
pub open spec fn focus_after(f: Focus, forward: bool) -> Focus {
    match (f, forward) {
        (Focus::Feeds, true) | (Focus::Reader, false) => Focus::Articles,
        (Focus::Articles, true) | (Focus::Feeds, false) => Focus::Reader,
        (Focus::Reader, true) | (Focus::Articles, false) => Focus::Feeds,
    }
}

/// The reader scroll after `scroll_reader(delta)`: moved by `delta` rows
/// (taken as a `u16`), stopping at 0 and at `u16::MAX`.
pub open spec fn scrolled(scroll: u16, delta: i32) -> u16 {
    if delta < 0 {
        let d = (-delta) as u16;
        if scroll < d {
            0
        } else {
            (scroll - d) as u16
        }
    } else {
        let d = delta as u16;
        if scroll + d > u16::MAX {
            u16::MAX
        } else {
            (scroll + d) as u16
        }
    }
}

impl App {
    /// The state is consistent: list sizes within what the selection
    /// arithmetic handles, and the story selection inside the story list.
    pub open spec fn wf(&self) -> bool {
        &&& self.feeds@.len() < max_rows()
        &&& self.articles@.len() < max_rows()
        &&& feed_row(self.feed_sel) <= max_rows()
        &&& (self.catalog_sel matches Some(i) ==> i <= max_rows())
        &&& (self.article_sel matches Some(i) ==> i < self.articles@.len())
    }

    /// The selected feed, when a feed row (not "All") is selected.
    pub open spec fn sel_feed(&self) -> Option<Feed> {
        let i = feed_row(self.feed_sel);
        if i == 0 || i - 1 >= self.feeds@.len() {
            None
        } else {
            Some(self.feeds@[i - 1])
        }
    }

    /// The id of the selected feed.
    pub open spec fn sel_feed_id(&self) -> Option<i64> {
        match self.sel_feed() {
            Some(f) => Some(f.id),
            None => None,
        }
    }

    /// The selected story.
    pub open spec fn sel_article(&self) -> Option<Article> {
        match self.article_sel {
            Some(i) => if i < self.articles@.len() {
                Some(self.articles@[i as int])
            } else {
                None
            },
            None => None,
        }
    }

    /// The id of the selected story.
    pub open spec fn sel_article_id(&self) -> Option<i64> {
        match self.sel_article() {
            Some(a) => Some(a.id),
            None => None,
        }
    }

    /// The state of a freshly opened reader, before its first load; `seeded`
    /// tells whether the starter feeds were just added.
    pub fn new(seeded: bool) -> (r: App)
        ensures
            r.wf(),
            r.feeds@.len() == 0,
            r.articles@.len() == 0,
            r.feed_sel == Some(0usize),
            r.article_sel is None,
            r.catalog_sel == Some(0usize),
            r.focus == Focus::Feeds,
            r.mode == Mode::Normal,
            r.input@.len() == 0,
            !r.unread_only,
            r.search is None,
            r.reader_scroll == 0,
            r.status@ == (if seeded {
                "starter feeds added — fetching…"@
            } else {
                Seq::empty()
            }),
            !r.status_error,
            r.in_flight@.len() == 0,
            r.seeded == seeded,
            r.batch_new == 0,
    {
        App {
            feeds: Vec::new(),
            articles: Vec::new(),
            feed_sel: Some(0),
            article_sel: None,
            catalog_sel: Some(0),
            focus: Focus::Feeds,
            mode: Mode::Normal,
            input: String::new(),
            unread_only: false,
            search: None,
            reader_scroll: 0,
            status: if seeded {
                owned("starter feeds added — fetching…")
            } else {
                String::new()
            },
            status_error: false,
            in_flight: HashSet::new(),
            seeded,
            batch_new: 0,
        }
    }

    /// The stories found by the fetches of the current batch so far.
    pub fn batch_new(&self) -> (r: u64)
        ensures
            r == self.batch_new,
    {
        self.batch_new
    }

    /// Fetch everything at start-up: the feeds were just seeded, or none of
    /// them was ever fetched.
    pub fn needs_initial_fetch(&self) -> (r: bool)
        ensures
            r == (self.seeded || never_fetched(self.feeds@)),
    {
        if self.seeded {
            return true;
        }
        let n = self.feeds.len();
        let mut i: usize = 0;
        while i < n
            invariant
                i <= n == self.feeds@.len(),
                !self.seeded,
                forall|j: int| 0 <= j < i ==> (#[trigger] self.feeds@[j]).last_fetched is None,
            decreases n - i,
        {
            if self.feeds[i].last_fetched.is_some() {
                assert(!never_fetched(self.feeds@));
                return false;
            }
            i = i + 1;
        }
        true
    }

    /// The id of the selected feed; `None` for the "All" row.
    pub fn selected_feed_id(&self) -> (r: Option<i64>)
        ensures
            r == self.sel_feed_id(),
    {
        match self.selected_feed() {
            Some(f) => Some(f.id),
            None => None,
        }
    }

    /// The selected feed; `None` for the "All" row.
    pub fn selected_feed(&self) -> (r: Option<&Feed>)
        ensures
            match r {
                Some(f) => self.sel_feed() == Some(*f),
                None => self.sel_feed() is None,
            },
    {
        let i = match self.feed_sel {
            Some(i) => i,
            None => 0,
        };
        if i == 0 || i - 1 >= self.feeds.len() {
            None
        } else {
            Some(&self.feeds[i - 1])
        }
    }

    /// The selected story.
    pub fn selected_article(&self) -> (r: Option<&Article>)
        ensures
            match r {
                Some(a) => self.sel_article() == Some(*a),
                None => self.sel_article() is None,
            },
    {
        match self.article_sel {
            Some(i) => if i < self.articles.len() {
                Some(&self.articles[i])
            } else {
                None
            },
            None => None,
        }
    }

    /// The id of the selected story.
    pub fn selected_article_id(&self) -> (r: Option<i64>)
        ensures
            r == self.sel_article_id(),
    {
        match self.selected_article() {
            Some(a) => Some(a.id),
            None => None,
        }
    }

    /// Unread stories over all feeds.
    pub fn total_unread(&self) -> (r: i64)
        requires
            unread_sums_fit(self.feeds@),
        ensures
            r == unread_sum(self.feeds@),
    {
        let n = self.feeds.len();
        let mut sum: i64 = 0;
        let mut i: usize = 0;
        while i < n
            invariant
                i <= n == self.feeds@.len(),
                unread_sums_fit(self.feeds@),
                sum == unread_sum(self.feeds@.take(i as int)),
            decreases n - i,
        {
            proof {
                assert(self.feeds@.take(i + 1).drop_last() == self.feeds@.take(i as int));
                assert(self.feeds@.take(i + 1).last() == self.feeds@[i as int]);
                assert(i64::MIN <= unread_sum(self.feeds@.take(i + 1)) <= i64::MAX);
            }
            sum = sum + self.feeds[i].unread;
            i = i + 1;
        }
        proof {
            assert(self.feeds@.take(n as int) == self.feeds@);
        }
        sum
    }

    /// The ids of the stories listed now, in order.
    pub fn listed_ids(&self) -> (r: Vec<i64>)
        ensures
            r@ == story_ids(self.articles@),
    {
        let mut ids: Vec<i64> = Vec::new();
        let n = self.articles.len();
        let mut i: usize = 0;
        while i < n
            invariant
                i <= n == self.articles@.len(),
                ids@ == story_ids(self.articles@.take(i as int)),
            decreases n - i,
        {
            proof {
                assert(story_ids(self.articles@.take(i + 1)) =~= story_ids(
                    self.articles@.take(i as int),
                ).push(self.articles@[i as int].id));
            }
            ids.push(self.articles[i].id);
            i = i + 1;
        }
        proof {
            assert(self.articles@.take(n as int) =~= self.articles@);
        }
        ids
    }

    /// Whether any fetch is running.
    pub fn fetching(&self) -> (r: bool)
        ensures
            r == (self.in_flight@.len() > 0),
    {
        self.in_flight.len() != 0
    }

    /// Show `msg` in the status line, as an error or not.
    pub fn set_status(&mut self, msg: &str, error: bool)
        ensures
            *final(self) == (App { status: final(self).status, status_error: error, ..*old(self) }),
            final(self).status@ == msg@,
    {
        self.status = owned(msg);
        self.status_error = error;
    }

    /// Put loaded stories in place, keeping `keep` selected where it is
    /// listed, else selecting the first story; the reader scrolls to the top.
    pub fn set_articles(&mut self, articles: Vec<Article>, keep: Option<i64>)
        requires
            old(self).wf(),
            articles@.len() < max_rows(),
        ensures
            final(self).wf(),
            *final(self) == (App {
                articles,
                article_sel: kept_selection(articles@, keep),
                reader_scroll: 0,
                ..*old(self)
            }),
    {
        let found = match keep {
            Some(id) => position_of(&articles, id),
            None => None,
        };
        proof {
            if let Some(id) = keep {
                lemma_find_in_range(articles@, id);
            }
        }
        let idx = match found {
            Some(i) => Some(i),
            None => if articles.len() > 0 {
                Some(0)
            } else {
                None
            },
        };
        self.articles = articles;
        self.article_sel = idx;
        self.reader_scroll = 0;
    }

    /// Replace the feeds after a change of feeds (the first half of a reload):
    /// the feeds-pane row falls back to "All" when it is past the new list.
    /// Returns the story to keep selected when the stories are loaded again.
    pub fn reload(&mut self, feeds: Vec<Feed>) -> (r: Option<i64>)
        requires
            old(self).wf(),
            feeds@.len() < max_rows(),
        ensures
            final(self).wf(),
            r == old(self).sel_article_id(),
            *final(self) == (App {
                feeds,
                feed_sel: match old(self).feed_sel {
                    Some(i) => if i > feeds@.len() {
                        Some(0usize)
                    } else {
                        Some(i)
                    },
                    None => None,
                },
                ..*old(self)
            }),
    {
        let prev_article = self.selected_article_id();
        let prev_feed = self.feed_sel;
        self.feeds = feeds;
        if let Some(idx) = prev_feed {
            if idx > self.feeds.len() {
                self.feed_sel = Some(0);
            }
        }
        prev_article
    }

    /// Replace the feeds after a change of read marks.
    pub fn set_feeds(&mut self, feeds: Vec<Feed>)
        requires
            old(self).wf(),
            feeds@.len() < max_rows(),
        ensures
            final(self).wf(),
            *final(self) == (App { feeds, ..*old(self) }),
    {
        self.feeds = feeds;
    }

    /// Scroll the reader by `delta` rows, stopping at the ends.
    pub fn scroll_reader(&mut self, delta: i32)
        requires
            delta != i32::MIN,
        ensures
            *final(self) == (App { reader_scroll: scrolled(old(self).reader_scroll, delta), ..*old(self) }),
    {
        if delta < 0 {
            self.reader_scroll = self.reader_scroll.saturating_sub((-delta) as u16);
        } else {
            self.reader_scroll = self.reader_scroll.saturating_add(delta as u16);
        }
    }

    /// Keep the reader scroll within `max`.
    pub fn clamp_reader_scroll(&mut self, max: u16)
        ensures
            *final(self) == (App {
                reader_scroll: if old(self).reader_scroll > max {
                    max
                } else {
                    old(self).reader_scroll
                },
                ..*old(self)
            }),
    {
        if self.reader_scroll > max {
            self.reader_scroll = max;
        }
    }

    /// Move the focus to the next (or previous) pane.
    pub fn cycle_focus(&mut self, forward: bool)
        ensures
            *final(self) == (App { focus: focus_after(old(self).focus, forward), ..*old(self) }),
    {
        self.focus = match (self.focus, forward) {
            (Focus::Feeds, true) | (Focus::Reader, false) => Focus::Articles,
            (Focus::Articles, true) | (Focus::Feeds, false) => Focus::Reader,
            (Focus::Reader, true) | (Focus::Articles, false) => Focus::Feeds,
        };
    }
}


// ---------------------------------------------------------------------------
// Transitions, as relations between the state before and after
// ---------------------------------------------------------------------------

/// `n` is `o` with the status line set to `msg`.
pub open spec fn with_status(o: App, msg: Seq<char>, error: bool, n: App) -> bool {
    n.status@ == msg && n == App { status: n.status, status_error: error, ..o }
}

/// The URLs of the subscribed feeds.
pub open spec fn feed_urls(fs: Seq<Feed>) -> Seq<Seq<char>> {
    fs.map_values(|f: Feed| f.url@)
}

/// The catalogue entries offered in the add-feed dialog.
pub open spec fn offered_feeds(o: App) -> Seq<CatalogFeed> {
    suggestions(o.input@, feed_urls(o.feeds@))
}

/// The catalogue entry under the dialog's cursor.
pub open spec fn catalog_pick(o: App) -> Option<CatalogFeed> {
    match o.catalog_sel {
        Some(i) => if i < offered_feeds(o).len() {
            Some(offered_feeds(o)[i as int])
        } else {
            None
        },
        None => None,
    }
}

/// The views of a list of feeds to fetch.
pub open spec fn fetch_views(v: Seq<(i64, String)>) -> Seq<(i64, Seq<char>)> {
    v.map_values(|p: (i64, String)| (p.0, p.1@))
}

/// Feeds to fetch, each registered in flight unless it already is: the
/// feeds in flight afterwards and the fetches to start.
pub open spec fn spawn_all(in_flight: Set<i64>, fs: Seq<Feed>) -> (Set<i64>, Seq<(i64, Seq<char>)>)
    decreases fs.len(),
{
    if fs.len() == 0 {
        (in_flight, Seq::empty())
    } else {
        let (fl, started) = spawn_all(in_flight, fs.drop_last());
        let f = fs.last();
        if fl.contains(f.id) {
            (fl, started)
        } else {
            (fl.insert(f.id), started.push((f.id, f.url@)))
        }
    }
}

/// The candidate story at `step` of a search for an unread story from
/// `start`, forwards (`dir >= 0`) or backwards, wrapping round `n` stories.
pub open spec fn unread_candidate(start: int, n: int, step: int, dir: i32) -> int {
    if dir >= 0 {
        (start + step) % n
    } else {
        (start + n - step % n) % n
    }
}

/// Where a search for an unread story starts: the selected story, else the first.
pub open spec fn step_origin(o: App) -> int {
    match o.article_sel {
        Some(i) => i as int,
        None => 0,
    }
}

/// The story that step `k` of a search for an unread story lands on.
pub open spec fn story_at_step(o: App, dir: i32, k: int) -> int {
    unread_candidate(step_origin(o), o.articles@.len() as int, k, dir)
}

/// Step `k` (of `1..=n`) of the search lands on an unread story.
pub open spec fn unread_at_step(o: App, dir: i32, k: int) -> bool {
    1 <= k <= o.articles@.len() && !o.articles@[story_at_step(o, dir, k)].is_read
}

/// `step_unread(dir)`: the story at the first step (of `1..=n`) that lands on
/// an unread story gets selected, with the stories pane focused; with no
/// stories, or no unread story, the status line says so.
pub open spec fn stepped(o: App, dir: i32, n: App) -> bool {
    if o.articles@.len() == 0 {
        with_status(o, "no stories"@, true, n)
    } else if exists|k: int| #[trigger] unread_at_step(o, dir, k) {
        exists|k: int|
            {
                &&& #[trigger] unread_at_step(o, dir, k)
                &&& forall|j: int| 1 <= j < k ==> !#[trigger] unread_at_step(o, dir, j)
                &&& n == App {
                    article_sel: Some(story_at_step(o, dir, k) as usize),
                    reader_scroll: 0,
                    focus: Focus::Articles,
                    ..o
                }
            }
    } else {
        with_status(o, "no unread stories in this list"@, false, n)
    }
}

/// `move_sel(delta)` in the focused pane: the feed row wraps round "All" and
/// the feeds (and the stories are reloaded), the story row wraps round the
/// stories, the reader scrolls.
pub open spec fn moved(o: App, delta: i32, n: App, r: Action) -> bool {
    match o.focus {
        Focus::Feeds => {
            &&& n == App {
                feed_sel: Some(
                    wrapped_index(feed_row(o.feed_sel), o.feeds@.len() + 1 as int, delta as int) as usize,
                ),
                ..o
            }
            &&& r == Action::LoadArticles { keep: None, quiet: true }
        },
        Focus::Articles => {
            &&& r == Action::Nothing
            &&& if o.articles@.len() == 0 {
                n == o
            } else {
                n == App {
                    article_sel: Some(
                        wrapped_index(
                            match o.article_sel {
                                Some(i) => i as int,
                                None => 0,
                            },
                            o.articles@.len() as int,
                            delta as int,
                        ) as usize,
                    ),
                    reader_scroll: 0,
                    ..o
                }
            }
        },
        Focus::Reader => {
            &&& n == App { reader_scroll: scrolled(o.reader_scroll, delta), ..o }
            &&& r == Action::Nothing
        },
    }
}

/// `jump(top)` in the focused pane: first or last feed row (reloading the
/// stories), first or last story, top or far down the reader.
pub open spec fn jumped(o: App, top: bool, n: App, r: Action) -> bool {
    match o.focus {
        Focus::Feeds => {
            &&& n == App {
                feed_sel: Some(
                    if top {
                        0usize
                    } else {
                        o.feeds@.len() as usize
                    },
                ),
                ..o
            }
            &&& r == Action::LoadArticles { keep: None, quiet: true }
        },
        Focus::Articles => {
            &&& r == Action::Nothing
            &&& if o.articles@.len() == 0 {
                n == o
            } else {
                n == App {
                    article_sel: Some(
                        if top {
                            0usize
                        } else {
                            (o.articles@.len() - 1) as usize
                        },
                    ),
                    reader_scroll: 0,
                    ..o
                }
            }
        },
        Focus::Reader => {
            &&& n == App {
                reader_scroll: if top {
                    0u16
                } else {
                    (u16::MAX / 2) as u16
                },
                ..o
            }
            &&& r == Action::Nothing
        },
    }
}

/// `refresh_all`: every feed not yet in flight is fetched, with the batch
/// count reset; with no feeds the status line says so.
pub open spec fn refreshed_all(o: App, n: App, r: Action) -> bool {
    if o.feeds@.len() == 0 {
        &&& with_status(o, "no feeds to refresh — press a to add one"@, true, n)
        &&& r == Action::Nothing
    } else {
        let (fl, started) = spawn_all(o.in_flight@, o.feeds@);
        &&& n.status@ == "fetching "@ + digits(o.feeds@.len()) + " feeds…"@
        &&& n.in_flight@ == fl
        &&& n == App {
            batch_new: 0,
            status: n.status,
            status_error: false,
            in_flight: n.in_flight,
            ..o
        }
        &&& r matches Action::Fetch { feeds } && fetch_views(feeds@) == started
    }
}

/// `spawn_fetch(id, url)` asked for: `id` is registered in flight and its
/// fetch started, unless it is already in flight.
pub open spec fn spawned(o: App, id: i64, url: Seq<char>, n: App, r: Option<(i64, String)>) -> bool {
    if o.in_flight@.contains(id) {
        n == o && r is None
    } else {
        &&& n.in_flight@ == o.in_flight@.insert(id)
        &&& n == App { in_flight: n.in_flight, ..o }
        &&& r matches Some(p) && p.0 == id && p.1@ == url
    }
}

/// `refresh_selected`: the selected feed is fetched (all feeds when "All"
/// is selected).
pub open spec fn refreshed_selected(o: App, n: App, r: Action) -> bool {
    match o.sel_feed() {
        Some(f) => if o.in_flight@.contains(f.id) {
            n == o && r == Action::Nothing
        } else {
            &&& n.in_flight@ == o.in_flight@.insert(f.id)
            &&& n == App { in_flight: n.in_flight, ..o }
            &&& r matches Action::Fetch { feeds } && fetch_views(feeds@) == seq![(f.id, f.url@)]
        },
        None => refreshed_all(o, n, r),
    }
}

/// `toggle_read`: the selected story's read mark flips, here and in storage.
pub open spec fn toggled(o: App, n: App, r: Action) -> bool {
    match o.sel_article() {
        Some(a) => {
            let i = o.article_sel->0 as int;
            &&& n.articles@ == o.articles@.update(i, Article { is_read: !a.is_read, ..a })
            &&& n == App { articles: n.articles, ..o }
            &&& r == Action::SetRead { id: a.id, read: !a.is_read }
        },
        None => n == o && r == Action::Nothing,
    }
}

/// `open_browser`: the selected story's link is opened, the story marked
/// read first when it is unread; without a story or a link the status line
/// says so.
pub open spec fn opened(o: App, n: App, r: Action) -> bool {
    match o.sel_article() {
        None => with_status(o, "no story selected"@, true, n) && r == Action::Nothing,
        Some(a) => match a.url {
            None => with_status(o, "story has no link"@, true, n) && r == Action::Nothing,
            Some(url) => if a.is_read {
                &&& n == o
                &&& r matches Action::Open { url: u, mark_read } && u@ == url@ && mark_read is None
            } else {
                let i = o.article_sel->0 as int;
                &&& n.articles@ == o.articles@.update(i, Article { is_read: true, ..a })
                &&& n == App { articles: n.articles, ..o }
                &&& r matches Action::Open { url: u, mark_read } && u@ == url@ && mark_read
                    == Some(a.id)
            },
        },
    }
}

/// `add_feed_named(raw, title)`: the typed text becomes a feed URL, to be
/// subscribed under `title` (the URL when there is none); text that is only
/// whitespace is refused in the status line.
pub open spec fn added(o: App, raw: Seq<char>, title: Option<Seq<char>>, n: App, r: Action) -> bool {
    if trim(raw).len() == 0 {
        with_status(o, "feed URL is empty"@, true, n) && r == Action::Nothing
    } else {
        &&& n == o
        &&& r matches Action::AddFeed { url, title: t } && url@ == normalized(raw) && t@ == match title {
            Some(t) => t,
            None => normalized(raw),
        }
    }
}

/// `n` is `o` with the dialog closed and its input cleared.
pub open spec fn closed_dialog(o: App, n: App) -> bool {
    n.input@.len() == 0 && n == App { mode: Mode::Normal, input: n.input, ..o }
}

/// Enter in the add-feed dialog: URL-like text is subscribed as typed, else
/// the catalogue entry under the cursor, else any other non-blank text.
pub open spec fn submitted(o: App, n: App, r: Action) -> bool {
    if url_like(o.input@) {
        exists|m: App| closed_dialog(o, m) && added(m, o.input@, None, n, r)
    } else if catalog_pick(o) is Some {
        let f = catalog_pick(o)->0;
        exists|m: App| closed_dialog(o, m) && added(m, f.url@, Some(f.name@), n, r)
    } else if trim(o.input@).len() > 0 {
        exists|m: App| closed_dialog(o, m) && added(m, o.input@, None, n, r)
    } else {
        with_status(o, "pick a popular feed or paste an RSS URL"@, true, n) && r == Action::Nothing
    }
}

/// The input of a dialog after a key that edits it: Backspace drops the last
/// character, Control-U clears it, a character without Control is typed;
/// `None` for any other key.
pub open spec fn edited_input(input: Seq<char>, key: Key) -> Option<Seq<char>> {
    match key.code {
        KeyCode::Backspace => Some(
            if input.len() > 0 {
                input.drop_last()
            } else {
                input
            },
        ),
        KeyCode::Char(c) => if c == 'u' && key.ctrl {
            Some(Seq::empty())
        } else if !key.ctrl {
            Some(input.push(c))
        } else {
            None
        },
        _ => None,
    }
}

/// The search applied for typed text: the trimmed text, or none when blank.
pub open spec fn search_for(input: Seq<char>) -> Option<Seq<char>> {
    if trim(input).len() == 0 {
        None
    } else {
        Some(trim(input))
    }
}

/// `n` searches for `q` (`None`: no search).
pub open spec fn searching(n: App, q: Option<Seq<char>>) -> bool {
    match (n.search, q) {
        (Some(s), Some(t)) => s@ == t,
        (None, None) => true,
        _ => false,
    }
}

/// A key in the add-feed dialog.
pub open spec fn add_feed_key(o: App, key: Key, n: App, r: Action) -> bool {
    match key.code {
        KeyCode::Esc => closed_dialog(o, n) && r == Action::Nothing,
        KeyCode::Up | KeyCode::Down => {
            let len = offered_feeds(o).len() as int;
            let delta: int = if key.code == KeyCode::Up {
                -1
            } else {
                1
            };
            &&& r == Action::Nothing
            &&& n == App {
                catalog_sel: if len == 0 {
                    None
                } else {
                    Some(
                        wrapped_index(
                            match o.catalog_sel {
                                Some(i) => i as int,
                                None => 0,
                            },
                            len,
                            delta,
                        ) as usize,
                    )
                },
                ..o
            }
        },
        KeyCode::Tab => r == Action::Nothing && match catalog_pick(o) {
            Some(f) => n.input@ == f.url@ && n == App {
                input: n.input,
                catalog_sel: Some(0usize),
                ..o
            },
            None => n == o,
        },
        KeyCode::Enter => submitted(o, n, r),
        _ => r == Action::Nothing && match edited_input(o.input@, key) {
            Some(t) => n.input@ == t && n == App { input: n.input, catalog_sel: Some(0usize), ..o },
            None => n == o,
        },
    }
}

/// A key in the search prompt: editing keys search as you type, Enter
/// applies the search, Esc drops it; each reloads the stories.
pub open spec fn search_key(o: App, key: Key, n: App, r: Action) -> bool {
    match key.code {
        KeyCode::Esc => {
            &&& n.input@.len() == 0
            &&& n == App { mode: Mode::Normal, input: n.input, search: None, ..o }
            &&& r == Action::LoadArticles { keep: None, quiet: false }
        },
        KeyCode::Enter => {
            &&& searching(n, search_for(o.input@))
            &&& n == App { mode: Mode::Normal, search: n.search, ..o }
            &&& r == Action::LoadArticles { keep: None, quiet: false }
        },
        _ => match edited_input(o.input@, key) {
            Some(t) => {
                &&& n.input@ == t
                &&& searching(n, search_for(t))
                &&& n == App { input: n.input, search: n.search, ..o }
                &&& r == Action::LoadArticles { keep: None, quiet: false }
            },
            None => n == o && r == Action::Nothing,
        },
    }
}

/// A key in the delete confirmation: `y` deletes the selected feed (going
/// back to "All"), `n` or Esc cancels.
pub open spec fn confirm_key(o: App, key: Key, n: App, r: Action) -> bool {
    match key.code {
        KeyCode::Char(c) => if c == 'y' || c == 'Y' {
            match o.sel_feed() {
                Some(f) => {
                    &&& n.status@ == "removed "@ + f.title@
                    &&& n == App {
                        mode: Mode::Normal,
                        status: n.status,
                        status_error: false,
                        feed_sel: Some(0usize),
                        ..o
                    }
                    &&& r == Action::DeleteFeed { id: f.id }
                },
                None => n == App { mode: Mode::Normal, ..o } && r == Action::Nothing,
            }
        } else if c == 'n' || c == 'N' {
            n == App { mode: Mode::Normal, ..o } && r == Action::Nothing
        } else {
            n == o && r == Action::Nothing
        },
        KeyCode::Esc => n == App { mode: Mode::Normal, ..o } && r == Action::Nothing,
        _ => n == o && r == Action::Nothing,
    }
}

/// A key in the normal mode.
pub open spec fn normal_key(o: App, key: Key, n: App, r: Action) -> bool {
    match key.code {
        KeyCode::Esc => n == o && r == Action::Quit,
        KeyCode::Tab => n == App { focus: focus_after(o.focus, true), ..o } && r == Action::Nothing,
        KeyCode::BackTab | KeyCode::Left => n == App { focus: focus_after(o.focus, false), ..o }
            && r == Action::Nothing,
        KeyCode::Right => n == App { focus: focus_after(o.focus, true), ..o } && r
            == Action::Nothing,
        KeyCode::Down => moved(o, 1, n, r),
        KeyCode::Up => moved(o, -1i32, n, r),
        KeyCode::PageDown => n == App { reader_scroll: scrolled(o.reader_scroll, 8), ..o } && r
            == Action::Nothing,
        KeyCode::PageUp => n == App { reader_scroll: scrolled(o.reader_scroll, -8i32), ..o } && r
            == Action::Nothing,
        KeyCode::Enter => opened(o, n, r),
        KeyCode::Char(c) => normal_char(o, c, n, r),
        _ => n == o && r == Action::Nothing,
    }
}

/// A character key in the normal mode.
pub open spec fn normal_char(o: App, c: char, n: App, r: Action) -> bool {
    if c == 'q' {
        n == o && r == Action::Quit
    } else if c == '?' {
        n == App { mode: Mode::Help, ..o } && r == Action::Nothing
    } else if c == 'h' {
        n == App { focus: focus_after(o.focus, false), ..o } && r == Action::Nothing
    } else if c == 'l' {
        n == App { focus: focus_after(o.focus, true), ..o } && r == Action::Nothing
    } else if c == 'j' {
        moved(o, 1, n, r)
    } else if c == 'k' {
        moved(o, -1i32, n, r)
    } else if c == 'g' {
        jumped(o, true, n, r)
    } else if c == 'G' {
        jumped(o, false, n, r)
    } else if c == 'r' {
        refreshed_selected(o, n, r)
    } else if c == 'R' {
        refreshed_all(o, n, r)
    } else if c == 'a' {
        n.input@.len() == 0 && n == App {
            input: n.input,
            catalog_sel: Some(0usize),
            mode: Mode::AddFeed,
            ..o
        } && r == Action::Nothing
    } else if c == 'd' {
        r == Action::Nothing && if o.sel_feed() is Some {
            n == App { mode: Mode::ConfirmDelete, ..o }
        } else {
            with_status(o, "select a feed to delete"@, true, n)
        }
    } else if c == 'o' {
        opened(o, n, r)
    } else if c == ' ' || c == 'm' {
        toggled(o, n, r)
    } else if c == 'A' {
        &&& with_status(o, "marked visible stories read"@, false, n)
        &&& r matches Action::MarkRead { ids, keep } && ids@ == story_ids(o.articles@) && keep
            == o.sel_article_id()
    } else if c == 'n' {
        stepped(o, 1, n) && r == Action::Nothing
    } else if c == 'p' {
        stepped(o, -1i32, n) && r == Action::Nothing
    } else if c == '/' {
        &&& n.input@ == match o.search {
            Some(s) => s@,
            None => Seq::empty(),
        }
        &&& n == App { input: n.input, mode: Mode::Search, ..o }
        &&& r == Action::Nothing
    } else if c == 'u' {
        &&& n.status@ == if !o.unread_only {
            "showing unread only"@
        } else {
            "showing all stories"@
        }
        &&& n == App {
            unread_only: !o.unread_only,
            status: n.status,
            status_error: false,
            ..o
        }
        &&& r == Action::LoadArticles { keep: o.sel_article_id(), quiet: false }
    } else {
        n == o && r == Action::Nothing
    }
}

/// Control-C.
pub open spec fn is_interrupt(key: Key) -> bool {
    key.ctrl && (key.code == KeyCode::Char('c') || key.code == KeyCode::Char('C'))
}

/// What a key does: releases are ignored, Control-C quits, any key closes
/// the help, and otherwise the mode decides.
pub open spec fn key_step(o: App, key: Key, n: App, r: Action) -> bool {
    if !key.press {
        n == o && r == Action::Nothing
    } else if is_interrupt(key) {
        n == o && r == Action::Quit
    } else {
        match o.mode {
            Mode::Help => n == App { mode: Mode::Normal, ..o } && r == Action::Nothing,
            Mode::AddFeed => add_feed_key(o, key, n, r),
            Mode::Search => search_key(o, key, n, r),
            Mode::ConfirmDelete => confirm_key(o, key, n, r),
            Mode::Normal => normal_key(o, key, n, r),
        }
    }
}

/// The first index of a feed with id `id`.
pub open spec fn find_feed(fs: Seq<Feed>, id: i64) -> Option<int>
    decreases fs.len(),
{
    if fs.len() == 0 {
        None
    } else if fs[0].id == id {
        Some(0)
    } else {
        match find_feed(fs.drop_first(), id) {
            Some(i) => Some(i + 1),
            None => None,
        }
    }
}

/// The index of the first feed with id `id`.
fn position_of_feed(feeds: &Vec<Feed>, id: i64) -> (r: Option<usize>)
    ensures
        match find_feed(feeds@, id) {
            Some(j) => r == Some(j as usize) && 0 <= j < feeds@.len(),
            None => r is None,
        },
        r matches Some(j) ==> j < feeds@.len(),
{
    let n = feeds.len();
    let mut i: usize = 0;
    proof {
        assert(feeds@.skip(0) == feeds@);
    }
    while i < n
        invariant
            i <= n == feeds@.len(),
            find_feed(feeds@, id) == match find_feed(feeds@.skip(i as int), id) {
                Some(j) => Some(j + i),
                None => None,
            },
        decreases n - i,
    {
        proof {
            let rest = feeds@.skip(i as int);
            assert(rest[0] == feeds@[i as int]);
            assert(rest.drop_first() == feeds@.skip(i + 1));
        }
        if feeds[i].id == id {
            return Some(i);
        }
        i = i + 1;
    }
    proof {
        assert(feeds@.skip(n as int).len() == 0);
    }
    None
}

/// The status line while fetching `n` feeds.
fn fetching_status(n: usize) -> (r: String)
    ensures
        r@ == "fetching "@ + digits(n as nat) + " feeds…"@,
{
    let mut s = owned("fetching ");
    let d = u64_text(n as u64);
    push_str(&mut s, d.as_str());
    push_str(&mut s, " feeds…");
    s
}

/// Two strings joined.
fn concat(a: &str, b: &str) -> (r: String)
    ensures
        r@ == a@ + b@,
{
    let mut s = owned(a);
    push_str(&mut s, b);
    s
}

impl App {
    /// Register feed `feed_id` as in flight and hand back what to fetch,
    /// unless it is already being fetched.
    fn spawn_fetch(&mut self, feed_id: i64, url: String) -> (r: Option<(i64, String)>)
        requires
            old(self).wf(),
        ensures
            final(self).wf(),
            spawned(*old(self), feed_id, url@, *final(self), r),
    {
        if self.in_flight.contains(&feed_id) {
            return None;
        }
        self.in_flight.insert(feed_id);
        Some((feed_id, url))
    }

    /// Fetch every feed that is not being fetched yet.
    pub fn refresh_all(&mut self) -> (r: Action)
        requires
            old(self).wf(),
        ensures
            final(self).wf(),
            refreshed_all(*old(self), *final(self), r),
    {
        let n = self.feeds.len();
        if n == 0 {
            self.set_status("no feeds to refresh — press a to add one", true);
            return Action::Nothing;
        }
        self.batch_new = 0;
        self.status = fetching_status(n);
        self.status_error = false;
        let ghost mid = *self;
        let ghost o = *old(self);
        let mut started: Vec<(i64, String)> = Vec::new();
        let mut i: usize = 0;
        while i < n
            invariant
                i <= n == self.feeds@.len(),
                self.wf(),
                *self == (App { in_flight: self.in_flight, ..mid }),
                mid.feeds == o.feeds,
                (self.in_flight@, fetch_views(started@)) == spawn_all(
                    o.in_flight@,
                    o.feeds@.take(i as int),
                ),
            decreases n - i,
        {
            let id = self.feeds[i].id;
            let url = self.feeds[i].url.clone();
            proof {
                assert(o.feeds@.take(i + 1).drop_last() == o.feeds@.take(i as int));
                assert(o.feeds@.take(i + 1).last() == o.feeds@[i as int]);
            }
            if let Some(p) = self.spawn_fetch(id, url) {
                proof {
                    assert(fetch_views(started@.push(p)) =~= fetch_views(started@).push((p.0, p.1@)));
                }
                started.push(p);
            }
            i = i + 1;
        }
        proof {
            assert(o.feeds@.take(n as int) == o.feeds@);
        }
        Action::Fetch { feeds: started }
    }

    /// Fetch the selected feed, or all feeds when "All" is selected.
    fn refresh_selected(&mut self) -> (r: Action)
        requires
            old(self).wf(),
        ensures
            final(self).wf(),
            refreshed_selected(*old(self), *final(self), r),
    {
        let picked = match self.selected_feed() {
            Some(f) => Some((f.id, f.url.clone())),
            None => None,
        };
        match picked {
            Some((id, url)) => match self.spawn_fetch(id, url) {
                Some(p) => {
                    let mut v = Vec::new();
                    v.push(p);
                    proof {
                        assert(fetch_views(v@) =~= seq![(p.0, p.1@)]);
                    }
                    Action::Fetch { feeds: v }
                },
                None => Action::Nothing,
            },
            None => self.refresh_all(),
        }
    }

    /// Move the selection of the focused pane by one row (or scroll the reader).
    fn move_sel(&mut self, delta: i32) -> (r: Action)
        requires
            old(self).wf(),
            delta == 1 || delta == -1,
        ensures
            final(self).wf(),
            moved(*old(self), delta, *final(self), r),
    {
        match self.focus {
            Focus::Feeds => {
                let len = self.feeds.len() + 1;
                let cur = match self.feed_sel {
                    Some(i) => i,
                    None => 0,
                };
                let next = wrap_index(cur, len, delta);
                self.feed_sel = Some(next);
                Action::LoadArticles { keep: None, quiet: true }
            },
            Focus::Articles => {
                if self.articles.len() == 0 {
                    return Action::Nothing;
                }
                let cur = match self.article_sel {
                    Some(i) => i,
                    None => 0,
                };
                let next = wrap_index(cur, self.articles.len(), delta);
                self.article_sel = Some(next);
                self.reader_scroll = 0;
                Action::Nothing
            },
            Focus::Reader => {
                self.scroll_reader(delta);
                Action::Nothing
            },
        }
    }

    /// Jump to the first (or last) row of the focused pane.
    fn jump(&mut self, top: bool) -> (r: Action)
        requires
            old(self).wf(),
        ensures
            final(self).wf(),
            jumped(*old(self), top, *final(self), r),
    {
        match self.focus {
            Focus::Feeds => {
                let idx = if top {
                    0
                } else {
                    self.feeds.len()
                };
                self.feed_sel = Some(idx);
                Action::LoadArticles { keep: None, quiet: true }
            },
            Focus::Articles => {
                if self.articles.len() > 0 {
                    let idx = if top {
                        0
                    } else {
                        self.articles.len() - 1
                    };
                    self.article_sel = Some(idx);
                    self.reader_scroll = 0;
                }
                Action::Nothing
            },
            Focus::Reader => {
                self.reader_scroll = if top {
                    0
                } else {
                    u16::MAX / 2
                };
                Action::Nothing
            },
        }
    }

    /// Select the next (or previous) unread story, wrapping round.
    fn step_unread(&mut self, dir: i32)
        requires
            old(self).wf(),
        ensures
            final(self).wf(),
            stepped(*old(self), dir, *final(self)),
    {
        let n = self.articles.len();
        if n == 0 {
            self.set_status("no stories", true);
            return;
        }
        let start = match self.article_sel {
            Some(i) => i,
            None => 0,
        };
        let mut step: usize = 1;
        while step <= n
            invariant
                n == self.articles@.len(),
                n > 0,
                n < max_rows(),
                old(self).wf(),
                start < n,
                1 <= step <= n + 1,
                *self == *old(self),
                start == step_origin(*old(self)),
                forall|j: int| 1 <= j < step ==> !#[trigger] unread_at_step(*old(self), dir, j),
            decreases n + 1 - step,
        {
            let idx = if dir >= 0 {
                (start + step) % n
            } else {
                (start + n - (step % n)) % n
            };
            assert(idx == story_at_step(*old(self), dir, step as int));
            if !self.articles[idx].is_read {
                proof {
                    assert(unread_at_step(*old(self), dir, step as int));
                }
                self.article_sel = Some(idx);
                self.reader_scroll = 0;
                self.focus = Focus::Articles;
                return;
            }
            assert(!unread_at_step(*old(self), dir, step as int));
            step = step + 1;
        }
        proof {
            assert forall|k: int| !unread_at_step(*old(self), dir, k) by {
                if 1 <= k <= n {
                    assert(k < step);
                }
            }
        }
        self.set_status("no unread stories in this list", false);
    }

    /// Flip the read mark of the selected story.
    fn toggle_read(&mut self) -> (r: Action)
        requires
            old(self).wf(),
        ensures
            final(self).wf(),
            toggled(*old(self), *final(self), r),
    {
        let idx = match self.article_sel {
            Some(i) => i,
            None => return Action::Nothing,
        };
        if idx >= self.articles.len() {
            return Action::Nothing;
        }
        let ghost pre = self.articles@;
        let mut a = self.articles.remove(idx);
        let next = !a.is_read;
        a.is_read = next;
        let id = a.id;
        self.articles.insert(idx, a);
        proof {
            assert(self.articles@ =~= pre.update(idx as int, Article { is_read: next, ..pre[idx as int] }));
        }
        Action::SetRead { id, read: next }
    }

    /// Open the selected story's link, marking the story read.
    fn open_browser(&mut self) -> (r: Action)
        requires
            old(self).wf(),
        ensures
            final(self).wf(),
            opened(*old(self), *final(self), r),
    {
        let picked = match self.selected_article() {
            Some(a) => Some((a.id, a.is_read, a.url.clone())),
            None => None,
        };
        let (id, is_read, url) = match picked {
            Some(p) => p,
            None => {
                self.set_status("no story selected", true);
                return Action::Nothing;
            },
        };
        let url = match url {
            Some(u) => u,
            None => {
                self.set_status("story has no link", true);
                return Action::Nothing;
            },
        };
        if is_read {
            return Action::Open { url, mark_read: None };
        }
        let idx = match self.article_sel {
            Some(i) => i,
            None => 0,
        };
        let ghost pre = self.articles@;
        let mut a = self.articles.remove(idx);
        a.is_read = true;
        self.articles.insert(idx, a);
        proof {
            assert(self.articles@ =~= pre.update(idx as int, Article { is_read: true, ..pre[idx as int] }));
        }
        Action::Open { url, mark_read: Some(id) }
    }

    /// The catalogue entries offered for what is typed in the add-feed dialog.
    pub fn catalog_matches(&self) -> (r: Vec<CatalogFeed>)
        ensures
            r@ == offered_feeds(*self),
    {
        let mut subscribed: Vec<&str> = Vec::new();
        let n = self.feeds.len();
        let mut i: usize = 0;
        while i < n
            invariant
                i <= n == self.feeds@.len(),
                str_views(subscribed@) == feed_urls(self.feeds@.take(i as int)),
            decreases n - i,
        {
            let u = self.feeds[i].url.as_str();
            let ghost before = subscribed@;
            subscribed.push(u);
            proof {
                assert(self.feeds@.take(i + 1) == self.feeds@.take(i as int).push(self.feeds@[i as int]));
                assert(feed_urls(self.feeds@.take(i + 1)) =~= feed_urls(self.feeds@.take(i as int)).push(u@));
                assert(str_views(subscribed@) =~= str_views(before).push(u@));
            }
            i = i + 1;
        }
        proof {
            assert(self.feeds@.take(n as int) == self.feeds@);
        }
        catalog_suggestions(self.input.as_str(), subscribed.as_slice())
    }

    /// Move the cursor of the add-feed dialog, wrapping round the entries.
    fn move_catalog(&mut self, delta: i32)
        requires
            old(self).wf(),
            delta == 1 || delta == -1,
        ensures
            final(self).wf(),
            ({
                let o = *old(self);
                let len = offered_feeds(o).len() as int;
                *final(self) == App {
                    catalog_sel: if len == 0 {
                        None
                    } else {
                        Some(
                            wrapped_index(
                                match o.catalog_sel {
                                    Some(i) => i as int,
                                    None => 0,
                                },
                                len,
                                delta as int,
                            ) as usize,
                        )
                    },
                    ..o
                }
            }),
    {
        broadcast use Seq::lemma_filter_len;
        let len = self.catalog_matches().len();
        if len == 0 {
            self.catalog_sel = None;
            return;
        }
        let cur = match self.catalog_sel {
            Some(i) => i,
            None => 0,
        };
        self.catalog_sel = Some(wrap_index(cur, len, delta));
    }

    /// The catalogue entry under the dialog's cursor.
    fn selected_catalog(&self) -> (r: Option<CatalogFeed>)
        ensures
            r == catalog_pick(*self),
    {
        let matches = self.catalog_matches();
        match self.catalog_sel {
            Some(i) => if i < matches.len() {
                Some(matches[i])
            } else {
                None
            },
            None => None,
        }
    }

    /// Subscribe to typed text as a feed URL, under `title` (or the URL).
    fn add_feed_named(&mut self, raw: &str, title: Option<&str>) -> (r: Action)
        requires
            old(self).wf(),
        ensures
            final(self).wf(),
            added(*old(self), raw@, crate::html::opt_str_view(title), *final(self), r),
    {
        match normalize_url(raw) {
            Err(e) => {
                let msg = e.message();
                self.set_status(msg.as_str(), true);
                Action::Nothing
            },
            Ok(url) => {
                let title = match title {
                    Some(t) => owned(t),
                    None => url.clone(),
                };
                Action::AddFeed { url, title }
            },
        }
    }

    /// Enter in the add-feed dialog.
    fn submit_add_feed(&mut self) -> (r: Action)
        requires
            old(self).wf(),
        ensures
            final(self).wf(),
            submitted(*old(self), *final(self), r),
    {
        if looks_like_feed_url(self.input.as_str()) {
            let raw = self.input.clone();
            self.mode = Mode::Normal;
            self.input = String::new();
            let ghost m = *self;
            let r = self.add_feed_named(raw.as_str(), None);
            assert(closed_dialog(*old(self), m));
            return r;
        }
        if let Some(feed) = self.selected_catalog() {
            self.mode = Mode::Normal;
            self.input = String::new();
            let ghost m = *self;
            let r = self.add_feed_named(feed.url, Some(feed.name));
            assert(closed_dialog(*old(self), m));
            return r;
        }
        if !is_blank(self.input.as_str()) {
            let raw = self.input.clone();
            self.mode = Mode::Normal;
            self.input = String::new();
            let ghost m = *self;
            let r = self.add_feed_named(raw.as_str(), None);
            assert(closed_dialog(*old(self), m));
            return r;
        }
        self.set_status("pick a popular feed or paste an RSS URL", true);
        Action::Nothing
    }

    /// Apply an edit of the dialog's input; `false` when the key is no edit.
    fn edit_input(&mut self, key: Key) -> (r: bool)
        ensures
            match edited_input(old(self).input@, key) {
                Some(t) => r && final(self).input@ == t && *final(self) == (App {
                    input: final(self).input,
                    ..*old(self)
                }),
                None => !r && *final(self) == *old(self),
            },
    {
        match key.code {
            KeyCode::Backspace => {
                pop_char(&mut self.input);
                true
            },
            KeyCode::Char(c) => {
                if c == 'u' && key.ctrl {
                    self.input = String::new();
                    true
                } else if !key.ctrl {
                    push_char(&mut self.input, c);
                    true
                } else {
                    false
                }
            },
            _ => false,
        }
    }

    /// A key in the add-feed dialog.
    fn handle_add_feed(&mut self, key: Key) -> (r: Action)
        requires
            old(self).wf(),
            old(self).mode == Mode::AddFeed,
        ensures
            final(self).wf(),
            add_feed_key(*old(self), key, *final(self), r),
    {
        match key.code {
            KeyCode::Esc => {
                self.mode = Mode::Normal;
                self.input = String::new();
                Action::Nothing
            },
            KeyCode::Up => {
                self.move_catalog(-1);
                Action::Nothing
            },
            KeyCode::Down => {
                self.move_catalog(1);
                Action::Nothing
            },
            KeyCode::Tab => {
                if let Some(feed) = self.selected_catalog() {
                    self.input = owned(feed.url);
                    self.catalog_sel = Some(0);
                }
                Action::Nothing
            },
            KeyCode::Enter => self.submit_add_feed(),
            _ => {
                if self.edit_input(key) {
                    self.catalog_sel = Some(0);
                }
                Action::Nothing
            },
        }
    }

    /// Search for the typed text as it is typed.
    fn live_search(&mut self) -> (r: Action)
        ensures
            searching(*final(self), search_for(old(self).input@)),
            *final(self) == (App { search: final(self).search, ..*old(self) }),
            r == (Action::LoadArticles { keep: None, quiet: false }),
    {
        let q = trim_str(self.input.as_str());
        self.search = if q.as_str().is_empty() {
            None
        } else {
            Some(q)
        };
        Action::LoadArticles { keep: None, quiet: false }
    }

    /// A key in the search prompt.
    fn handle_search(&mut self, key: Key) -> (r: Action)
        requires
            old(self).wf(),
        ensures
            final(self).wf(),
            search_key(*old(self), key, *final(self), r),
    {
        match key.code {
            KeyCode::Esc => {
                self.mode = Mode::Normal;
                self.input = String::new();
                self.search = None;
                Action::LoadArticles { keep: None, quiet: false }
            },
            KeyCode::Enter => {
                self.mode = Mode::Normal;
                self.live_search()
            },
            _ => {
                if self.edit_input(key) {
                    self.live_search()
                } else {
                    Action::Nothing
                }
            },
        }
    }

    /// A key in the delete confirmation.
    fn handle_confirm_delete(&mut self, key: Key) -> (r: Action)
        requires
            old(self).wf(),
        ensures
            final(self).wf(),
            confirm_key(*old(self), key, *final(self), r),
    {
        match key.code {
            KeyCode::Char(c) => {
                if c == 'y' || c == 'Y' {
                    self.mode = Mode::Normal;
                    let picked = match self.selected_feed() {
                        Some(f) => Some((f.id, concat("removed ", f.title.as_str()))),
                        None => None,
                    };
                    match picked {
                        Some((id, msg)) => {
                            self.status = msg;
                            self.status_error = false;
                            self.feed_sel = Some(0);
                            Action::DeleteFeed { id }
                        },
                        None => Action::Nothing,
                    }
                } else if c == 'n' || c == 'N' {
                    self.mode = Mode::Normal;
                    Action::Nothing
                } else {
                    Action::Nothing
                }
            },
            KeyCode::Esc => {
                self.mode = Mode::Normal;
                Action::Nothing
            },
            _ => Action::Nothing,
        }
    }

    /// A character key in the normal mode.
    fn handle_normal_char(&mut self, c: char) -> (r: Action)
        requires
            old(self).wf(),
        ensures
            final(self).wf(),
            normal_char(*old(self), c, *final(self), r),
    {
        if c == 'q' {
            Action::Quit
        } else if c == '?' {
            self.mode = Mode::Help;
            Action::Nothing
        } else if c == 'h' {
            self.cycle_focus(false);
            Action::Nothing
        } else if c == 'l' {
            self.cycle_focus(true);
            Action::Nothing
        } else if c == 'j' {
            self.move_sel(1)
        } else if c == 'k' {
            self.move_sel(-1)
        } else if c == 'g' {
            self.jump(true)
        } else if c == 'G' {
            self.jump(false)
        } else if c == 'r' {
            self.refresh_selected()
        } else if c == 'R' {
            self.refresh_all()
        } else if c == 'a' {
            self.input = String::new();
            self.catalog_sel = Some(0);
            self.mode = Mode::AddFeed;
            Action::Nothing
        } else if c == 'd' {
            if self.selected_feed().is_some() {
                self.mode = Mode::ConfirmDelete;
            } else {
                self.set_status("select a feed to delete", true);
            }
            Action::Nothing
        } else if c == 'o' {
            self.open_browser()
        } else if c == ' ' || c == 'm' {
            self.toggle_read()
        } else if c == 'A' {
            let ids = self.listed_ids();
            let keep = self.selected_article_id();
            self.set_status("marked visible stories read", false);
            Action::MarkRead { ids, keep }
        } else if c == 'n' {
            self.step_unread(1);
            Action::Nothing
        } else if c == 'p' {
            self.step_unread(-1);
            Action::Nothing
        } else if c == '/' {
            self.input = match &self.search {
                Some(s) => s.clone(),
                None => String::new(),
            };
            self.mode = Mode::Search;
            Action::Nothing
        } else if c == 'u' {
            self.unread_only = !self.unread_only;
            let keep = self.selected_article_id();
            if self.unread_only {
                self.set_status("showing unread only", false);
            } else {
                self.set_status("showing all stories", false);
            }
            Action::LoadArticles { keep, quiet: false }
        } else {
            Action::Nothing
        }
    }

    /// A key in the normal mode.
    fn handle_normal(&mut self, key: Key) -> (r: Action)
        requires
            old(self).wf(),
        ensures
            final(self).wf(),
            normal_key(*old(self), key, *final(self), r),
    {
        match key.code {
            KeyCode::Esc => Action::Quit,
            KeyCode::Tab => {
                self.cycle_focus(true);
                Action::Nothing
            },
            KeyCode::BackTab | KeyCode::Left => {
                self.cycle_focus(false);
                Action::Nothing
            },
            KeyCode::Right => {
                self.cycle_focus(true);
                Action::Nothing
            },
            KeyCode::Down => self.move_sel(1),
            KeyCode::Up => self.move_sel(-1),
            KeyCode::PageDown => {
                self.scroll_reader(8);
                Action::Nothing
            },
            KeyCode::PageUp => {
                self.scroll_reader(-8);
                Action::Nothing
            },
            KeyCode::Enter => self.open_browser(),
            KeyCode::Char(c) => self.handle_normal_char(c),
            _ => Action::Nothing,
        }
    }

    /// Decide what a key does. The caller performs the returned action.
    pub fn handle_key(&mut self, key: Key) -> (r: Action)
        requires
            old(self).wf(),
        ensures
            final(self).wf(),
            key_step(*old(self), key, *final(self), r),
    {
        if !key.press {
            return Action::Nothing;
        }
        if key.ctrl && (key.code == KeyCode::Char('c') || key.code == KeyCode::Char('C')) {
            return Action::Quit;
        }
        match self.mode {
            Mode::Help => {
                self.mode = Mode::Normal;
                Action::Nothing
            },
            Mode::AddFeed => self.handle_add_feed(key),
            Mode::Search => self.handle_search(key),
            Mode::ConfirmDelete => self.handle_confirm_delete(key),
            Mode::Normal => self.handle_normal(key),
        }
    }

    /// A subscription was refused because `title` already has that URL.
    pub fn already_subscribed(&mut self, title: &str)
        ensures
            with_status(*old(self), "already subscribed: "@ + title@, true, *final(self)),
    {
        let msg = concat("already subscribed: ", title);
        self.set_status(msg.as_str(), true);
    }

    /// A feed was subscribed under `title`.
    pub fn feed_added(&mut self, title: &str)
        ensures
            with_status(*old(self), "added "@ + title@ + " — fetching…"@, false, *final(self)),
    {
        let mut msg = concat("added ", title);
        push_str(&mut msg, " — fetching…");
        self.set_status(msg.as_str(), false);
    }

    /// After subscribing (and reloading): select the new feed's row and fetch it.
    pub fn select_new_feed(&mut self, feed_id: i64, url: String) -> (r: Option<(i64, String)>)
        requires
            old(self).wf(),
        ensures
            final(self).wf(),
            ({
                let o = *old(self);
                let sel = match find_feed(o.feeds@, feed_id) {
                    Some(p) => Some((p + 1) as usize),
                    None => o.feed_sel,
                };
                spawned(App { feed_sel: sel, ..o }, feed_id, url@, *final(self), r)
            }),
    {
        let ghost o = *old(self);
        let ghost sel = match find_feed(o.feeds@, feed_id) {
            Some(p) => Some((p + 1) as usize),
            None => o.feed_sel,
        };
        if let Some(i) = position_of_feed(&self.feeds, feed_id) {
            self.feed_sel = Some(i + 1);
        }
        assert(*self == App { feed_sel: sel, ..o });
        self.spawn_fetch(feed_id, url)
    }

    /// A fetch of feed `feed_id` finished, having stored `new_count` new stories.
    pub fn apply_fetch(&mut self, feed_id: i64, new_count: u64)
        requires
            old(self).wf(),
            old(self).batch_new + new_count <= u64::MAX,
        ensures
            final(self).wf(),
            final(self).in_flight@ == old(self).in_flight@.remove(feed_id),
            *final(self) == (App {
                in_flight: final(self).in_flight,
                batch_new: (old(self).batch_new + new_count) as u64,
                ..*old(self)
            }),
    {
        self.in_flight.remove(&feed_id);
        self.batch_new = self.batch_new + new_count;
    }

    /// The status line after a fetch finished: progress while fetches run,
    /// the count of new stories when the batch is complete (which ends it).
    pub fn report_progress(&mut self)
        ensures
            old(self).in_flight@.len() == 0 ==> {
                &&& final(self).status@ == "refresh complete — "@ + digits(old(self).batch_new as nat)
                    + " new stories"@
                &&& *final(self) == (App {
                    status: final(self).status,
                    status_error: false,
                    batch_new: 0,
                    ..*old(self)
                })
            },
            old(self).in_flight@.len() > 0 ==> {
                &&& final(self).status@ == "fetching "@ + digits(old(self).in_flight@.len())
                    + " remaining… ("@ + digits(old(self).batch_new as nat) + " new so far)"@
                &&& *final(self) == (App {
                    status: final(self).status,
                    status_error: false,
                    ..*old(self)
                })
            },
    {
        if self.in_flight.len() == 0 {
            let mut msg = owned("refresh complete — ");
            let d = u64_text(self.batch_new);
            push_str(&mut msg, d.as_str());
            push_str(&mut msg, " new stories");
            self.set_status(msg.as_str(), false);
            self.batch_new = 0;
        } else {
            let mut msg = owned("fetching ");
            let d = u64_text(self.in_flight.len() as u64);
            push_str(&mut msg, d.as_str());
            push_str(&mut msg, " remaining… (");
            let b = u64_text(self.batch_new);
            push_str(&mut msg, b.as_str());
            push_str(&mut msg, " new so far)");
            self.set_status(msg.as_str(), false);
        }
    }

    /// What opening the browser gave: nothing, or the reason it failed.
    pub fn browser_result(&mut self, error: Option<String>)
        ensures
            match error {
                None => with_status(*old(self), "opened in browser"@, false, *final(self)),
                Some(e) => with_status(
                    *old(self),
                    "could not open browser: "@ + e@,
                    true,
                    *final(self),
                ),
            },
    {
        match error {
            None => self.set_status("opened in browser", false),
            Some(e) => {
                let msg = concat("could not open browser: ", e.as_str());
                self.set_status(msg.as_str(), true);
            },
        }
    }
}

// ---------------------------------------------------------------------------
// Laws
// ---------------------------------------------------------------------------

/// A plain key press (no Control held).
pub open spec fn press(code: KeyCode) -> Key {
    Key { code, ctrl: false, press: true }
}

/// Moving a row by `delta` and then by `-delta` comes back to the row it
/// started from: the wrap at either end undoes itself.
pub proof fn law_wrap_index_round_trip(current: int, len: int, delta: int)
    requires
        0 <= current < len,
    ensures
        0 <= wrapped_index(current, len, delta) < len,
        wrapped_index(wrapped_index(current, len, delta), len, -delta) == current,
{
    let a = (current + delta) % len;
    vstd::arithmetic::div_mod::lemma_mod_bound(current + delta, len);
    vstd::arithmetic::div_mod::lemma_add_mod_noop_right(-delta, current + delta, len);
    assert((-delta + (current + delta)) == current);
    vstd::arithmetic::div_mod::lemma_small_mod(current as nat, len as nat);
    assert((a + -delta) % len == (-delta + a) % len);
}

/// Tab steps the focus feeds → stories → reader → feeds: three presses come
/// back to the pane they started from, and Shift-Tab undoes a Tab.
pub proof fn law_focus_cycle(f: Focus)
    ensures
        focus_after(focus_after(focus_after(f, true), true), true) == f,
        focus_after(focus_after(f, true), false) == f,
        focus_after(focus_after(f, false), true) == f,
{
}

/// In the normal mode, three Tab presses leave the reader as it was.
pub proof fn law_three_tabs(a: App, b: App, c: App, d: App, r1: Action, r2: Action, r3: Action)
    requires
        a.mode == Mode::Normal,
        key_step(a, press(KeyCode::Tab), b, r1),
        key_step(b, press(KeyCode::Tab), c, r2),
        key_step(c, press(KeyCode::Tab), d, r3),
    ensures
        d == a,
        r1 == Action::Nothing && r2 == Action::Nothing && r3 == Action::Nothing,
{
    law_focus_cycle(a.focus);
}

/// Toggling the read mark twice (space, then space again, in the normal
/// mode) gives every story back its mark and changes nothing else.
pub proof fn law_toggle_twice(a: App, b: App, c: App, r1: Action, r2: Action)
    requires
        a.mode == Mode::Normal,
        key_step(a, press(KeyCode::Char(' ')), b, r1),
        key_step(b, press(KeyCode::Char(' ')), c, r2),
    ensures
        c.articles@ == a.articles@,
        (App { articles: a.articles, ..c }) == a,
{
    match a.sel_article() {
        Some(x) => {
            let i = a.article_sel->0 as int;
            assert(b.articles@[i] == Article { is_read: !x.is_read, ..x });
            assert(b.sel_article() == Some(Article { is_read: !x.is_read, ..x }));
            assert(c.articles@ =~= a.articles@);
        },
        None => {},
    }
}

/// A key that is not a press (a release or a repeat) changes nothing.
pub proof fn law_release_ignored(a: App, k: Key, b: App, r: Action)
    requires
        !k.press,
        key_step(a, k, b, r),
    ensures
        b == a,
        r == Action::Nothing,
{
}

/// Control-C quits from every mode, changing nothing; any other key pressed
/// in the help closes it.
pub proof fn law_interrupt_quits(a: App, k: Key, b: App, r: Action)
    requires
        k.press,
        key_step(a, k, b, r),
    ensures
        is_interrupt(k) ==> b == a && r == Action::Quit,
        !is_interrupt(k) && a.mode == Mode::Help ==> b == (App { mode: Mode::Normal, ..a }) && r
            == Action::Nothing,
{
}

/// "Next unread" (`n`) and "previous unread" (`p`) land on an unread story
/// whenever the list holds one, and focus the stories pane.
pub proof fn law_step_lands_on_unread(a: App, dir: i32, b: App)
    requires
        a.wf(),
        stepped(a, dir, b),
        exists|i: int| 0 <= i < a.articles@.len() && !(#[trigger] a.articles@[i]).is_read,
    ensures
        b.sel_article() matches Some(x) && !x.is_read,
        b.focus == Focus::Articles,
{
    let len = a.articles@.len() as int;
    let i = choose|i: int| 0 <= i < len && !(#[trigger] a.articles@[i]).is_read;
    let s = step_origin(a);
    assert(0 <= s < len);
    // the step that reaches `i`
    let k = if dir >= 0 {
        if i > s {
            i - s
        } else {
            i - s + len
        }
    } else {
        if i < s {
            s - i
        } else {
            s - i + len
        }
    };
    assert(1 <= k <= len);
    vstd::arithmetic::div_mod::lemma_small_mod(i as nat, len as nat);
    vstd::arithmetic::div_mod::lemma_mod_add_multiples_vanish(i, len);
    if dir >= 0 {
        assert(s + k == i || s + k == len + i);
        assert(story_at_step(a, dir, k) == (s + k) % len);
    } else {
        if k < len {
            vstd::arithmetic::div_mod::lemma_small_mod(k as nat, len as nat);
            assert(s + len - k == i || s + len - k == len + i);
        } else {
            vstd::arithmetic::div_mod::lemma_mod_self_0(len);
            assert(s + len - k % len == len + i);
        }
        assert(story_at_step(a, dir, k) == (s + len - k % len) % len);
    }
    assert(story_at_step(a, dir, k) == i);
    assert(unread_at_step(a, dir, k));
    let j = choose|j: int|
        {
            &&& #[trigger] unread_at_step(a, dir, j)
            &&& forall|m: int| 1 <= m < j ==> !#[trigger] unread_at_step(a, dir, m)
            &&& b == App {
                article_sel: Some(story_at_step(a, dir, j) as usize),
                reader_scroll: 0,
                focus: Focus::Articles,
                ..a
            }
        };
    assert(unread_at_step(a, dir, j));
    let t = story_at_step(a, dir, j);
    assert(0 <= t < len) by {
        if dir >= 0 {
            vstd::arithmetic::div_mod::lemma_mod_bound(s + j, len);
        } else {
            vstd::arithmetic::div_mod::lemma_mod_bound(j, len);
            vstd::arithmetic::div_mod::lemma_mod_bound(s + len - j % len, len);
        }
    }
    assert(b.articles@[t] == a.articles@[t]);
}

/// Loading stories keeps the selected story selected wherever it is still
/// listed.
pub proof fn law_reload_keeps_selection(arts: Seq<Article>, id: i64)
    requires
        arts.len() <= usize::MAX,
        exists|i: int| 0 <= i < arts.len() && (#[trigger] arts[i]).id == id,
    ensures
        kept_selection(arts, Some(id)) matches Some(j) && j < arts.len() && arts[j as int].id == id,
    decreases arts.len(),
{
    lemma_find_article_found(arts, id);
}

/// `find_article` finds every id that is listed, at a position holding it.
proof fn lemma_find_article_found(arts: Seq<Article>, id: i64)
    requires
        exists|i: int| 0 <= i < arts.len() && (#[trigger] arts[i]).id == id,
    ensures
        find_article(arts, id) matches Some(j) && 0 <= j < arts.len() && arts[j].id == id,
    decreases arts.len(),
{
    if arts[0].id != id {
        let i = choose|i: int| 0 <= i < arts.len() && (#[trigger] arts[i]).id == id;
        assert(arts.drop_first()[i - 1].id == id);
        lemma_find_article_found(arts.drop_first(), id);
    }
}

/// What `spawn_all` keeps: everything already in flight stays, every feed
/// ends up in flight, and a fetch is started only for a feed that was not in
/// flight, at most once per feed id.
proof fn lemma_spawn_all(fl0: Set<i64>, fs: Seq<Feed>)
    ensures
        ({
            let (fl, started) = spawn_all(fl0, fs);
            &&& forall|x: i64| fl0.contains(x) ==> fl.contains(x)
            &&& forall|i: int| 0 <= i < fs.len() ==> fl.contains(#[trigger] fs[i].id)
            &&& forall|j: int| 0 <= j < started.len() ==> !fl0.contains(#[trigger] started[j].0)
            &&& forall|j: int| 0 <= j < started.len() ==> fl.contains(#[trigger] started[j].0)
            &&& forall|j: int, k: int|
                0 <= j < k < started.len() ==> #[trigger] started[j].0 != #[trigger] started[k].0
        }),
    decreases fs.len(),
{
    if fs.len() > 0 {
        let fd = fs.drop_last();
        lemma_spawn_all(fl0, fd);
        let (fl, started) = spawn_all(fl0, fd);
        let f = fs.last();
        assert forall|i: int| 0 <= i < fd.len() implies fs[i] == fd[i] by {}
        if !fl.contains(f.id) {
            let fl2 = fl.insert(f.id);
            let st2 = started.push((f.id, f.url@));
            assert forall|i: int| 0 <= i < fs.len() implies fl2.contains(#[trigger] fs[i].id) by {
                if i < fd.len() {
                    assert(fs[i] == fd[i]);
                    assert(fl.contains(fd[i].id));
                } else {
                    assert(fs[i] == f);
                }
            }
            assert forall|j: int| 0 <= j < st2.len() implies !fl0.contains(#[trigger] st2[j].0) by {
                if j < started.len() {
                    assert(st2[j] == started[j]);
                }
            }
        }
    }
}

/// Refreshing everything fetches every feed, each at most once and none
/// that is already being fetched; afterwards every feed is in flight.
pub proof fn law_refresh_fetches_each_feed_once(o: App, n: App, r: Action)
    requires
        o.feeds@.len() > 0,
        refreshed_all(o, n, r),
    ensures
        forall|i: int| 0 <= i < o.feeds@.len() ==> n.in_flight@.contains(#[trigger] o.feeds@[i].id),
        r matches Action::Fetch { feeds } && ({
            let fv = fetch_views(feeds@);
            &&& forall|j: int| 0 <= j < fv.len() ==> !o.in_flight@.contains(#[trigger] fv[j].0)
            &&& forall|j: int, k: int|
                0 <= j < k < fv.len() ==> #[trigger] fv[j].0 != #[trigger] fv[k].0
        }),
{
    lemma_spawn_all(o.in_flight@, o.feeds@);
}

/// In the normal mode the Up arrow does what `k` does, and the Down arrow
/// what `j` does.
pub proof fn law_arrows_are_vim_keys(
    o: App,
    ctrl: bool,
    ctrl2: bool,
    n1: App,
    r1: Action,
    n2: App,
    r2: Action,
    up: bool,
)
    requires
        o.mode == Mode::Normal,
        key_step(
            o,
            Key { code: if up { KeyCode::Up } else { KeyCode::Down }, ctrl, press: true },
            n1,
            r1,
        ),
        key_step(
            o,
            Key { code: KeyCode::Char(if up { 'k' } else { 'j' }), ctrl: ctrl2, press: true },
            n2,
            r2,
        ),
    ensures
        n1 == n2,
        r1 == r2,
{
}

/// In the normal mode with the stories pane focused, Up selects the story
/// above (the last from the first) and Down the story below (the first from
/// the last).
pub proof fn law_arrows_step_stories(o: App, i: usize, ctrl: bool, up: bool, n: App, r: Action)
    requires
        o.mode == Mode::Normal,
        o.focus == Focus::Articles,
        o.article_sel == Some(i),
        i < o.articles@.len(),
        key_step(
            o,
            Key { code: if up { KeyCode::Up } else { KeyCode::Down }, ctrl, press: true },
            n,
            r,
        ),
    ensures
        r == Action::Nothing,
        n.article_sel == Some(
            (if up {
                if i == 0 {
                    o.articles@.len() - 1
                } else {
                    i - 1
                }
            } else {
                if i + 1 == o.articles@.len() {
                    0
                } else {
                    i + 1
                }
            }) as usize,
        ),
        n.focus == Focus::Articles,
        n.articles == o.articles,
{
    let len = o.articles@.len() as int;
    if up {
        assert((i - 1) % len == if i == 0 {
            len - 1
        } else {
            i - 1
        }) by (nonlinear_arith)
            requires
                0 <= i < len,
        ;
    } else {
        assert((i + 1) % len == if i + 1 == len {
            0
        } else {
            i + 1
        }) by (nonlinear_arith)
            requires
                0 <= i < len,
        ;
    }
}

/// In the normal mode with the feeds pane focused, Up selects the row above
/// (the last feed from "All") and Down the row below ("All" from the last
/// feed), and the stories are reloaded.
pub proof fn law_arrows_step_feeds(o: App, ctrl: bool, up: bool, n: App, r: Action)
    requires
        o.mode == Mode::Normal,
        o.wf(),
        o.focus == Focus::Feeds,
        feed_row(o.feed_sel) <= o.feeds@.len(),
        key_step(
            o,
            Key { code: if up { KeyCode::Up } else { KeyCode::Down }, ctrl, press: true },
            n,
            r,
        ),
    ensures
        r == (Action::LoadArticles { keep: None, quiet: true }),
        feed_row(n.feed_sel) == (if up {
            if feed_row(o.feed_sel) == 0 {
                o.feeds@.len() as int
            } else {
                feed_row(o.feed_sel) - 1
            }
        } else {
            if feed_row(o.feed_sel) == o.feeds@.len() {
                0
            } else {
                feed_row(o.feed_sel) + 1
            }
        }),
{
    let len: int = o.feeds@.len() as int + 1;
    let i = feed_row(o.feed_sel);
    if up {
        assert((i - 1) % len == if i == 0 {
            len - 1
        } else {
            i - 1
        }) by (nonlinear_arith)
            requires
                0 <= i < len,
        ;
    } else {
        assert((i + 1) % len == if i + 1 == len {
            0
        } else {
            i + 1
        }) by (nonlinear_arith)
            requires
                0 <= i < len,
        ;
    }
}

/// In the normal mode with the reader focused, Up scrolls one row back
/// (staying at the top) and Down one row on (staying at the last row the
/// count holds).
pub proof fn law_arrows_scroll_reader(o: App, ctrl: bool, up: bool, n: App, r: Action)
    requires
        o.mode == Mode::Normal,
        o.focus == Focus::Reader,
        key_step(
            o,
            Key { code: if up { KeyCode::Up } else { KeyCode::Down }, ctrl, press: true },
            n,
            r,
        ),
    ensures
        r == Action::Nothing,
        n.reader_scroll == (if up {
            if o.reader_scroll == 0 {
                0
            } else {
                o.reader_scroll - 1
            }
        } else {
            if o.reader_scroll == u16::MAX {
                u16::MAX as int
            } else {
                o.reader_scroll + 1
            }
        }),
{
}

} // verus!

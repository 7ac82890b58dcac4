//! What the screen shows, computed apart from the terminal: scrolling
//! offsets, boxes, row texts and tags, the reader's body, and where shaped
//! text lands in terminal cells. Drawing takes these as they are.
use vstd::prelude::*;
use vstd::string::StringSliceAdditionalSpecFns;
use crate::app::Mode;
use crate::html::{html_text, html_to_text, opt_str_view, opt_view};
use crate::timefmt::{relative, relative_text};
use crate::script::{
    contains_sinhala, display_units, display_width, has_sinhala, line_fold, measured_width,
    paragraphs, split_lines, total_width, unit_width, units, uw, width_fits, wrap_shaped, wrapped,
};
use crate::text::{
    chars_of, digits, i64_text, int_text, is_blank, join, join_strs, owned, push_char, push_str,
    split_whitespace, string_of, to_uppercase, trim, u64_text, uppercase, views, words,
};

verus! {

// ---------------------------------------------------------------------------
// Scrolling
// ---------------------------------------------------------------------------

/// The first visible row of a list of `len` rows shown `height` rows at a
/// time, scrolled just enough to show the selected row (clamped to the last).
pub open spec fn offset_for(len: int, selected: int, height: int) -> int {
    if height == 0 || len == 0 {
        0
    } else {
        let sel = if selected < len - 1 {
            selected
        } else {
            len - 1
        };
        if sel < height {
            0
        } else {
            sel + 1 - height
        }
    }
}

/// The first visible row of a scrolled list; the selected row (clamped to
/// the last row) is always among the `height` rows shown from there.
pub fn visible_offset(len: usize, selected: usize, height: usize) -> (r: usize)
    ensures
        r == offset_for(len as int, selected as int, height as int),
        height > 0 && len > 0 ==> {
            let sel = if selected < len - 1 {
                selected as int
            } else {
                len - 1
            };
            r <= sel < r + height
        },
{
    if height == 0 || len == 0 {
        return 0;
    }
    let selected = if selected < len - 1 {
        selected
    } else {
        len - 1
    };
    if selected < height {
        0
    } else {
        selected + 1 - height
    }
}

// ---------------------------------------------------------------------------
// Areas
// ---------------------------------------------------------------------------

/// A rectangle of terminal cells.
#[derive(Debug, Clone, Copy, PartialEq, Eq, Structural)]
pub struct Area {
    pub x: u16,
    pub y: u16,
    pub width: u16,
    pub height: u16,
}

impl Area {
    /// The rectangle lies within the `u16` coordinate space.
    pub open spec fn wf(&self) -> bool {
        self.x + self.width <= u16::MAX && self.y + self.height <= u16::MAX
    }

    /// A rectangle at (`x`, `y`), its size cut so that it stays within the
    /// coordinate space.
    pub fn new(x: u16, y: u16, width: u16, height: u16) -> (r: Area)
        ensures
            r.wf(),
            r.x == x,
            r.y == y,
            r.width == (if width > u16::MAX - x {
                (u16::MAX - x) as u16
            } else {
                width
            }),
            r.height == (if height > u16::MAX - y {
                (u16::MAX - y) as u16
            } else {
                height
            }),
    {
        let max_width = u16::MAX - x;
        let max_height = u16::MAX - y;
        Area {
            x,
            y,
            width: if width > max_width {
                max_width
            } else {
                width
            },
            height: if height > max_height {
                max_height
            } else {
                height
            },
        }
    }
}

/// A box of at most `width` by `height` cells centred in `area`.
pub fn centered(area: Area, width: u16, height: u16) -> (r: Area)
    requires
        area.wf(),
    ensures
        r.wf(),
        r.width == (if width < area.width {
            width
        } else {
            area.width
        }),
        r.height == (if height < area.height {
            height
        } else {
            area.height
        }),
        r.x == area.x + (area.width - r.width) / 2,
        r.y == area.y + (area.height - r.height) / 2,
{
    let width = if width < area.width {
        width
    } else {
        area.width
    };
    let height = if height < area.height {
        height
    } else {
        area.height
    };
    Area::new(area.x + (area.width - width) / 2, area.y + (area.height - height) / 2, width, height)
}

// ---------------------------------------------------------------------------
// Colours and tags
// ---------------------------------------------------------------------------

/// The sum of a run of bytes.
pub open spec fn byte_sum(bs: Seq<u8>) -> int
    decreases bs.len(),
{
    if bs.len() == 0 {
        0
    } else {
        byte_sum(bs.drop_last()) + bs.last()
    }
}

/// A byte hash of a name: 31 times the sum of its UTF-8 bytes, modulo 256.
pub open spec fn name_hash(s: &str) -> int {
    (31 * byte_sum(s.spec_bytes())) % 256
}

/// The number of accent colours feeds are drawn in.
pub const SWATCHES: usize = 6;

/// Which accent colour (of `SWATCHES`) a feed is drawn in, chosen by a hash
/// of its name so that a feed keeps its colour.
pub fn swatch_index(name: &str) -> (r: usize)
    ensures
        r == name_hash(name) % (SWATCHES as int),
        r < SWATCHES,
{
    let bytes = name.as_bytes();
    let n = bytes.len();
    let mut hash: u8 = 0;
    let mut i: usize = 0;
    while i < n
        invariant
            i <= n == bytes@.len(),
            bytes@ == name.spec_bytes(),
            hash == (31 * byte_sum(bytes@.take(i as int))) % 256,
        decreases n - i,
    {
        let b = bytes[i];
        let m = b.wrapping_mul(31);
        let old_hash = hash;
        hash = hash.wrapping_add(m);
        proof {
            let pre = bytes@.take(i as int);
            assert(bytes@.take(i + 1).drop_last() == pre);
            assert(bytes@.take(i + 1).last() == b);
            assert(m == (b * 31) % 256);
            assert(hash == (old_hash + m) % 256);
            vstd::arithmetic::div_mod::lemma_add_mod_noop(31 * byte_sum(pre), b * 31, 256);
            assert(31 * byte_sum(pre) + b * 31 == 31 * (byte_sum(pre) + b));
        }
        i = i + 1;
    }
    proof {
        assert(bytes@.take(n as int) == bytes@);
    }
    hash as usize % SWATCHES
}

/// The first letters of the words of a name.
pub open spec fn initials(s: Seq<char>) -> Seq<char> {
    words(s).map_values(|w: Seq<char>| w[0])
}

/// The letters a feed's tag is made of: the initials of its words when
/// there are at least two, else its first three characters.
pub open spec fn tag_source(s: Seq<char>) -> Seq<char> {
    if initials(s).len() >= 2 {
        initials(s)
    } else {
        s.take(if s.len() < 3 {
            s.len() as int
        } else {
            3
        })
    }
}

/// A short tag for a feed: its tag letters upper-cased.
pub open spec fn tag_text(s: Seq<char>) -> Seq<char> {
    uppercase(tag_source(s))
}

/// A short tag for a feed name ("Hacker News" is "HN", "Lobsters" is "LOB").
pub fn feed_tag(name: &str) -> (r: String)
    ensures
        r@ == tag_text(name@),
{
    let letters = tag_letters(name);
    to_uppercase(letters.as_str())
}

/// The letters of a feed name's tag, before upper-casing ("Hacker News"
/// gives "HN", "Lobsters" gives "Lob").
pub fn tag_letters(name: &str) -> (r: String)
    ensures
        r@ == tag_source(name@),
{
    let ws = split_whitespace(name);
    let ghost wv = views(ws@);
    let mut first: String = String::new();
    let n = ws.len();
    let mut i: usize = 0;
    while i < n
        invariant
            i <= n == ws@.len(),
            wv == views(ws@),
            wv == words(name@),
            forall|k: int| 0 <= k < ws@.len() ==> (#[trigger] ws@[k])@.len() > 0,
            first@ == wv.take(i as int).map_values(|w: Seq<char>| w[0]),
        decreases n - i,
    {
        let cs = chars_of(ws[i].as_str());
        proof {
            assert(cs@ == wv[i as int]);
            assert(wv.take(i + 1).map_values(|w: Seq<char>| w[0]) == wv.take(i as int).map_values(
                |w: Seq<char>| w[0],
            ).push(wv[i as int][0]));
        }
        push_char(&mut first, cs[0]);
        i = i + 1;
    }
    proof {
        assert(wv.take(n as int) == wv);
    }
    if chars_of(first.as_str()).len() >= 2 {
        first
    } else {
        let cs = chars_of(name);
        let k = if cs.len() < 3 {
            cs.len()
        } else {
            3
        };
        let head = string_of(&cs, 0, k);
        proof {
            assert(cs@.subrange(0, k as int) == name@.take(k as int));
        }
        head
    }
}

// ---------------------------------------------------------------------------
// Reader
// ---------------------------------------------------------------------------

/// The rows a story title gets in the reader: its width spread over lines of
/// `width` columns (both at least one), kept between two and four rows.
pub open spec fn title_rows_for(cols: int, width: int) -> u16 {
    let w = if width < 1 {
        1
    } else {
        width
    };
    let c = if cols < 1 {
        1
    } else {
        cols
    };
    let lines = (c + w - 1) / w;
    if lines < 2 {
        2
    } else if lines > 4 {
        4
    } else {
        lines as u16
    }
}

/// The rows a story title takes in the reader at `width` columns.
pub fn title_height(title: &str, width: u16) -> (r: u16)
    requires
        width_fits(title@),
    ensures
        r == title_rows_for(total_width(units(title@)), width as int),
        2 <= r <= 4,
{
    let width: u32 = if width < 1 {
        1
    } else {
        width as u32
    };
    let cols = display_width(title);
    let cols: u32 = if cols < 1 {
        1
    } else {
        cols as u32
    };
    let lines = (cols + width - 1) / width;
    if lines < 2 {
        2
    } else if lines > 4 {
        4
    } else {
        lines as u16
    }
}

/// `title_height` for any title: `None` when the title's width does not fit
/// in a `u16`.
pub fn title_rows(title: &str, width: u16) -> (r: Option<u16>)
    ensures
        width_fits(title@) ==> r == Some(title_rows_for(total_width(units(title@)), width as int)),
        !width_fits(title@) ==> r is None,
{
    match measured_width(title) {
        Some(_) => Some(title_height(title, width)),
        None => None,
    }
}

/// The lines of rendered text (`str::lines`): the pieces between newlines,
/// without the empty piece after a final newline.
pub open spec fn text_lines(t: Seq<char>) -> Seq<Seq<char>> {
    let p = paragraphs(t);
    if p.last().len() == 0 {
        p.drop_last()
    } else {
        p
    }
}

/// The reader's body text built line by line: a blank line closes the
/// paragraph before it and adds one empty line; any other line starts on a
/// line of its own.
pub open spec fn body_fold(lines: Seq<Seq<char>>) -> Seq<char>
    decreases lines.len(),
{
    if lines.len() == 0 {
        Seq::empty()
    } else {
        let b = body_fold(lines.drop_last());
        let l = lines.last();
        let ends = b.len() > 0 && b.last() == '\n';
        if trim(l).len() == 0 {
            (if ends {
                b
            } else {
                b.push('\n')
            }).push('\n')
        } else {
            (if b.len() > 0 && !ends {
                b.push('\n')
            } else {
                b
            }) + l
        }
    }
}

/// The columns a story body is first rendered at, before it is wrapped again
/// by display units.
pub const BODY_RENDER_WIDTH: usize = 10_000;

/// The reader's body text for a story's HTML.
pub open spec fn reader_body(html: Seq<char>) -> Seq<char> {
    body_fold(text_lines(html_text(html, BODY_RENDER_WIDTH)))
}

/// The reader's body text for `html`, and how many lines it takes wrapped to
/// `width` columns (as the `u16` the reader scrolls by).
pub fn shaped_body(html: &str, width: usize) -> (r: (String, u16))
    ensures
        r.0@ == reader_body(html@),
        r.1 == #[verifier::truncate] (wrapped(r.0@, width).len() as u16),
{
    let text = html_to_text(html, BODY_RENDER_WIDTH);
    let pieces = split_lines(text.as_str());
    let ghost pv = views(pieces@);
    let total = pieces.len();
    proof {
        assert(pv == paragraphs(text@));
        assert(pv.len() == total);
    }
    let n = if pieces[total - 1].as_str().is_empty() {
        total - 1
    } else {
        total
    };
    proof {
        assert(pv == paragraphs(text@));
        assert(pv.take(n as int) == text_lines(text@));
    }
    let mut body = String::new();
    let mut ends = false;
    let mut i: usize = 0;
    while i < n
        invariant
            i <= n <= pieces@.len(),
            pv == views(pieces@),
            pv == paragraphs(text@),
            body@ == body_fold(pv.take(i as int)),
            ends == (body@.len() > 0 && body@.last() == '\n'),
        decreases n - i,
    {
        let line = pieces[i].as_str();
        proof {
            assert(pv.take(i + 1).drop_last() == pv.take(i as int));
            assert(pv.take(i + 1).last() == line@);
        }
        if is_blank(line) {
            if !ends {
                push_char(&mut body, '\n');
            }
            push_char(&mut body, '\n');
            ends = true;
        } else {
            if !body.as_str().is_empty() && !ends {
                push_char(&mut body, '\n');
            }
            push_str(&mut body, line);
            proof {
                assert(line@.len() > 0);
                assert(!line@.contains('\n')) by {
                    lemma_paragraphs_have_no_newline(text@, i as int);
                }
                assert(line@[line@.len() - 1] != '\n');
            }
            ends = false;
        }
        i = i + 1;
    }
    let count = #[verifier::truncate] (wrap_shaped(body.as_str(), width).len() as u16);
    (body, count)
}

/// No piece between newlines holds a newline.
pub proof fn lemma_paragraphs_have_no_newline(s: Seq<char>, i: int)
    requires
        0 <= i < paragraphs(s).len(),
    ensures
        !paragraphs(s)[i].contains('\n'),
    decreases s.len(),
{
    if s.len() == 0 {
        assert(paragraphs(s)[i] == Seq::<char>::empty());
    } else {
        let t = s.drop_last();
        let (done, cur) = line_fold(t);
        if s.last() == '\n' {
            if i < done.len() {
                lemma_paragraphs_have_no_newline(t, i);
                assert(paragraphs(t)[i] == done[i]);
            } else if i == done.len() {
                lemma_paragraphs_have_no_newline(t, i);
                assert(paragraphs(t)[i] == cur);
            }
        } else {
            if i < done.len() {
                lemma_paragraphs_have_no_newline(t, i);
                assert(paragraphs(t)[i] == done[i]);
            } else {
                lemma_paragraphs_have_no_newline(t, i);
                assert(paragraphs(t)[i] == cur);
                assert(!cur.push(s.last()).contains('\n')) by {
                    if cur.push(s.last()).contains('\n') {
                        let k = choose|k: int| 0 <= k < cur.push(s.last()).len() && cur.push(s.last())[k] == '\n';
                        if k < cur.len() {
                            assert(cur.contains('\n'));
                        }
                    }
                }
            }
        }
    }
}

/// The rows `start .. start + height` of a list, as far as it goes.
pub open spec fn window<T>(s: Seq<T>, start: int, height: int) -> Seq<T> {
    let lo = if start < s.len() {
        start
    } else {
        s.len() as int
    };
    let hi = if start + height < s.len() {
        start + height
    } else {
        s.len() as int
    };
    s.subrange(lo, hi)
}

/// The part of a body the reader shows: its lines wrapped to `width`, from
/// line `start`, at most `height` of them, joined by newlines.
pub fn visible_text(body: &str, width: usize, start: usize, height: usize) -> (r: String)
    ensures
        r@ == join(window(wrapped(body@, width), start as int, height as int), seq!['\n']),
{
    let lines = wrap_shaped(body, width);
    let ghost lv = views(lines@);
    let len = lines.len();
    let lo = if start < len {
        start
    } else {
        len
    };
    let hi = if height < len - lo {
        lo + height
    } else {
        len
    };
    let mut part: Vec<String> = Vec::new();
    let mut i: usize = lo;
    while i < hi
        invariant
            lo <= i <= hi <= len == lines@.len(),
            lv == views(lines@),
            views(part@) == lv.subrange(lo as int, i as int),
        decreases hi - i,
    {
        proof {
            assert(lv.subrange(lo as int, i + 1) == lv.subrange(lo as int, i as int).push(
                lines@[i as int]@,
            ));
        }
        let line = lines[i].clone();
        proof {
            assert(views(part@.push(line)) =~= views(part@).push(line@));
        }
        part.push(line);
        i = i + 1;
    }
    proof {
        reveal_strlit("\n");
        assert("\n"@ == seq!['\n']);
        assert(views(part@) == window(lv, start as int, height as int));
    }
    join_strs(&part, "\n")
}

// ---------------------------------------------------------------------------
// Rows and labels
// ---------------------------------------------------------------------------

/// `s` right-aligned in `w` columns counted in characters (`{:>w}`).
pub open spec fn pad_left(s: Seq<char>, w: int) -> Seq<char> {
    let k = if w > s.len() {
        w - s.len()
    } else {
        0
    };
    Seq::new(k as nat, |_i: int| ' ') + s
}

/// `s` right-aligned in `w` characters.
pub fn right_aligned(s: &str, w: usize) -> (r: String)
    ensures
        r@ == pad_left(s@, w as int),
{
    let cs = chars_of(s);
    let k = if w > cs.len() {
        w - cs.len()
    } else {
        0
    };
    let mut out = String::new();
    let mut i: usize = 0;
    while i < k
        invariant
            i <= k,
            out@ == Seq::new(i as nat, |_i: int| ' '),
        decreases k - i,
    {
        push_char(&mut out, ' ');
        proof {
            assert(out@ =~= Seq::new((i + 1) as nat, |_i: int| ' '));
        }
        i = i + 1;
    }
    push_str(&mut out, s);
    out
}

/// The dot beside a feed in the feeds pane.
#[derive(Debug, Clone, Copy, PartialEq, Eq, Structural)]
pub enum RowMark {
    /// The last fetch failed.
    Error,
    /// Unread stories wait.
    Unread,
    /// Nothing new.
    Idle,
}

/// A row of the feeds pane, before colours: its title, its dot, its unread
/// count column, and whether it is an odd (striped) row.
pub struct FeedRow {
    pub title: String,
    pub mark: RowMark,
    pub count: String,
    pub stripe: bool,
}

/// The unread count column: the count right-aligned in three columns, or a
/// dot when nothing is unread.
pub open spec fn count_text(unread: i64) -> Seq<char> {
    if unread > 0 {
        pad_left(int_text(unread as int), 3)
    } else {
        "  ·"@
    }
}

/// The feeds-pane row `row` for a feed titled `title`.
pub fn feed_row(title: &str, unread: i64, has_error: bool, row: usize) -> (r: FeedRow)
    ensures
        r.title@ == title@,
        r.mark == (if has_error {
            RowMark::Error
        } else if unread > 0 {
            RowMark::Unread
        } else {
            RowMark::Idle
        }),
        r.count@ == count_text(unread),
        r.stripe == (row % 2 == 1),
{
    let mark = if has_error {
        RowMark::Error
    } else if unread > 0 {
        RowMark::Unread
    } else {
        RowMark::Idle
    };
    let count = if unread > 0 {
        let digits = i64_text(unread);
        right_aligned(digits.as_str(), 3)
    } else {
        owned("  ·")
    };
    FeedRow { title: owned(title), mark, count, stripe: row % 2 == 1 }
}

/// The stories pane's title: "stories", then the unread filter and the
/// search when they are on.
pub open spec fn stories_title(unread_only: bool, search: Option<Seq<char>>) -> Seq<char> {
    let base = if unread_only {
        "stories"@ + " · unread"@
    } else {
        "stories"@
    };
    match search {
        Some(q) => base + " · /"@ + q,
        None => base,
    }
}

/// The title of the stories pane.
pub fn stories_label(unread_only: bool, search: Option<&str>) -> (r: String)
    ensures
        r@ == stories_title(unread_only, opt_str_view(search)),
{
    let mut label = owned("stories");
    if unread_only {
        push_str(&mut label, " · unread");
    }
    if let Some(q) = search {
        push_str(&mut label, " · /");
        push_str(&mut label, q);
    }
    label
}

/// When a story was published, as seen at `now`; `missing` when it carries
/// no time.
pub fn story_when(published: Option<i64>, now: i64, missing: &str) -> (r: String)
    ensures
        r@ == (match published {
            Some(ts) => relative_text(ts, now),
            None => missing@,
        }),
{
    match published {
        Some(ts) => relative(ts, now),
        None => owned(missing),
    }
}

/// The right-hand column of a story row: its age in four columns, a space,
/// and its feed's tag.
pub fn story_suffix(when: &str, feed_title: &str) -> (r: String)
    ensures
        r@ == pad_left(when@, 4) + " "@ + tag_text(feed_title@),
{
    let mut out = right_aligned(when, 4);
    push_str(&mut out, " ");
    let tag = feed_tag(feed_title);
    push_str(&mut out, tag.as_str());
    out
}

/// The reader's kicker: the feed's title upper-cased, except in Sinhala,
/// which has no case and is shaped as written.
pub fn kicker_title(feed_title: &str) -> (r: String)
    ensures
        r@ == (if has_sinhala(feed_title@) {
            feed_title@
        } else {
            uppercase(feed_title@)
        }),
{
    if contains_sinhala(feed_title) {
        owned(feed_title)
    } else {
        let upper = to_uppercase(feed_title);
        kicker_of(feed_title, upper.as_str())
    }
}

/// The kicker given the feed's title and its upper-cased form: the title as
/// written when it holds Sinhala, else the upper-cased form.
pub fn kicker_of(feed_title: &str, upper: &str) -> (r: String)
    ensures
        r@ == (if has_sinhala(feed_title@) {
            feed_title@
        } else {
            upper@
        }),
{
    if contains_sinhala(feed_title) {
        owned(feed_title)
    } else {
        owned(upper)
    }
}

/// The header's unread summary.
pub fn unread_banner(unread: i64) -> (r: String)
    ensures
        r@ == (if unread > 0 {
            int_text(unread as int) + " unread"@
        } else {
            "caught up"@
        }),
{
    if unread > 0 {
        let mut s = i64_text(unread);
        push_str(&mut s, " unread");
        s
    } else {
        owned("caught up")
    }
}

/// The header's badge while fetches run.
pub fn fetch_badge(running: usize) -> (r: String)
    ensures
        r@ == "  ● fetch "@ + digits(running as nat),
{
    let mut s = owned("  ● fetch ");
    let n = u64_text(running as u64);
    push_str(&mut s, n.as_str());
    s
}

// ---------------------------------------------------------------------------
// Footer
// ---------------------------------------------------------------------------

/// What the footer line shows.
#[derive(Debug, Clone, Copy, PartialEq, Eq, Structural)]
pub enum FooterKind {
    /// The search prompt with what was typed.
    SearchPrompt,
    /// The status message, then a few keys.
    Status,
    /// Only key hints.
    Keys,
}

/// The views of (key, hint) pairs.
pub open spec fn pair_views(v: Seq<(&str, &str)>) -> Seq<(Seq<char>, Seq<char>)> {
    v.map_values(|p: (&str, &str)| (p.0@, p.1@))
}

/// The footer for a mode: its kind and its (key, hint) pairs.
pub open spec fn footer_for(mode: Mode, has_status: bool) -> (FooterKind, Seq<(Seq<char>, Seq<char>)>) {
    match mode {
        Mode::Search => (FooterKind::SearchPrompt, Seq::empty()),
        Mode::AddFeed => (
            FooterKind::Keys,
            seq![
                ("↑↓"@, "pick"@),
                ("enter"@, "add"@),
                ("tab"@, "use url"@),
                ("esc"@, "cancel"@),
            ],
        ),
        Mode::ConfirmDelete => (
            FooterKind::Keys,
            seq![("y"@, "remove"@), ("n"@, "back"@), ("esc"@, "back"@)],
        ),
        _ => if has_status {
            (FooterKind::Status, seq![("?"@, "keys"@), ("q"@, "quit"@)])
        } else {
            (
                FooterKind::Keys,
                seq![
                    ("j/k"@, "move"@),
                    ("tab"@, "pane"@),
                    ("r"@, "refresh"@),
                    ("o"@, "open"@),
                    ("n"@, "unread"@),
                    ("a"@, "add"@),
                    ("d"@, "remove"@),
                    ("/"@, "find"@),
                    ("?"@, "help"@),
                ],
            )
        },
    }
}

/// The footer line for `mode`, `has_status` telling whether a status
/// message is set.
pub fn footer(mode: Mode, has_status: bool) -> (r: (FooterKind, Vec<(&'static str, &'static str)>))
    ensures
        (r.0, pair_views(r.1@)) == footer_for(mode, has_status),
{
    let mut keys: Vec<(&'static str, &'static str)> = Vec::new();
    let kind = match mode {
        Mode::Search => FooterKind::SearchPrompt,
        Mode::AddFeed => {
            keys.push(("↑↓", "pick"));
            keys.push(("enter", "add"));
            keys.push(("tab", "use url"));
            keys.push(("esc", "cancel"));
            FooterKind::Keys
        },
        Mode::ConfirmDelete => {
            keys.push(("y", "remove"));
            keys.push(("n", "back"));
            keys.push(("esc", "back"));
            FooterKind::Keys
        },
        _ => if has_status {
            keys.push(("?", "keys"));
            keys.push(("q", "quit"));
            FooterKind::Status
        } else {
            keys.push(("j/k", "move"));
            keys.push(("tab", "pane"));
            keys.push(("r", "refresh"));
            keys.push(("o", "open"));
            keys.push(("n", "unread"));
            keys.push(("a", "add"));
            keys.push(("d", "remove"));
            keys.push(("/", "find"));
            keys.push(("?", "help"));
            FooterKind::Keys
        },
    };
    assert(pair_views(keys@) =~= footer_for(mode, has_status).1);
    (kind, keys)
}

// ---------------------------------------------------------------------------
// Placing shaped text into cells
// ---------------------------------------------------------------------------

/// One write into a terminal cell at (`x`, `y`): a display unit's text, or,
/// with no symbol, a reset of a cell that a wide unit before it covers.
#[derive(Debug, Clone)]
pub struct CellWrite {
    pub x: u16,
    pub y: u16,
    pub symbol: Option<String>,
}

/// A cell write as plain values.
pub open spec fn cell_view(c: CellWrite) -> (int, int, Option<Seq<char>>) {
    (c.x as int, c.y as int, opt_view(c.symbol))
}

/// The views of a run of cell writes.
pub open spec fn cell_views(v: Seq<CellWrite>) -> Seq<(int, int, Option<Seq<char>>)> {
    v.map_values(|c: CellWrite| cell_view(c))
}

/// Resets of the cells `from .. to` of row `y`.
pub open spec fn resets(from: int, to: int, y: int) -> Seq<(int, int, Option<Seq<char>>)> {
    let n = if to > from {
        to - from
    } else {
        0
    };
    Seq::new(n as nat, |k: int| (from + k, y, None::<Seq<char>>))
}

/// Spaces written into the cells `x .. right` of row `y`.
pub open spec fn pad_cells(x: int, right: int, y: int) -> Seq<(int, int, Option<Seq<char>>)> {
    let n = if right > x {
        right - x
    } else {
        0
    };
    Seq::new(n as nat, |k: int| (x + k, y, Some(seq![' '])))
}

/// The writes for one row of units from column `x`, stopping before a unit
/// that would pass `right`, then spaces up to `right`. Column arithmetic
/// saturates at `u16::MAX`; `None` when a wide unit's covered cells would
/// pass `u16::MAX`.
pub open spec fn row_cells(us: Seq<Seq<char>>, x: int, right: int, y: int) -> Option<
    Seq<(int, int, Option<Seq<char>>)>,
>
    decreases us.len(),
{
    if us.len() == 0 {
        Some(pad_cells(x, right, y))
    } else {
        let w = uw(us[0]) as int;
        let nx = if x + w > u16::MAX {
            u16::MAX as int
        } else {
            x + w
        };
        if nx > right {
            Some(pad_cells(x, right, y))
        } else if x + w - 1 > u16::MAX {
            None
        } else {
            match row_cells(us.drop_first(), nx, right, y) {
                Some(rest) => Some(seq![(x, y, Some(us[0]))] + resets(x + 1, x + w, y) + rest),
                None => None,
            }
        }
    }
}

/// The writes for the first `k` rows of `lines` in `area`.
pub open spec fn rows_cells(lines: Seq<Seq<char>>, area: Area, k: int) -> Option<
    Seq<(int, int, Option<Seq<char>>)>,
>
    decreases k,
{
    if k <= 0 {
        Some(Seq::empty())
    } else {
        match (
            rows_cells(lines, area, k - 1),
            row_cells(
                units(lines[k - 1]),
                area.x as int,
                area.x + area.width,
                area.y + k - 1,
            ),
        ) {
            (Some(a), Some(b)) => Some(a + b),
            _ => None,
        }
    }
}

/// The writes that put `text` into `area`: its lines wrapped to the area's
/// width, as many as there are rows, each unit in one cell; `None` when a
/// wide unit would pass the last column of the coordinate space.
pub open spec fn shaped_plan(area: Area, text: Seq<char>) -> Option<
    Seq<(int, int, Option<Seq<char>>)>,
> {
    if area.width == 0 || area.height == 0 {
        Some(Seq::empty())
    } else {
        let ls = wrapped(text, area.width as usize);
        rows_cells(
            ls,
            area,
            if (area.height as int) < ls.len() {
                area.height as int
            } else {
                ls.len() as int
            },
        )
    }
}

/// `o` with `a` put before its contents.
pub open spec fn prefixed<T>(a: Seq<T>, o: Option<Seq<T>>) -> Option<Seq<T>> {
    match o {
        Some(b) => Some(a + b),
        None => None,
    }
}

proof fn lemma_row_cells_step(us: Seq<Seq<char>>, i: int, x: int, right: int, y: int)
    requires
        0 <= i < us.len(),
    ensures
        row_cells(us.skip(i), x, right, y) == ({
            let w = uw(us[i]) as int;
            let nx = if x + w > u16::MAX {
                u16::MAX as int
            } else {
                x + w
            };
            if nx > right {
                Some(pad_cells(x, right, y))
            } else if x + w - 1 > u16::MAX {
                None
            } else {
                prefixed(
                    seq![(x, y, Some(us[i]))] + resets(x + 1, x + w, y),
                    row_cells(us.skip(i + 1), nx, right, y),
                )
            }
        }),
{
    assert(us.skip(i)[0] == us[i]);
    assert(us.skip(i).drop_first() == us.skip(i + 1));
}

/// Append the writes for one row of `line` to `out`; `false` (with `out`
/// partly written) when a wide unit's covered cells would pass `u16::MAX`.
fn place_row(line: &str, x0: u16, right: u16, y: u16, out: &mut Vec<CellWrite>) -> (ok: bool)
    requires
        x0 <= right,
    ensures
        match row_cells(units(line@), x0 as int, right as int, y as int) {
            Some(c) => ok && cell_views(final(out)@) == cell_views(old(out)@) + c,
            None => !ok,
        },
{
    let us = display_units(line);
    let ghost uv = views(us@);
    let ghost base = cell_views(out@);
    let ghost mut acc: Seq<(int, int, Option<Seq<char>>)> = Seq::empty();
    let n = us.len();
    let mut x: u16 = x0;
    let mut i: usize = 0;
    proof {
        assert(uv.skip(0) == uv);
        assert(acc + Seq::empty() == acc);
    }
    while i < n
        invariant_except_break
            i <= n == us@.len(),
            uv == views(us@),
            uv == units(line@),
            x <= right,
            cell_views(out@) == base + acc,
            row_cells(uv, x0 as int, right as int, y as int) == prefixed(
                acc,
                row_cells(uv.skip(i as int), x as int, right as int, y as int),
            ),
        ensures
            i <= n == us@.len(),
            uv == views(us@),
            uv == units(line@),
            x <= right,
            cell_views(out@) == base + acc,
            row_cells(uv, x0 as int, right as int, y as int) == Some(acc + pad_cells(x as int, right as int, y as int)),
        decreases n - i,
    {
        let unit = us[i].as_str();
        let w = unit_width(unit);
        proof {
            lemma_row_cells_step(uv, i as int, x as int, right as int, y as int);
            assert(uv[i as int] == unit@);
        }
        let nx = x.saturating_add(w);
        if nx > right {
            break;
        }
        if w >= 1 && x as u32 + w as u32 - 1 > u16::MAX as u32 {
            return false;
        }
        let ghost mid = acc + seq![(x as int, y as int, Some(unit@))];
        let sym = CellWrite { x, y, symbol: Some(owned(unit)) };
        proof {
            assert(cell_views(out@.push(sym)) =~= cell_views(out@).push(cell_view(sym)));
            assert(base + acc + seq![(x as int, y as int, Some(unit@))] == base + mid);
        }
        out.push(sym);
        let mut dx: u16 = 1;
        proof {
            assert(mid + resets(x + 1, x + 1, y as int) =~= mid);
        }
        while dx < w
            invariant
                1 <= dx,
                dx <= w || (w == 0 && dx == 1),
                x as int + w - 1 <= u16::MAX || w == 0,
                cell_views(out@) == base + mid + resets(x + 1, x + dx, y as int),
            decreases w - dx,
        {
            let c = CellWrite { x: x + dx, y, symbol: None };
            proof {
                assert(cell_views(out@.push(c)) =~= cell_views(out@).push(cell_view(c)));
                assert(resets(x + 1, x + dx + 1, y as int) =~= resets(x + 1, x + dx, y as int).push(
                    ((x + dx) as int, y as int, None::<Seq<char>>),
                ));
                assert(base + mid + resets(x + 1, x + dx + 1, y as int) =~= (base + mid + resets(x + 1, x + dx, y as int)).push(
                    ((x + dx) as int, y as int, None::<Seq<char>>),
                ));
            }
            out.push(c);
            dx = dx + 1;
        }
        proof {
            if w >= 1 {
                assert(dx == w);
            } else {
                assert(resets(x + 1, x + dx, y as int) =~= resets(x + 1, x + w, y as int));
            }
            acc = mid + resets(x + 1, x + w, y as int);
            assert(seq![(x as int, y as int, Some(uv[i as int]))] + resets(x + 1, x + w, y as int) + Seq::empty() == seq![(x as int, y as int, Some(uv[i as int]))] + resets(x + 1, x + w, y as int));
            assert(mid + resets(x + 1, x + w, y as int) == (acc.subrange(0, 0) + mid) + resets(x + 1, x + w, y as int));
        }
        x = nx;
        i = i + 1;
    }
    let ghost start = x;
    proof {
        assert(pad_cells(start as int, start as int, y as int) =~= Seq::<(int, int, Option<Seq<char>>)>::empty());
        assert(acc + Seq::<(int, int, Option<Seq<char>>)>::empty() == acc);
        reveal_strlit(" ");
    }
    while x < right
        invariant
            start <= x <= right,
            cell_views(out@) == base + acc + pad_cells(start as int, x as int, y as int),
            " "@ == seq![' '],
        decreases right - x,
    {
        let c = CellWrite { x, y, symbol: Some(owned(" ")) };
        proof {
            assert(cell_views(out@.push(c)) =~= cell_views(out@).push(cell_view(c)));
            assert(pad_cells(start as int, x + 1, y as int) =~= pad_cells(start as int, x as int, y as int).push(
                (x as int, y as int, Some(seq![' '])),
            ));
            assert(base + acc + pad_cells(start as int, x + 1, y as int) =~= (base + acc + pad_cells(start as int, x as int, y as int)).push(
                (x as int, y as int, Some(seq![' '])),
            ));
        }
        out.push(c);
        x = x + 1;
    }
    true
}

/// Once a row cannot be placed, no longer run of rows can.
proof fn lemma_rows_cells_none(ls: Seq<Seq<char>>, area: Area, k: int, m: int)
    requires
        0 <= k <= m,
        rows_cells(ls, area, k) is None,
    ensures
        rows_cells(ls, area, m) is None,
    decreases m - k,
{
    if k < m {
        lemma_rows_cells_none(ls, area, k, m - 1);
    }
}

/// The writes for `text` in `area`, or `None` exactly when `shaped_plan` has none.
fn plan_cells(area: Area, text: &str) -> (r: Option<Vec<CellWrite>>)
    requires
        area.wf(),
    ensures
        match shaped_plan(area, text@) {
            Some(c) => r matches Some(v) && cell_views(v@) == c,
            None => r is None,
        },
{
    let mut out: Vec<CellWrite> = Vec::new();
    if area.width == 0 || area.height == 0 {
        proof {
            assert(cell_views(out@) =~= Seq::<(int, int, Option<Seq<char>>)>::empty());
        }
        return Some(out);
    }
    let lines = wrap_shaped(text, area.width as usize);
    let ghost lv = views(lines@);
    let rows: usize = if (area.height as usize) < lines.len() {
        area.height as usize
    } else {
        lines.len()
    };
    let right = area.x + area.width;
    let mut row: usize = 0;
    proof {
        assert(cell_views(out@) =~= Seq::<(int, int, Option<Seq<char>>)>::empty());
    }
    while row < rows
        invariant
            area.wf(),
            area.height > 0,
            area.width > 0,
            row <= rows <= lines@.len(),
            rows <= area.height,
            right == area.x + area.width,
            lv == views(lines@),
            lv == wrapped(text@, area.width as usize),
            rows == (if (area.height as int) < lv.len() {
                area.height as int
            } else {
                lv.len() as int
            }),
            rows_cells(lv, area, row as int) == Some(cell_views(out@)),
        decreases rows - row,
    {
        let y = area.y + row as u16;
        let ghost pre = cell_views(out@);
        let ok = place_row(lines[row].as_str(), area.x, right, y, &mut out);
        proof {
            assert(lv[row as int] == lines@[row as int]@);
        }
        if !ok {
            proof {
                assert(row_cells(units(lv[row as int]), area.x as int, area.x + area.width, area.y + row) is None);
                assert(rows_cells(lv, area, row + 1) is None);
                lemma_rows_cells_none(lv, area, row + 1, rows as int);
                assert(lv == wrapped(text@, area.width as usize));
            }
            return None;
        }
        row = row + 1;
    }
    Some(out)
}

/// Put `text` into `area` the way a terminal shows it: lines wrapped to the
/// area's width by display units, one unit per cell (the cells a wide unit
/// covers after its first are reset), the rest of each row filled with spaces.
pub fn render_shaped(area: Area, text: &str) -> (r: Vec<CellWrite>)
    requires
        area.wf(),
        shaped_plan(area, text@) is Some,
    ensures
        Some(cell_views(r@)) == shaped_plan(area, text@),
{
    match plan_cells(area, text) {
        Some(v) => v,
        None => Vec::new(),
    }
}

/// `render_shaped` for any text: `None` when a wide unit would pass the last
/// column of the coordinate space.
pub fn render_shaped_checked(area: Area, text: &str) -> (r: Option<Vec<CellWrite>>)
    requires
        area.wf(),
    ensures
        match shaped_plan(area, text@) {
            Some(c) => r matches Some(v) && cell_views(v@) == c,
            None => r is None,
        },
{
    plan_cells(area, text)
}

/// A write left of `right`, or one that may land on it: where `right` is
/// the last column (the column count saturates there) or for a unit whose
/// width counts as zero columns (a width the `u16` count wraps to zero).
pub open spec fn short_of(c: (int, int, Option<Seq<char>>), right: int) -> bool {
    ||| c.0 < right
    ||| right == u16::MAX
    ||| (c.2 matches Some(u) && uw(u) == 0)
}

proof fn lemma_row_cells_within(us: Seq<Seq<char>>, x: int, right: int, y: int)
    requires
        x <= right <= u16::MAX,
    ensures
        row_cells(us, x, right, y) matches Some(c) ==> forall|k: int|
            0 <= k < c.len() ==> x <= (#[trigger] c[k]).0 <= right && c[k].1 == y && short_of(
                c[k],
                right,
            ),
    decreases us.len(),
{
    if us.len() > 0 {
        let w = uw(us[0]) as int;
        let nx = if x + w > u16::MAX {
            u16::MAX as int
        } else {
            x + w
        };
        if nx <= right && x + w - 1 <= u16::MAX {
            lemma_row_cells_within(us.drop_first(), nx, right, y);
            if let Some(rest) = row_cells(us.drop_first(), nx, right, y) {
                let head = seq![(x, y, Some(us[0]))] + resets(x + 1, x + w, y);
                let c = head + rest;
                assert forall|k: int| 0 <= k < c.len() implies x <= (#[trigger] c[k]).0 <= right
                    && c[k].1 == y && short_of(c[k], right) by {
                    if k >= head.len() {
                        assert(c[k] == rest[k - head.len()]);
                        assert(x <= nx);
                    } else if k > 0 {
                        assert(c[k] == resets(x + 1, x + w, y)[k - 1]);
                        assert(x + w - 1 <= right);
                    } else {
                        assert(c[k] == (x, y, Some(us[0])));
                    }
                }
            }
        }
    }
}

proof fn lemma_rows_cells_within(ls: Seq<Seq<char>>, area: Area, k: int)
    requires
        area.wf(),
        0 <= k <= area.height,
    ensures
        rows_cells(ls, area, k) matches Some(c) ==> forall|i: int|
            0 <= i < c.len() ==> area.x <= (#[trigger] c[i]).0 <= area.x + area.width && area.y
                <= c[i].1 < area.y + k && short_of(c[i], area.x + area.width),
    decreases k,
{
    if k > 0 {
        lemma_rows_cells_within(ls, area, k - 1);
        lemma_row_cells_within(units(ls[k - 1]), area.x as int, area.x + area.width, area.y + k - 1);
        if let Some(c) = rows_cells(ls, area, k) {
            let a = rows_cells(ls, area, k - 1)->0;
            let b = row_cells(units(ls[k - 1]), area.x as int, area.x + area.width, area.y + k - 1)->0;
            assert(c == a + b);
            assert forall|i: int| 0 <= i < c.len() implies area.x <= (#[trigger] c[i]).0 <= area.x
                + area.width && area.y <= c[i].1 < area.y + k && short_of(c[i], area.x + area.width) by {
                if i >= a.len() {
                    assert(c[i] == b[i - a.len()]);
                }
            }
        }
    }
}

/// Shaped text stays in its area: every write lands on one of the area's
/// rows and columns. A write can fall on the column just right of the area
/// in two corner cases only, as in the column arithmetic it follows: when
/// that column is the last one of the coordinate space (the count
/// saturates there), and for a unit whose width wraps to zero in its `u16`
/// count.
pub proof fn law_shaped_text_stays_in_area(area: Area, text: Seq<char>)
    requires
        area.wf(),
    ensures
        shaped_plan(area, text) matches Some(c) ==> forall|i: int|
            0 <= i < c.len() ==> area.x <= (#[trigger] c[i]).0 <= area.x + area.width && area.y
                <= c[i].1 < area.y + area.height && short_of(c[i], area.x + area.width),
{
    if area.width > 0 && area.height > 0 {
        let ls = wrapped(text, area.width as usize);
        let k = if (area.height as int) < ls.len() {
            area.height as int
        } else {
            ls.len() as int
        };
        lemma_rows_cells_within(ls, area, k);
    }
}

} // verus!

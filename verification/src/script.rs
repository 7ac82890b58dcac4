//! Display units for complex scripts (Sinhala conjuncts).
//!
//! Terminals print one grapheme per cell and drop zero-width marks (ZWJ,
//! some vowel signs). Unicode grapheme rules also split Sinhala conjuncts
//! (`ශ්` + ZWJ + `රී`), so the terminal never sees a complete run to shape.
//! Virama/ZWJ/consonant sequences are merged into one unit here, and a whole
//! unit is written into a single cell so the terminal can shape it.
use vstd::prelude::*;
use crate::text::{chars_of, push_char, push_str, str_eq, views};

verus! {

broadcast use Seq::lemma_flatten_push;

// ---------------------------------------------------------------------------
// Outside Unicode tables
// ---------------------------------------------------------------------------

/// The extended grapheme clusters of a string (Unicode Annex #29).
pub uninterp spec fn graphemes(s: Seq<char>) -> Seq<Seq<char>>;

/// The display width in columns of a string (Unicode Annex #11).
pub uninterp spec fn str_width(s: Seq<char>) -> usize;

/// `UnicodeSegmentation::graphemes(s, true)`, collected: the named clusters,
/// which are non-empty and together spell out `s`.
#[verifier::external_body]
fn split_graphemes(s: &str) -> (r: Vec<String>)
    ensures
        views(r@) == graphemes(s@),
        views(r@).flatten() == s@,
        forall|k: int| 0 <= k < r@.len() ==> (#[trigger] r@[k])@.len() > 0,
{
    unicode_segmentation::UnicodeSegmentation::graphemes(s, true).map(|g| g.to_string()).collect()
}

/// `UnicodeWidthStr::width`: the named display width of `s`.
#[verifier::external_body]
fn columns(s: &str) -> (r: usize)
    ensures
        r == str_width(s@),
{
    unicode_width::UnicodeWidthStr::width(s)
}

// ---------------------------------------------------------------------------
// Characters
// ---------------------------------------------------------------------------

/// A character of the Sinhala block.
pub open spec fn sinhala(c: char) -> bool {
    0x0D80 <= c as u32 <= 0x0DFF
}

/// A Sinhala consonant.
pub open spec fn sinhala_consonant(c: char) -> bool {
    0x0D9A <= c as u32 <= 0x0DC6
}

/// Whether the string holds any Sinhala character.
pub open spec fn has_sinhala(s: Seq<char>) -> bool {
    exists|i: int| 0 <= i < s.len() && sinhala(#[trigger] s[i])
}

/// Whether a unit ends with a virama, or with a virama and a joiner (ZWJ/ZWNJ).
pub open spec fn linker_end(s: Seq<char>) -> bool {
    &&& s.len() > 0
    &&& ({
        ||| s.last() == '\u{0DCA}'
        ||| ((s.last() == '\u{200D}' || s.last() == '\u{200C}') && s.len() >= 2 && s[s.len() - 2]
            == '\u{0DCA}')
    })
}

/// Whether a unit starts with a Sinhala consonant.
pub open spec fn consonant_start(s: Seq<char>) -> bool {
    s.len() > 0 && sinhala_consonant(s[0])
}

/// Whether the grapheme `next` is glued onto the unit `unit`: a lone joiner,
/// or a consonant after a virama (with or without a joiner).
pub open spec fn joins(unit: Seq<char>, next: Seq<char>) -> bool {
    ||| next == seq!['\u{200D}']
    ||| next == seq!['\u{200C}']
    ||| (linker_end(unit) && consonant_start(next))
}

/// Graphemes merged left to right: each grapheme is glued onto the unit
/// before it when `joins` says so, else it starts a unit of its own.
pub open spec fn merge_units(gs: Seq<Seq<char>>) -> Seq<Seq<char>>
    decreases gs.len(),
{
    if gs.len() == 0 {
        Seq::empty()
    } else {
        let us = merge_units(gs.drop_last());
        let g = gs.last();
        if us.len() > 0 && joins(us.last(), g) {
            us.drop_last().push(us.last() + g)
        } else {
            us.push(g)
        }
    }
}

/// The display units of a string: its graphemes, with Sinhala conjuncts
/// merged when the string holds Sinhala.
pub open spec fn units(s: Seq<char>) -> Seq<Seq<char>> {
    if has_sinhala(s) {
        merge_units(graphemes(s))
    } else {
        graphemes(s)
    }
}

/// The width given to a unit: at least one column, as a `u16`.
pub open spec fn uw(u: Seq<char>) -> u16 {
    (if str_width(u) < 1 {
        1
    } else {
        str_width(u)
    }) as u16
}

/// The columns a sequence of units takes.
pub open spec fn total_width(us: Seq<Seq<char>>) -> int
    decreases us.len(),
{
    if us.len() == 0 {
        0
    } else {
        total_width(us.drop_last()) + uw(us.last())
    }
}

/// The width of `s` fits the `u16` it is counted in.
pub open spec fn width_fits(s: Seq<char>) -> bool {
    total_width(units(s)) <= u16::MAX
}

fn is_sinhala(c: char) -> (r: bool)
    ensures
        r == sinhala(c),
{
    let u = c as u32;
    0x0D80 <= u && u <= 0x0DFF
}

fn is_sinhala_consonant(c: char) -> (r: bool)
    ensures
        r == sinhala_consonant(c),
{
    let u = c as u32;
    0x0D9A <= u && u <= 0x0DC6
}

/// Whether `s` holds any Sinhala character.
pub fn contains_sinhala(s: &str) -> (r: bool)
    ensures
        r == has_sinhala(s@),
{
    for c in it: s.chars()
        invariant
            it.seq() == s@,
            forall|j: int| 0 <= j < it.index() ==> !sinhala(#[trigger] s@[j]),
    {
        if is_sinhala(c) {
            assert(s@[it.index() as int] == c);
            return true;
        }
    }
    false
}

fn ends_with_linker(s: &str) -> (r: bool)
    ensures
        r == linker_end(s@),
{
    let v = chars_of(s);
    let n = v.len();
    if n == 0 {
        return false;
    }
    let last = v[n - 1];
    if last == '\u{200D}' || last == '\u{200C}' {
        n >= 2 && v[n - 2] == '\u{0DCA}'
    } else {
        last == '\u{0DCA}'
    }
}

fn starts_with_consonant(s: &str) -> (r: bool)
    ensures
        r == consonant_start(s@),
{
    let v = chars_of(s);
    v.len() > 0 && is_sinhala_consonant(v[0])
}

fn glue(unit: &str, next: &str) -> (r: bool)
    ensures
        r == joins(unit@, next@),
{
    proof {
        reveal_strlit("\u{200D}");
        reveal_strlit("\u{200C}");
        assert("\u{200D}"@ == seq!['\u{200D}']);
        assert("\u{200C}"@ == seq!['\u{200C}']);
    }
    str_eq(next, "\u{200D}") || str_eq(next, "\u{200C}") || (ends_with_linker(unit)
        && starts_with_consonant(next))
}

// ---------------------------------------------------------------------------
// Units
// ---------------------------------------------------------------------------

/// Merging keeps every character, in order.
pub proof fn lemma_merge_flatten(gs: Seq<Seq<char>>)
    ensures
        merge_units(gs).flatten() == gs.flatten(),
    decreases gs.len(),
{
    if gs.len() > 0 {
        let us = merge_units(gs.drop_last());
        let g = gs.last();
        lemma_merge_flatten(gs.drop_last());
        assert(gs.drop_last().push(g) == gs);
        if us.len() > 0 && joins(us.last(), g) {
            assert(us.drop_last().push(us.last()) == us);
            assert((us.drop_last().flatten() + us.last()) + g == us.drop_last().flatten() + (
            us.last() + g));
        }
    }
}

/// Merging non-empty graphemes gives non-empty units.
pub proof fn lemma_merge_nonempty(gs: Seq<Seq<char>>)
    requires
        forall|k: int| 0 <= k < gs.len() ==> (#[trigger] gs[k]).len() > 0,
    ensures
        forall|k: int| 0 <= k < merge_units(gs).len() ==> (#[trigger] merge_units(gs)[k]).len()
            > 0,
    decreases gs.len(),
{
    if gs.len() > 0 {
        assert forall|k: int| 0 <= k < gs.drop_last().len() implies (
        #[trigger] gs.drop_last()[k]).len() > 0 by {
            assert(gs.drop_last()[k] == gs[k]);
        }
        lemma_merge_nonempty(gs.drop_last());
        assert(gs.last() == gs[gs.len() - 1]);
        let us = merge_units(gs.drop_last());
        let g = gs.last();
        let m = merge_units(gs);
        assert forall|k: int| 0 <= k < m.len() implies (#[trigger] m[k]).len() > 0 by {
            if us.len() > 0 && joins(us.last(), g) {
                if k < us.len() - 1 {
                    assert(m[k] == us[k]);
                } else {
                    assert(m[k] == us.last() + g);
                }
            } else {
                if k < us.len() {
                    assert(m[k] == us[k]);
                } else {
                    assert(m[k] == g);
                }
            }
        }
    }
}

/// Merging never leaves a virama (with or without a joiner) at the end of a
/// unit whose next unit starts with a consonant: conjuncts stay whole.
pub proof fn lemma_merge_keeps_conjuncts(gs: Seq<Seq<char>>)
    requires
        forall|k: int| 0 <= k < gs.len() ==> (#[trigger] gs[k]).len() > 0,
    ensures
        forall|i: int|
            0 <= i < merge_units(gs).len() - 1 ==> !(linker_end(#[trigger] merge_units(gs)[i])
                && consonant_start(merge_units(gs)[i + 1])),
    decreases gs.len(),
{
    if gs.len() > 0 {
        let gd = gs.drop_last();
        assert forall|k: int| 0 <= k < gd.len() implies (#[trigger] gd[k]).len() > 0 by {
            assert(gd[k] == gs[k]);
        }
        lemma_merge_keeps_conjuncts(gd);
        lemma_merge_nonempty(gd);
        let us = merge_units(gd);
        let g = gs.last();
        let m = merge_units(gs);
        assert forall|i: int| 0 <= i < m.len() - 1 implies !(linker_end(#[trigger] m[i])
            && consonant_start(m[i + 1])) by {
            if us.len() > 0 && joins(us.last(), g) {
                assert(m[i] == us[i]);
                if i + 1 < us.len() - 1 {
                    assert(m[i + 1] == us[i + 1]);
                } else {
                    assert(m[i + 1] == us.last() + g);
                    assert(us.last().len() > 0);
                    assert((us.last() + g)[0] == us.last()[0]);
                    assert(us[i + 1] == us.last());
                }
            } else {
                if i < us.len() - 1 {
                    assert(m[i] == us[i]);
                    assert(m[i + 1] == us[i + 1]);
                } else {
                    assert(m[i] == us.last());
                    assert(m[i + 1] == g);
                }
            }
        }
    }
}

/// Graphemes glued into display units (`merge_units`): each is joined onto
/// the unit before it when `joins` says so.
pub fn merge_graphemes(gs: &Vec<String>) -> (r: Vec<String>)
    ensures
        views(r@) == merge_units(views(gs@)),
{
    let ghost gv = views(gs@);
    let mut out: Vec<String> = Vec::new();
    let n = gs.len();
    let mut i: usize = 0;
    while i < n
        invariant
            i <= n == gs.len(),
            gv == views(gs@),
            views(out@) == merge_units(gv.take(i as int)),
        decreases n - i,
    {
        proof {
            assert(gv.take(i + 1).drop_last() == gv.take(i as int));
            assert(gv.take(i + 1).last() == gs@[i as int]@);
        }
        let g = gs[i].as_str();
        let k = out.len();
        if k > 0 && glue(out[k - 1].as_str(), g) {
            let mut last = out.pop().unwrap();
            let ghost before = views(out@);
            push_str(&mut last, g);
            out.push(last);
            proof {
                assert(views(out@) =~= before.push(last@));
            }
        } else {
            proof {
                assert(views(out@.push(gs@[i as int])) =~= views(out@).push(gs@[i as int]@));
            }
            out.push(gs[i].clone());
        }
        i = i + 1;
    }
    proof {
        assert(gv.take(n as int) == gv);
    }
    out
}

/// Visual clusters: Unicode graphemes, then Sinhala conjuncts glued together.
/// The units are non-empty and together spell out `s`.
pub fn display_units(s: &str) -> (r: Vec<String>)
    ensures
        views(r@) == units(s@),
        views(r@).flatten() == s@,
        forall|k: int| 0 <= k < r@.len() ==> (#[trigger] r@[k])@.len() > 0,
        has_sinhala(s@) ==> forall|i: int|
            0 <= i < units(s@).len() - 1 ==> !(linker_end(#[trigger] units(s@)[i])
                && consonant_start(units(s@)[i + 1])),
{
    let gs = split_graphemes(s);
    if !contains_sinhala(s) {
        return gs;
    }
    let ghost gv = views(gs@);
    let out = merge_graphemes(&gs);
    proof {
        lemma_merge_flatten(gv);
        lemma_merge_nonempty(gv);
        lemma_merge_keeps_conjuncts(gv);
        assert forall|k: int| 0 <= k < out@.len() implies (#[trigger] out@[k])@.len() > 0 by {
            assert(views(out@)[k] == out@[k]@);
        }
    }
    out
}

/// Columns taken by one display unit: at least one.
pub fn unit_width(unit: &str) -> (r: u16)
    ensures
        r == uw(unit@),
{
    let w = columns(unit);
    let w = if w < 1 {
        1
    } else {
        w
    };
    w as u16
}

/// Columns taken by a string, unit by unit.
pub fn display_width(s: &str) -> (r: u16)
    requires
        width_fits(s@),
    ensures
        r == total_width(units(s@)),
{
    let us = display_units(s);
    let ghost uv = views(us@);
    let mut sum: u16 = 0;
    let n = us.len();
    let mut i: usize = 0;
    proof {
        lemma_total_width_prefix(uv, n as int);
    }
    while i < n
        invariant
            i <= n == us.len(),
            uv == views(us@),
            uv == units(s@),
            total_width(uv) <= u16::MAX,
            forall|j: int| 0 <= j <= n ==> #[trigger] total_width(uv.take(j)) <= total_width(uv),
            sum == total_width(uv.take(i as int)),
        decreases n - i,
    {
        proof {
            assert(uv.take(i + 1).drop_last() == uv.take(i as int));
            assert(uv.take(i + 1).last() == us@[i as int]@);
            assert(total_width(uv.take(i + 1)) <= total_width(uv));
        }
        sum = sum + unit_width(us[i].as_str());
        i = i + 1;
    }
    proof {
        assert(uv.take(n as int) == uv);
    }
    sum
}

/// Prefix widths never exceed the whole width.
pub proof fn lemma_total_width_prefix(us: Seq<Seq<char>>, n: int)
    requires
        n == us.len(),
    ensures
        forall|j: int| 0 <= j <= n ==> #[trigger] total_width(us.take(j)) <= total_width(us),
    decreases n,
{
    if n > 0 {
        lemma_total_width_prefix(us.drop_last(), n - 1);
        assert forall|j: int| 0 <= j <= n implies #[trigger] total_width(us.take(j))
            <= total_width(us) by {
            if j < n {
                assert(us.take(j) == us.drop_last().take(j));
            } else {
                assert(us.take(j) == us);
            }
        }
    } else {
        assert forall|j: int| 0 <= j <= n implies #[trigger] total_width(us.take(j))
            <= total_width(us) by {
            assert(us.take(j).len() == 0);
        }
    }
}

/// The width of a string, or `None` when it does not fit in a `u16`.
pub fn measured_width(s: &str) -> (r: Option<u16>)
    ensures
        width_fits(s@) ==> r == Some(total_width(units(s@)) as u16),
        !width_fits(s@) ==> r is None,
{
    let us = display_units(s);
    let ghost uv = views(us@);
    let mut sum: u64 = 0;
    let n = us.len();
    let mut i: usize = 0;
    while i < n
        invariant
            i <= n == us.len(),
            uv == views(us@),
            uv == units(s@),
            sum == total_width(uv.take(i as int)),
            sum <= u16::MAX,
        decreases n - i,
    {
        proof {
            assert(uv.take(i + 1).drop_last() == uv.take(i as int));
            assert(uv.take(i + 1).last() == us@[i as int]@);
        }
        sum = sum + unit_width(us[i].as_str()) as u64;
        assert(sum == total_width(uv.take(i + 1)));
        if sum > 65535 {
            proof {
                lemma_total_width_prefix(uv, n as int);
                assert(total_width(uv.take(i + 1)) <= total_width(uv));
            }
            return None;
        }
        i = i + 1;
    }
    proof {
        assert(uv.take(n as int) == uv);
    }
    Some(display_width(s))
}

// ---------------------------------------------------------------------------
// Ellipsis
// ---------------------------------------------------------------------------

/// The longest run of leading units whose widths add up to at most `budget`.
pub open spec fn fit_prefix(us: Seq<Seq<char>>, budget: int) -> Seq<Seq<char>>
    decreases us.len(),
{
    if us.len() == 0 || uw(us[0]) > budget {
        Seq::empty()
    } else {
        seq![us[0]] + fit_prefix(us.drop_first(), budget - uw(us[0]))
    }
}

/// A string cut down to `max_cols` columns: unchanged when it fits, else the
/// leading units that fit in `max_cols - 1` columns followed by `…`.
pub open spec fn ellipsized(s: Seq<char>, max_cols: usize) -> Seq<char> {
    if max_cols == 0 {
        Seq::empty()
    } else if total_width(units(s)) <= max_cols {
        s
    } else {
        fit_prefix(units(s), max_cols - 1).flatten().push('…')
    }
}

proof fn lemma_fit_prefix_step(us: Seq<Seq<char>>, i: int, budget: int)
    requires
        0 <= i < us.len(),
    ensures
        fit_prefix(us.skip(i), budget) == (if uw(us[i]) > budget {
            Seq::empty()
        } else {
            seq![us[i]] + fit_prefix(us.skip(i + 1), budget - uw(us[i]))
        }),
{
    assert(us.skip(i)[0] == us[i]);
    assert(us.skip(i).drop_first() == us.skip(i + 1));
}

/// The width of a unit followed by more units.
proof fn lemma_total_width_cons(u: Seq<char>, rest: Seq<Seq<char>>)
    ensures
        total_width(seq![u] + rest) == uw(u) + total_width(rest),
    decreases rest.len(),
{
    if rest.len() == 0 {
        assert(seq![u] + rest == seq![u]);
        assert(seq![u].drop_last() == Seq::<Seq<char>>::empty());
        assert(seq![u].last() == u);
        assert(total_width(Seq::<Seq<char>>::empty()) == 0);
        assert(total_width(seq![u]) == uw(u));
    } else {
        assert((seq![u] + rest).drop_last() == seq![u] + rest.drop_last());
        assert((seq![u] + rest).last() == rest.last());
        lemma_total_width_cons(u, rest.drop_last());
        assert(total_width(rest) == total_width(rest.drop_last()) + uw(rest.last()));
    }
}

/// The units kept by `fit_prefix` are a leading run whose width stays
/// within the budget.
proof fn lemma_fit_prefix_is_take(us: Seq<Seq<char>>, budget: int)
    requires
        budget >= 0,
    ensures
        exists|k: int|
            0 <= k <= us.len() && fit_prefix(us, budget) == us.take(k) && total_width(us.take(k))
                <= budget,
    decreases us.len(),
{
    if us.len() == 0 || uw(us[0]) > budget {
        assert(fit_prefix(us, budget) == us.take(0));
        assert(total_width(us.take(0)) == 0);
    } else {
        let rest = us.drop_first();
        let b2 = budget - uw(us[0]);
        lemma_fit_prefix_is_take(rest, b2);
        let k = choose|k: int|
            0 <= k <= rest.len() && fit_prefix(rest, b2) == rest.take(k) && total_width(
                rest.take(k),
            ) <= b2;
        assert(seq![us[0]] + rest.take(k) == us.take(k + 1));
        lemma_total_width_cons(us[0], rest.take(k));
        assert(fit_prefix(us, budget) == us.take(k + 1));
    }
}

/// A cut title is made of whole leading display units and the ellipsis,
/// and together they fit in `max_cols` columns.
pub proof fn law_ellipsis_fits(s: Seq<char>, max_cols: usize)
    requires
        max_cols > 0,
        total_width(units(s)) > max_cols,
    ensures
        exists|k: int|
            0 <= k <= units(s).len() && ellipsized(s, max_cols) == units(s).take(k).flatten().push(
                '…',
            ) && total_width(units(s).take(k)) + 1 <= max_cols,
{
    lemma_fit_prefix_is_take(units(s), max_cols - 1);
}

/// Cut a string to `max_cols` columns, keeping whole display units and ending
/// with `…` when something was cut.
pub fn ellipsize_shaped(s: &str, max_cols: usize) -> (r: String)
    requires
        max_cols == 0 || width_fits(s@),
    ensures
        r@ == ellipsized(s@, max_cols),
{
    if max_cols == 0 {
        return String::new();
    }
    if display_width(s) as usize <= max_cols {
        let v = chars_of(s);
        return crate::text::string_from(&v);
    }
    let mut out = String::new();
    let mut used: usize = 0;
    let limit = max_cols - 1;
    let us = display_units(s);
    let ghost uv = views(us@);
    let n = us.len();
    let mut i: usize = 0;
    proof {
        assert(uv.skip(0) == uv);
        assert(uv.take(0).flatten() == Seq::<char>::empty());
    }
    while i < n
        invariant
            i <= n == us.len(),
            uv == views(us@),
            used <= limit,
            out@ == uv.take(i as int).flatten(),
            fit_prefix(uv, limit as int) == uv.take(i as int) + fit_prefix(
                uv.skip(i as int),
                limit - used,
            ),
        ensures
            out@ == uv.take(i as int).flatten(),
            fit_prefix(uv, limit as int) == uv.take(i as int),
        decreases n - i,
    {
        let w = unit_width(us[i].as_str()) as usize;
        proof {
            if i + 1 == n {
                assert(uv.skip(n as int).len() == 0);
                assert(uv.take(n as int) + Seq::<Seq<char>>::empty() == uv.take(n as int));
            }
            lemma_fit_prefix_step(uv, i as int, limit - used);
            assert(uv[i as int] == us@[i as int]@);
        }
        if w > limit - used {
            proof {
                assert(uv.take(i as int) + Seq::<Seq<char>>::empty() == uv.take(i as int));
            }
            break;
        }
        push_str(&mut out, us[i].as_str());
        proof {
            assert(uv.take(i + 1) == uv.take(i as int).push(uv[i as int]));
            assert(uv.take(i as int) + (seq![uv[i as int]] + fit_prefix(
                uv.skip(i + 1),
                limit - used - w,
            )) == uv.take(i + 1) + fit_prefix(uv.skip(i + 1), limit - used - w));
        }
        used = used + w;
        i = i + 1;
    }
    push_char(&mut out, '…');
    out
}

/// `ellipsize_shaped` for any string: `None` when the string's width does not
/// fit in a `u16` (and `max_cols > 0`).
pub fn ellipsize_checked(s: &str, max_cols: usize) -> (r: Option<String>)
    ensures
        (max_cols == 0 || width_fits(s@)) ==> (r matches Some(t) && t@ == ellipsized(s@, max_cols)),
        !(max_cols == 0 || width_fits(s@)) ==> r is None,
{
    if max_cols > 0 && measured_width(s).is_none() {
        return None;
    }
    Some(ellipsize_shaped(s, max_cols))
}

// ---------------------------------------------------------------------------
// Wrapping
// ---------------------------------------------------------------------------

/// The pieces of `s` between newlines (`str::split('\n')`): the state of a
/// left-to-right scan, finished pieces and the piece in progress.
pub open spec fn line_fold(s: Seq<char>) -> (Seq<Seq<char>>, Seq<char>)
    decreases s.len(),
{
    if s.len() == 0 {
        (Seq::empty(), Seq::empty())
    } else {
        let (done, cur) = line_fold(s.drop_last());
        if s.last() == '\n' {
            (done.push(cur), Seq::empty())
        } else {
            (done, cur.push(s.last()))
        }
    }
}

/// The pieces of `s` between newlines; an empty string has one empty piece.
pub open spec fn paragraphs(s: Seq<char>) -> Seq<Seq<char>> {
    line_fold(s).0.push(line_fold(s).1)
}

/// The state of wrapping one paragraph: finished lines, the line being
/// filled, the columns it uses, and whether a space is owed before the next unit.
pub struct WrapState {
    pub lines: Seq<Seq<char>>,
    pub cur: Seq<char>,
    pub used: int,
    pub pending: bool,
}

/// One unit placed by the greedy wrapper. A space only marks that a space is
/// owed (when the line has text); a unit that does not fit (with its owed
/// space) ends the line; a unit wider than the whole width gets a line of its own.
pub open spec fn wrap_step(st: WrapState, u: Seq<char>, width: int) -> WrapState {
    if u == seq![' '] {
        WrapState { pending: st.cur.len() > 0, ..st }
    } else {
        let w = uw(u) as int;
        let extra: int = if st.pending {
            1
        } else {
            0
        };
        let st1 = if st.used + extra + w > width && st.cur.len() > 0 {
            WrapState { lines: st.lines.push(st.cur), cur: Seq::empty(), used: 0, pending: false }
        } else {
            st
        };
        let st2 = if st1.pending {
            WrapState { cur: st1.cur.push(' '), used: st1.used + 1, pending: false, ..st1 }
        } else {
            st1
        };
        if w > width && st2.cur.len() == 0 {
            WrapState { lines: st2.lines.push(u), cur: Seq::empty(), used: 0, ..st2 }
        } else {
            WrapState { cur: st2.cur + u, used: st2.used + w, ..st2 }
        }
    }
}

/// The wrapping state after placing all of `us`.
pub open spec fn wrap_fold(us: Seq<Seq<char>>, width: int) -> WrapState
    decreases us.len(),
{
    if us.len() == 0 {
        WrapState { lines: Seq::empty(), cur: Seq::empty(), used: 0, pending: false }
    } else {
        wrap_step(wrap_fold(us.drop_last(), width), us.last(), width)
    }
}

/// The lines of one paragraph of units.
pub open spec fn wrap_units(us: Seq<Seq<char>>, width: int) -> Seq<Seq<char>> {
    let st = wrap_fold(us, width);
    if st.cur.len() > 0 {
        st.lines.push(st.cur)
    } else {
        st.lines
    }
}

/// The lines of one paragraph: one empty line for an empty paragraph.
pub open spec fn wrap_paragraph(p: Seq<char>, width: int) -> Seq<Seq<char>> {
    if p.len() == 0 {
        seq![Seq::empty()]
    } else {
        wrap_units(units(p), width)
    }
}

/// All lines of a text wrapped to `width` columns (at least one).
pub open spec fn wrapped(text: Seq<char>, width: usize) -> Seq<Seq<char>> {
    let w: int = if width < 1 {
        1
    } else {
        width as int
    };
    paragraphs(text).map_values(|p: Seq<char>| wrap_paragraph(p, w)).flatten()
}

/// Text with its spaces taken out.
pub open spec fn unspaced(s: Seq<char>) -> Seq<char> {
    s.filter(|c: char| c != ' ')
}

proof fn lemma_wrap_fold_text(us: Seq<Seq<char>>, width: int)
    ensures
        unspaced(wrap_fold(us, width).lines.flatten() + wrap_fold(us, width).cur) == unspaced(
            us.flatten(),
        ),
    decreases us.len(),
{
    broadcast use Seq::filter_distributes_over_add;

    if us.len() == 0 {
        assert(us.flatten() =~= Seq::<char>::empty());
        assert(Seq::<Seq<char>>::empty().flatten() + Seq::<char>::empty() =~= Seq::<char>::empty());
    } else {
        let ud = us.drop_last();
        let u = us.last();
        lemma_wrap_fold_text(ud, width);
        assert(ud.push(u) == us);
        let st = wrap_fold(ud, width);
        let n = wrap_fold(us, width);
        assert(us.flatten() == ud.flatten() + u);
        if u == seq![' '] {
            assert(unspaced(seq![' ']) =~= Seq::<char>::empty()) by {
                reveal_with_fuel(Seq::<_>::filter, 2);
            }
            assert(unspaced(ud.flatten() + u) == unspaced(ud.flatten()) + unspaced(u));
            assert(unspaced(ud.flatten()) + Seq::<char>::empty() == unspaced(ud.flatten()));
        } else {
            let w = uw(u) as int;
            let extra: int = if st.pending {
                1
            } else {
                0
            };
            let st1 = if st.used + extra + w > width && st.cur.len() > 0 {
                WrapState { lines: st.lines.push(st.cur), cur: Seq::empty(), used: 0, pending: false }
            } else {
                st
            };
            assert(st1.lines.flatten() + st1.cur == st.lines.flatten() + st.cur) by {
                if st.used + extra + w > width && st.cur.len() > 0 {
                    assert(st.lines.push(st.cur).flatten() == st.lines.flatten() + st.cur);
                    assert(st.lines.flatten() + st.cur + Seq::<char>::empty() == st.lines.flatten()
                        + st.cur);
                }
            }
            let st2 = if st1.pending {
                WrapState { cur: st1.cur.push(' '), used: st1.used + 1, pending: false, ..st1 }
            } else {
                st1
            };
            assert(unspaced(st2.lines.flatten() + st2.cur) == unspaced(st1.lines.flatten() + st1.cur)) by {
                if st1.pending {
                    assert(st1.lines.flatten() + st1.cur.push(' ') == (st1.lines.flatten() + st1.cur) + seq![' ']);
                    assert(unspaced(seq![' ']) =~= Seq::<char>::empty()) by {
                        reveal_with_fuel(Seq::<_>::filter, 2);
                    }
                    assert(unspaced((st1.lines.flatten() + st1.cur) + seq![' ']) == unspaced(st1.lines.flatten() + st1.cur) + unspaced(seq![' ']));
                    assert(unspaced(st1.lines.flatten() + st1.cur) + Seq::<char>::empty() == unspaced(st1.lines.flatten() + st1.cur));
                }
            }
            assert(n.lines.flatten() + n.cur == (st2.lines.flatten() + st2.cur) + u) by {
                if w > width && st2.cur.len() == 0 {
                    assert(st2.lines.push(u).flatten() == st2.lines.flatten() + u);
                    assert(st2.cur =~= Seq::<char>::empty());
                    assert(st2.lines.flatten() + u + Seq::<char>::empty() == (st2.lines.flatten() + st2.cur) + u);
                } else {
                    assert(st2.lines.flatten() + (st2.cur + u) == (st2.lines.flatten() + st2.cur) + u);
                }
            }
            assert(unspaced((st2.lines.flatten() + st2.cur) + u) == unspaced(st2.lines.flatten() + st2.cur) + unspaced(u));
            assert(unspaced(ud.flatten() + u) == unspaced(ud.flatten()) + unspaced(u));
        }
    }
}

/// Wrapping a paragraph's units loses, adds and reorders nothing but
/// spaces: with the spaces taken out, the lines read as the units do.
pub proof fn law_wrap_keeps_text(us: Seq<Seq<char>>, width: int)
    ensures
        unspaced(wrap_units(us, width).flatten()) == unspaced(us.flatten()),
{
    lemma_wrap_fold_text(us, width);
    let st = wrap_fold(us, width);
    if st.cur.len() > 0 {
        assert(st.lines.push(st.cur).flatten() == st.lines.flatten() + st.cur);
    } else {
        assert(st.cur =~= Seq::<char>::empty());
        assert(st.lines.flatten() + st.cur == st.lines.flatten());
    }
}

/// Text with its spaces and line breaks taken out.
pub open spec fn unbroken(s: Seq<char>) -> Seq<char> {
    s.filter(|c: char| c != ' ' && c != '\n')
}

/// Splitting at newlines keeps every character but the newlines, in
/// order, and leaves no newline in a piece.
proof fn lemma_line_fold_text(s: Seq<char>)
    ensures
        unbroken(s) == unbroken(line_fold(s).0.flatten() + line_fold(s).1),
        forall|k: int| 0 <= k < line_fold(s).0.len() ==> !(#[trigger] line_fold(s).0[k]).contains('\n'),
        !line_fold(s).1.contains('\n'),
    decreases s.len(),
{
    broadcast use Seq::lemma_filter_push;

    if s.len() == 0 {
        assert(Seq::<Seq<char>>::empty().flatten() + Seq::<char>::empty() =~= s);
    } else {
        let sd = s.drop_last();
        let c = s.last();
        lemma_line_fold_text(sd);
        assert(sd.push(c) == s);
        let (done, cur) = line_fold(sd);
        if c == '\n' {
            assert(done.push(cur).flatten() == done.flatten() + cur);
            assert(done.push(cur).flatten() + Seq::<char>::empty() == done.flatten() + cur);
            assert forall|k: int| 0 <= k < done.push(cur).len() implies !(
            #[trigger] done.push(cur)[k]).contains('\n') by {
                if k < done.len() {
                    assert(done.push(cur)[k] == done[k]);
                }
            }
        } else {
            assert(done.flatten() + cur.push(c) == (done.flatten() + cur).push(c));
            assert forall|k: int| 0 <= k < cur.push(c).len() implies cur.push(c)[k] != '\n' by {
                if k < cur.len() {
                    assert(cur.push(c)[k] == cur[k]);
                }
            }
        }
    }
}

/// In text without line breaks, taking out spaces and line breaks takes
/// out the spaces.
proof fn lemma_unbroken_unspaced(s: Seq<char>)
    requires
        !s.contains('\n'),
    ensures
        unbroken(s) == unspaced(s),
    decreases s.len(),
{
    broadcast use Seq::lemma_filter_push;

    if s.len() > 0 {
        let sd = s.drop_last();
        assert(sd.push(s.last()) == s);
        assert forall|k: int| 0 <= k < sd.len() implies sd[k] != '\n' by {
            assert(sd[k] == s[k]);
        }
        lemma_unbroken_unspaced(sd);
        assert(s.last() == s[s.len() - 1]);
    }
}

/// The pieces of `s` between newlines.
pub fn split_lines(s: &str) -> (r: Vec<String>)
    ensures
        views(r@) == paragraphs(s@),
{
    let mut done: Vec<String> = Vec::new();
    let mut cur = String::new();
    for c in it: s.chars()
        invariant
            it.seq() == s@,
            (views(done@), cur@) == line_fold(s@.take(it.index() as int)),
    {
        proof {
            assert(s@.take(it.index() + 1).drop_last() == s@.take(it.index() as int));
            assert(s@.take(it.index() + 1).last() == c);
        }
        if c == '\n' {
            proof {
                assert(views(done@.push(cur)) =~= views(done@).push(cur@));
            }
            done.push(cur);
            cur = String::new();
        } else {
            push_char(&mut cur, c);
        }
    }
    proof {
        assert(s@.take(s@.len() as int) == s@);
        assert(views(done@.push(cur)) =~= views(done@).push(cur@));
    }
    done.push(cur);
    done
}

/// Wrap one non-empty paragraph, appending its lines to `lines`.
fn wrap_one(paragraph: &str, width: usize, lines: &mut Vec<String>)
    requires
        width >= 1,
        paragraph@.len() > 0,
    ensures
        views(final(lines)@) == views(old(lines)@) + wrap_units(units(paragraph@), width as int),
        units(paragraph@).flatten() == paragraph@,
{
    let us = display_units(paragraph);
    let ghost uv = views(us@);
    let ghost base = views(lines@);
    let mut current = String::new();
    let mut used: usize = 0;
    let mut pending = false;
    let n = us.len();
    let mut i: usize = 0;
    proof {
        reveal_strlit(" ");
        assert(" "@ == seq![' ']);
    }
    while i < n
        invariant
            i <= n == us.len(),
            width >= 1,
            uv == views(us@),
            " "@ == seq![' '],
            forall|k: int| 0 <= k < us@.len() ==> (#[trigger] us@[k])@.len() > 0,
            used <= width,
            current@.len() == 0 ==> used == 0,
            pending ==> current@.len() > 0,
            ({
                let st = wrap_fold(uv.take(i as int), width as int);
                &&& views(lines@) == base + st.lines
                &&& current@ == st.cur
                &&& used == st.used
                &&& pending == st.pending
            }),
        decreases n - i,
    {
        proof {
            assert(uv.take(i + 1).drop_last() == uv.take(i as int));
            assert(uv.take(i + 1).last() == us@[i as int]@);
        }
        let unit = us[i].as_str();
        let ghost st = wrap_fold(uv.take(i as int), width as int);
        let ghost u = uv[i as int];
        proof {
            assert(u == unit@);
            assert(wrap_fold(uv.take(i + 1), width as int) == wrap_step(st, u, width as int));
        }
        if str_eq(unit, " ") {
            pending = !current.as_str().is_empty();
            i = i + 1;
            continue;
        }
        let w = unit_width(unit) as usize;
        let extra: usize = if pending {
            1
        } else {
            0
        };
        let ghost st1 = if st.used + extra + w > width && st.cur.len() > 0 {
            WrapState { lines: st.lines.push(st.cur), cur: Seq::empty(), used: 0, pending: false }
        } else {
            st
        };
        if w + extra > width - used && !current.as_str().is_empty() {
            proof {
                assert(views(lines@.push(current)) =~= views(lines@).push(current@));
                assert(base + st.lines.push(st.cur) == (base + st.lines).push(st.cur));
            }
            lines.push(current);
            current = String::new();
            used = 0;
            pending = false;
        }
        assert(views(lines@) == base + st1.lines && current@ == st1.cur && used == st1.used
            && pending == st1.pending);
        let ghost st2 = if st1.pending {
            WrapState { cur: st1.cur.push(' '), used: st1.used + 1, pending: false, ..st1 }
        } else {
            st1
        };
        if pending {
            push_char(&mut current, ' ');
            used = used + 1;
            pending = false;
        }
        assert(views(lines@) == base + st2.lines && current@ == st2.cur && used == st2.used
            && pending == st2.pending);
        if w > width && current.as_str().is_empty() {
            push_str(&mut current, unit);
            proof {
                assert(current@ == u);
                assert(views(lines@.push(current)) =~= views(lines@).push(current@));
                assert(base + st2.lines.push(u) == (base + st2.lines).push(u));
            }
            lines.push(current);
            current = String::new();
            used = 0;
            i = i + 1;
            continue;
        }
        push_str(&mut current, unit);
        used = used + w;
        i = i + 1;
    }
    proof {
        assert(uv.take(n as int) == uv);
    }
    if !current.as_str().is_empty() {
        proof {
            assert(views(lines@.push(current)) =~= views(lines@).push(current@));
        }
        lines.push(current);
    }
    proof {
        let st = wrap_fold(uv, width as int);
        if st.cur.len() > 0 {
            assert(base + st.lines.push(st.cur) == (base + st.lines).push(st.cur));
        }
    }
}

/// Wrap text to `width` columns (at least one), paragraph by paragraph,
/// moving whole display units to the next line. Only spaces and line
/// breaks differ: every other character is kept, once and in order.
pub fn wrap_shaped(text: &str, width: usize) -> (r: Vec<String>)
    ensures
        views(r@) == wrapped(text@, width),
        unspaced(views(r@).flatten()) == unbroken(text@),
{
    let width = if width < 1 {
        1
    } else {
        width
    };
    let mut lines: Vec<String> = Vec::new();
    let paras = split_lines(text);
    let ghost pv = views(paras@);
    let ghost f = |p: Seq<char>| wrap_paragraph(p, width as int);
    let n = paras.len();
    let mut i: usize = 0;
    proof {
        lemma_line_fold_text(text@);
    }
    while i < n
        invariant
            i <= n == paras.len(),
            width >= 1,
            pv == views(paras@),
            pv == paragraphs(text@),
            forall|k: int| 0 <= k < pv.len() ==> !(#[trigger] pv[k]).contains('\n'),
            f == (|p: Seq<char>| wrap_paragraph(p, width as int)),
            views(lines@) == pv.take(i as int).map_values(f).flatten(),
            unspaced(views(lines@).flatten()) == unbroken(pv.take(i as int).flatten()),
        decreases n - i,
    {
        let p = paras[i].as_str();
        let ghost before = views(lines@);
        proof {
            assert(pv[i as int] == p@);
            assert(pv.take(i + 1).map_values(f) == pv.take(i as int).map_values(f).push(f(p@)));
            assert(pv.take(i + 1) == pv.take(i as int).push(p@));
        }
        if p.is_empty() {
            let e = String::new();
            proof {
                assert(views(lines@.push(e)) =~= views(lines@).push(Seq::empty()));
                reveal_with_fuel(Seq::<_>::flatten, 2);
                assert(seq![Seq::<char>::empty()].flatten() == Seq::<Seq<char>>::empty().push(Seq::<char>::empty()).flatten());
            }
            lines.push(e);
        } else {
            wrap_one(p, width, &mut lines);
        }
        proof {
            broadcast use Seq::filter_distributes_over_add;

            let lp = f(p@);
            assert(views(lines@) == before + lp);
            vstd::seq_lib::lemma_flatten_concat(before, lp);
            lemma_unbroken_unspaced(p@);
            if p@.len() == 0 {
                reveal_with_fuel(Seq::<_>::flatten, 2);
                assert(lp.flatten() =~= Seq::<char>::empty());
                assert(unspaced(Seq::<char>::empty()) =~= Seq::<char>::empty()) by {
                    reveal(Seq::filter);
                }
                assert(p@ =~= Seq::<char>::empty());
            } else {
                law_wrap_keeps_text(units(p@), width as int);
            }
            assert(unspaced(lp.flatten()) == unbroken(p@));
            assert(pv.take(i + 1).flatten() == pv.take(i as int).flatten() + p@);
        }
        i = i + 1;
    }
    proof {
        assert(pv.take(n as int) == pv);
        assert(pv.flatten() == line_fold(text@).0.flatten() + line_fold(text@).1);
    }
    lines
}

} // verus!

//! Character-level string helpers, each stated over the `Seq<char>` view.
use vstd::prelude::*;

verus! {

// ---------------------------------------------------------------------------
// Whitespace
// ---------------------------------------------------------------------------

/// Unicode `White_Space`, the property that `char::is_whitespace` tests.
pub open spec fn is_ws(c: char) -> bool {
    let u = c as u32;
    ||| 0x09 <= u <= 0x0D
    ||| u == 0x20
    ||| u == 0x85
    ||| u == 0xA0
    ||| u == 0x1680
    ||| 0x2000 <= u <= 0x200A
    ||| u == 0x2028
    ||| u == 0x2029
    ||| u == 0x202F
    ||| u == 0x205F
    ||| u == 0x3000
}

/// Whether `c` is Unicode whitespace.
pub fn is_whitespace(c: char) -> (r: bool)
    ensures
        r == is_ws(c),
{
    let u = c as u32;
    (0x09 <= u && u <= 0x0D) || u == 0x20 || u == 0x85 || u == 0xA0 || u == 0x1680 || (0x2000
        <= u && u <= 0x200A) || u == 0x2028 || u == 0x2029 || u == 0x202F || u == 0x205F || u
        == 0x3000
}

/// `s` without leading whitespace.
pub open spec fn trim_start(s: Seq<char>) -> Seq<char>
    decreases s.len(),
{
    if s.len() > 0 && is_ws(s[0]) {
        trim_start(s.drop_first())
    } else {
        s
    }
}

/// `s` without trailing whitespace.
pub open spec fn trim_end(s: Seq<char>) -> Seq<char>
    decreases s.len(),
{
    if s.len() > 0 && is_ws(s.last()) {
        trim_end(s.drop_last())
    } else {
        s
    }
}

/// `s` without leading or trailing whitespace (`str::trim`).
pub open spec fn trim(s: Seq<char>) -> Seq<char> {
    trim_end(trim_start(s))
}

/// The state of a left-to-right whitespace split: finished words and the word in progress.
pub open spec fn ws_fold(s: Seq<char>) -> (Seq<Seq<char>>, Seq<char>)
    decreases s.len(),
{
    if s.len() == 0 {
        (Seq::empty(), Seq::empty())
    } else {
        let (done, cur) = ws_fold(s.drop_last());
        let c = s.last();
        if is_ws(c) {
            if cur.len() > 0 {
                (done.push(cur), Seq::empty())
            } else {
                (done, Seq::empty())
            }
        } else {
            (done, cur.push(c))
        }
    }
}

/// The maximal runs of non-whitespace characters of `s` (`str::split_whitespace`).
pub open spec fn words(s: Seq<char>) -> Seq<Seq<char>> {
    let (done, cur) = ws_fold(s);
    if cur.len() > 0 {
        done.push(cur)
    } else {
        done
    }
}

/// The pieces of `parts` with `sep` between neighbours (`join`).
pub open spec fn join(parts: Seq<Seq<char>>, sep: Seq<char>) -> Seq<char>
    decreases parts.len(),
{
    if parts.len() == 0 {
        Seq::empty()
    } else if parts.len() == 1 {
        parts[0]
    } else {
        join(parts.drop_last(), sep) + sep + parts.last()
    }
}

/// The words of `s` joined by single spaces.
pub open spec fn collapse_ws(s: Seq<char>) -> Seq<char> {
    join(words(s), seq![' '])
}

/// `w` is made of non-whitespace characters that occur in `s`.
pub open spec fn chars_from(w: Seq<char>, s: Seq<char>) -> bool {
    forall|j: int| 0 <= j < w.len() ==> !is_ws(#[trigger] w[j]) && s.contains(w[j])
}

/// Tidy text: every whitespace character is a plain space, every other
/// character occurs in `s`, and there is no space at either end and no two
/// spaces in a row.
pub open spec fn tidy(t: Seq<char>, s: Seq<char>) -> bool {
    &&& forall|i: int|
        0 <= i < t.len() ==> (#[trigger] t[i]) == ' ' || (!is_ws(t[i]) && s.contains(t[i]))
    &&& t.len() > 0 ==> !is_ws(t[0]) && !is_ws(t.last())
    &&& forall|i: int| 0 <= i < t.len() - 1 ==> !((#[trigger] t[i]) == ' ' && t[i + 1] == ' ')
}

proof fn lemma_ws_fold_shape(s: Seq<char>)
    ensures
        forall|k: int|
            0 <= k < ws_fold(s).0.len() ==> (#[trigger] ws_fold(s).0[k]).len() > 0 && chars_from(
                ws_fold(s).0[k],
                s,
            ),
        chars_from(ws_fold(s).1, s),
    decreases s.len(),
{
    if s.len() > 0 {
        let t = s.drop_last();
        lemma_ws_fold_shape(t);
        assert forall|c: char| t.contains(c) implies s.contains(c) by {
            let i = choose|i: int| 0 <= i < t.len() && t[i] == c;
            assert(s[i] == c);
        }
        let (done, cur) = ws_fold(t);
        let c = s.last();
        assert(s[s.len() - 1] == c);
        assert forall|k: int| 0 <= k < done.len() implies chars_from(done[k], s) by {
            assert(chars_from(done[k], t));
        }
        assert(chars_from(cur, s));
        if !is_ws(c) {
            assert(chars_from(cur.push(c), s)) by {
                assert forall|j: int| 0 <= j < cur.push(c).len() implies !is_ws(
                    #[trigger] cur.push(c)[j],
                ) && s.contains(cur.push(c)[j]) by {
                    if j < cur.len() {
                        assert(cur.push(c)[j] == cur[j]);
                    }
                }
            }
        }
    }
}

/// Every word is non-empty and made of non-whitespace characters of `s`.
pub proof fn lemma_words_shape(s: Seq<char>)
    ensures
        forall|k: int|
            0 <= k < words(s).len() ==> (#[trigger] words(s)[k]).len() > 0 && chars_from(
                words(s)[k],
                s,
            ),
{
    lemma_ws_fold_shape(s);
}

/// Non-empty words of characters of `s`, joined by single spaces, are tidy.
pub proof fn lemma_join_tidy(parts: Seq<Seq<char>>, s: Seq<char>)
    requires
        forall|k: int|
            0 <= k < parts.len() ==> (#[trigger] parts[k]).len() > 0 && chars_from(parts[k], s),
    ensures
        tidy(join(parts, seq![' ']), s),
        parts.len() > 0 ==> join(parts, seq![' ']).len() > 0,
    decreases parts.len(),
{
    if parts.len() == 1 {
        assert(parts[0].len() > 0 && chars_from(parts[0], s));
    } else if parts.len() > 1 {
        let pd = parts.drop_last();
        assert forall|k: int| 0 <= k < pd.len() implies (#[trigger] pd[k]).len() > 0 && chars_from(
            pd[k],
            s,
        ) by {
            assert(pd[k] == parts[k]);
        }
        lemma_join_tidy(pd, s);
        let j = join(pd, seq![' ']);
        let l = parts.last();
        assert(l == parts[parts.len() - 1]);
        assert(l.len() > 0 && chars_from(l, s));
        let t = join(parts, seq![' ']);
        assert(t == j + seq![' '] + l);
        assert forall|i: int| 0 <= i < t.len() implies (#[trigger] t[i]) == ' ' || (!is_ws(t[i])
            && s.contains(t[i])) by {
            if i < j.len() {
                assert(t[i] == j[i]);
            } else if i > j.len() {
                assert(t[i] == l[i - j.len() - 1]);
            }
        }
        assert(t[0] == j[0]);
        assert(t.last() == l.last());
        assert(l.last() == l[l.len() - 1]);
        assert(!is_ws(l[l.len() - 1]));
        assert forall|i: int| 0 <= i < t.len() - 1 implies !((#[trigger] t[i]) == ' ' && t[i + 1]
            == ' ') by {
            if i < j.len() - 1 {
                assert(t[i] == j[i] && t[i + 1] == j[i + 1]);
            } else if i == j.len() - 1 {
                assert(t[i] == j.last());
            } else if i == j.len() {
                assert(t[i + 1] == l[0]);
            } else {
                assert(t[i] == l[i - j.len() - 1]);
            }
        }
    }
}

/// Collapsed whitespace is tidy text of the characters of `s`.
pub proof fn lemma_collapse_tidy(s: Seq<char>)
    ensures
        tidy(collapse_ws(s), s),
{
    lemma_words_shape(s);
    lemma_join_tidy(words(s), s);
}

/// Reading a run of non-whitespace characters only extends the word in progress.
proof fn lemma_fold_word(a: Seq<char>, w: Seq<char>)
    requires
        forall|i: int| 0 <= i < w.len() ==> !is_ws(#[trigger] w[i]),
    ensures
        ws_fold(a + w) == (ws_fold(a).0, ws_fold(a).1 + w),
    decreases w.len(),
{
    if w.len() == 0 {
        assert(a + w == a);
        assert(ws_fold(a).1 + w == ws_fold(a).1);
    } else {
        let wd = w.drop_last();
        assert forall|i: int| 0 <= i < wd.len() implies !is_ws(#[trigger] wd[i]) by {
            assert(wd[i] == w[i]);
        }
        lemma_fold_word(a, wd);
        assert((a + w).drop_last() == a + wd);
        assert((a + w).last() == w.last());
        assert(!is_ws(w[w.len() - 1]));
        assert((ws_fold(a).1 + wd).push(w.last()) == ws_fold(a).1 + w);
    }
}

/// Splitting words joined by single spaces gives the words back.
pub proof fn lemma_words_of_join(parts: Seq<Seq<char>>, s: Seq<char>)
    requires
        forall|k: int|
            0 <= k < parts.len() ==> (#[trigger] parts[k]).len() > 0 && chars_from(parts[k], s),
    ensures
        words(join(parts, seq![' '])) == parts,
    decreases parts.len(),
{
    if parts.len() == 0 {
        assert(words(Seq::<char>::empty()) == Seq::<Seq<char>>::empty());
    } else if parts.len() == 1 {
        let w = parts[0];
        assert(chars_from(w, s));
        lemma_fold_word(Seq::empty(), w);
        assert(Seq::<char>::empty() + w == w);
        assert(Seq::<char>::empty() + w == w);
        assert(words(w) == seq![w]);
        assert(parts =~= seq![w]);
    } else {
        let pd = parts.drop_last();
        assert forall|k: int| 0 <= k < pd.len() implies (#[trigger] pd[k]).len() > 0 && chars_from(
            pd[k],
            s,
        ) by {
            assert(pd[k] == parts[k]);
        }
        lemma_words_of_join(pd, s);
        lemma_join_tidy(pd, s);
        let j = join(pd, seq![' ']);
        let l = parts.last();
        assert(l == parts[parts.len() - 1]);
        assert(chars_from(l, s));
        assert(j.len() > 0);
        assert(!is_ws(j.last()));
        let (dj, cj) = ws_fold(j);
        assert(cj.len() > 0);
        assert(words(j) == dj.push(cj));
        let js = j.push(' ');
        assert(js.drop_last() == j);
        assert(ws_fold(js) == (dj.push(cj), Seq::<char>::empty()));
        lemma_fold_word(js, l);
        assert(join(parts, seq![' ']) == js + l);
        assert(Seq::<char>::empty() + l == l);
        assert(words(join(parts, seq![' '])) == dj.push(cj).push(l));
        assert(parts =~= pd.push(l));
    }
}

/// Collapsing whitespace twice is collapsing it once.
pub proof fn lemma_collapse_idempotent(x: Seq<char>)
    ensures
        collapse_ws(collapse_ws(x)) == collapse_ws(x),
{
    lemma_words_shape(x);
    lemma_words_of_join(words(x), x);
}

/// Replacing a pattern whose first character does not occur changes nothing.
pub proof fn lemma_replace_absent(s: Seq<char>, p: Seq<char>, r: Seq<char>)
    requires
        p.len() > 0,
        !s.contains(p[0]),
    ensures
        replace_all(s, p, r) == s,
    decreases s.len(),
{
    if s.len() >= p.len() {
        assert(s.take(p.len() as int)[0] == s[0]);
        assert(s.take(p.len() as int) != p);
        let t = s.skip(1);
        assert(!t.contains(p[0])) by {
            if t.contains(p[0]) {
                let k = choose|k: int| 0 <= k < t.len() && t[k] == p[0];
                assert(s[k + 1] == p[0]);
            }
        }
        lemma_replace_absent(t, p, r);
        assert(seq![s[0]] + t == s);
    }
}

/// The views of a sequence of strings.
pub open spec fn views(v: Seq<String>) -> Seq<Seq<char>> {
    v.map_values(|x: String| x@)
}

// ---------------------------------------------------------------------------
// Substrings
// ---------------------------------------------------------------------------

/// `n` occurs in `h` at position `i`.
pub open spec fn occurs_at(h: Seq<char>, n: Seq<char>, i: int) -> bool {
    0 <= i && i + n.len() <= h.len() && h.subrange(i, i + n.len()) == n
}

/// `n` occurs somewhere in `h` (`str::contains`).
pub open spec fn has_sub(h: Seq<char>, n: Seq<char>) -> bool {
    exists|i: int| occurs_at(h, n, i)
}

/// `h` begins with `n` (`str::starts_with`).
pub open spec fn starts(h: Seq<char>, n: Seq<char>) -> bool {
    n.len() <= h.len() && h.take(n.len() as int) == n
}

/// Every non-overlapping occurrence of `p` in `s`, scanning left to right,
/// replaced by `r` (`str::replace` with a non-empty pattern).
pub open spec fn replace_all(s: Seq<char>, p: Seq<char>, r: Seq<char>) -> Seq<char>
    recommends
        p.len() > 0,
    decreases s.len(),
{
    if p.len() == 0 || s.len() < p.len() {
        s
    } else if s.take(p.len() as int) == p {
        r + replace_all(s.skip(p.len() as int), p, r)
    } else {
        seq![s[0]] + replace_all(s.skip(1), p, r)
    }
}

// ---------------------------------------------------------------------------
// Decimal numbers
// ---------------------------------------------------------------------------

/// The decimal digit for `d < 10`.
pub open spec fn digit_char(d: nat) -> char {
    if d == 0 {
        '0'
    } else if d == 1 {
        '1'
    } else if d == 2 {
        '2'
    } else if d == 3 {
        '3'
    } else if d == 4 {
        '4'
    } else if d == 5 {
        '5'
    } else if d == 6 {
        '6'
    } else if d == 7 {
        '7'
    } else if d == 8 {
        '8'
    } else {
        '9'
    }
}

/// The decimal notation of `n`, without leading zeros.
pub open spec fn digits(n: nat) -> Seq<char>
    decreases n,
{
    if n < 10 {
        seq![digit_char(n)]
    } else {
        digits(n / 10).push(digit_char(n % 10))
    }
}

/// The decimal notation of an integer, with a leading `-` when negative.
pub open spec fn int_text(n: int) -> Seq<char> {
    if n < 0 {
        seq!['-'] + digits((-n) as nat)
    } else {
        digits(n as nat)
    }
}

// ---------------------------------------------------------------------------
// Case mapping (Unicode tables live in std)
// ---------------------------------------------------------------------------

/// What `str::to_lowercase` returns for a string.
pub uninterp spec fn lowercase(s: Seq<char>) -> Seq<char>;

/// What `str::to_uppercase` returns for a string.
pub uninterp spec fn uppercase(s: Seq<char>) -> Seq<char>;

/// `str::to_lowercase`: the result is the named Unicode lower-case mapping of `s`.
#[verifier::external_body]
pub(crate) fn to_lowercase(s: &str) -> (r: String)
    ensures
        r@ == lowercase(s@),
{
    s.to_lowercase()
}

/// `str::to_uppercase`: the result is the named Unicode upper-case mapping of `s`.
#[verifier::external_body]
pub(crate) fn to_uppercase(s: &str) -> (r: String)
    ensures
        r@ == uppercase(s@),
{
    s.to_uppercase()
}

// ---------------------------------------------------------------------------
// Executable helpers
// ---------------------------------------------------------------------------

/// `String::push`: appends one character.
#[verifier::external_body]
pub(crate) fn push_char(s: &mut String, c: char)
    ensures
        final(s)@ == old(s)@.push(c),
{
    s.push(c);
}

/// Appends `t` to `s`.
pub fn push_str(s: &mut String, t: &str)
    ensures
        final(s)@ == old(s)@ + t@,
{
    let ghost start = s@;
    for c in it: t.chars()
        invariant
            it.seq() == t@,
            s@ == start + it.seq().take(it.index() as int),
    {
        proof {
            assert(it.seq().take(it.index() + 1) == it.seq().take(it.index() as int).push(c));
        }
        push_char(s, c);
    }
    proof {
        assert(t@.take(t@.len() as int) == t@);
    }
}

/// The characters of `s`, in order.
pub fn chars_of(s: &str) -> (r: Vec<char>)
    ensures
        r@ == s@,
{
    let mut out: Vec<char> = Vec::new();
    for c in it: s.chars()
        invariant
            out@ == it.seq().take(it.index() as int),
            it.seq() == s@,
    {
        proof {
            assert(it.seq().take(it.index() + 1) == it.seq().take(it.index() as int).push(c));
        }
        out.push(c);
    }
    proof {
        assert(s@.take(s@.len() as int) == s@);
    }
    out
}

/// A string holding `v[lo..hi]`.
pub fn string_of(v: &Vec<char>, lo: usize, hi: usize) -> (r: String)
    requires
        lo <= hi <= v.len(),
    ensures
        r@ == v@.subrange(lo as int, hi as int),
{
    let mut out = String::new();
    let mut i = lo;
    while i < hi
        invariant
            lo <= i <= hi <= v.len(),
            out@ == v@.subrange(lo as int, i as int),
        decreases hi - i,
    {
        proof {
            assert(v@.subrange(lo as int, i + 1) == v@.subrange(lo as int, i as int).push(v@[i as int]));
        }
        push_char(&mut out, v[i]);
        i = i + 1;
    }
    out
}

/// A string holding all of `v`.
pub fn string_from(v: &Vec<char>) -> (r: String)
    ensures
        r@ == v@,
{
    let r = string_of(v, 0, v.len());
    proof {
        assert(v@.subrange(0, v@.len() as int) == v@);
    }
    r
}

proof fn lemma_trim_start_skip(s: Seq<char>, i: int)
    requires
        0 <= i <= s.len(),
        forall|k: int| 0 <= k < i ==> is_ws(#[trigger] s[k]),
    ensures
        trim_start(s) == trim_start(s.skip(i)),
    decreases i,
{
    if i > 0 {
        assert(is_ws(s[0]));
        lemma_trim_start_skip(s.drop_first(), i - 1);
        assert(s.drop_first().skip(i - 1) == s.skip(i));
    } else {
        assert(s.skip(0) == s);
    }
}

proof fn lemma_trim_end_take(s: Seq<char>, j: int)
    requires
        0 <= j <= s.len(),
        forall|k: int| j <= k < s.len() ==> is_ws(#[trigger] s[k]),
    ensures
        trim_end(s) == trim_end(s.take(j)),
    decreases s.len() - j,
{
    if j < s.len() {
        assert(is_ws(s.last()));
        lemma_trim_end_take(s.drop_last(), j);
        assert(s.drop_last().take(j) == s.take(j));
    } else {
        assert(s.take(j) == s);
    }
}

proof fn lemma_trim_start_shape(s: Seq<char>)
    ensures
        trim_start(s).len() > 0 ==> !is_ws(trim_start(s)[0]),
    decreases s.len(),
{
    if s.len() > 0 && is_ws(s[0]) {
        lemma_trim_start_shape(s.drop_first());
    }
}

proof fn lemma_trim_end_shape(s: Seq<char>)
    ensures
        trim_end(s).len() <= s.len(),
        trim_end(s) == s.take(trim_end(s).len() as int),
        trim_end(s).len() > 0 ==> !is_ws(trim_end(s).last()),
    decreases s.len(),
{
    if s.len() > 0 && is_ws(s.last()) {
        lemma_trim_end_shape(s.drop_last());
        assert(s.drop_last().take(trim_end(s).len() as int) == s.take(trim_end(s).len() as int));
    } else {
        assert(s.take(s.len() as int) == s);
    }
}

/// Trimmed text is empty or has non-whitespace at both ends.
pub proof fn lemma_trim_shape(s: Seq<char>)
    ensures
        trim(s).len() > 0 ==> !is_ws(trim(s)[0]) && !is_ws(trim(s).last()),
{
    lemma_trim_start_shape(s);
    let a = trim_start(s);
    lemma_trim_end_shape(a);
    if trim(s).len() > 0 {
        assert(trim(s)[0] == a.take(trim(s).len() as int)[0]);
    }
}

/// Text with non-whitespace at both ends is its own trim.
pub proof fn lemma_trim_fixed(x: Seq<char>)
    requires
        x.len() > 0,
        !is_ws(x[0]),
        !is_ws(x.last()),
    ensures
        trim(x) == x,
{
}

/// The bounds `(lo, hi)` of `s` without its surrounding whitespace.
pub fn trim_bounds(v: &Vec<char>) -> (r: (usize, usize))
    ensures
        r.0 <= r.1 <= v.len(),
        v@.subrange(r.0 as int, r.1 as int) == trim(v@),
{
    let n = v.len();
    let mut i: usize = 0;
    while i < n && is_whitespace(v[i])
        invariant
            i <= n == v.len(),
            forall|k: int| 0 <= k < i ==> is_ws(#[trigger] v@[k]),
        decreases n - i,
    {
        i = i + 1;
    }
    proof {
        lemma_trim_start_skip(v@, i as int);
        let t = v@.skip(i as int);
        if t.len() > 0 {
            assert(!is_ws(t[0]));
        }
        assert(trim_start(t) == t);
    }
    let mut j: usize = n;
    while j > i && is_whitespace(v[j - 1])
        invariant
            i <= j <= n == v.len(),
            forall|k: int| j <= k < n ==> is_ws(#[trigger] v@[k]),
        decreases j,
    {
        j = j - 1;
    }
    proof {
        let t = v@.skip(i as int);
        assert forall|k: int| j - i <= k < t.len() implies is_ws(#[trigger] t[k]) by {
            assert(t[k] == v@[k + i]);
        }
        lemma_trim_end_take(t, j - i);
        let u = t.take(j - i);
        assert(u == v@.subrange(i as int, j as int));
        if u.len() > 0 {
            assert(u.last() == v@[j - 1]);
        }
        assert(trim_end(u) == u);
    }
    (i, j)
}

/// `str::trim`, as a new string.
pub fn trim_str(s: &str) -> (r: String)
    ensures
        r@ == trim(s@),
{
    let v = chars_of(s);
    let (lo, hi) = trim_bounds(&v);
    string_of(&v, lo, hi)
}

/// Whether `s` is empty or only whitespace.
pub fn is_blank(s: &str) -> (r: bool)
    ensures
        r == (trim(s@).len() == 0),
{
    let v = chars_of(s);
    let (lo, hi) = trim_bounds(&v);
    lo == hi
}

proof fn lemma_push_views(v: Seq<String>, x: String)
    ensures
        views(v.push(x)) == views(v).push(x@),
{
    assert(views(v.push(x)) =~= views(v).push(x@));
}

/// `str::split_whitespace`, collected.
pub fn split_whitespace(s: &str) -> (r: Vec<String>)
    ensures
        views(r@) == words(s@),
        forall|k: int| 0 <= k < r@.len() ==> (#[trigger] r@[k])@.len() > 0,
{
    let mut done: Vec<String> = Vec::new();
    let mut cur = String::new();
    for c in it: s.chars()
        invariant
            it.seq() == s@,
            (views(done@), cur@) == ws_fold(s@.take(it.index() as int)),
            forall|k: int| 0 <= k < done@.len() ==> (#[trigger] done@[k])@.len() > 0,
    {
        let ghost pre = s@.take(it.index() as int);
        proof {
            assert(s@.take(it.index() + 1).drop_last() == pre);
            assert(s@.take(it.index() + 1).last() == c);
        }
        if is_whitespace(c) {
            if !cur.as_str().is_empty() {
                proof {
                    lemma_push_views(done@, cur);
                }
                done.push(cur);
                cur = String::new();
            }
        } else {
            push_char(&mut cur, c);
        }
    }
    proof {
        assert(s@.take(s@.len() as int) == s@);
    }
    if !cur.as_str().is_empty() {
        proof {
            lemma_push_views(done@, cur);
        }
        done.push(cur);
    }
    done
}

/// The strings of `parts` with `sep` between neighbours.
pub fn join_strs(parts: &Vec<String>, sep: &str) -> (r: String)
    ensures
        r@ == join(views(parts@), sep@),
{
    let mut out = String::new();
    let n = parts.len();
    let mut i: usize = 0;
    while i < n
        invariant
            i <= n == parts.len(),
            out@ == join(views(parts@).take(i as int), sep@),
        decreases n - i,
    {
        let ghost vs = views(parts@);
        proof {
            assert(vs.take(i + 1).drop_last() == vs.take(i as int));
            assert(vs.take(i + 1).last() == parts@[i as int]@);
        }
        if i > 0 {
            push_str(&mut out, sep);
        } else {
            assert(vs.take(1).len() == 1);
        }
        push_str(&mut out, parts[i].as_str());
        i = i + 1;
    }
    proof {
        assert(views(parts@).take(n as int) == views(parts@));
    }
    out
}

/// The words of `s` joined by single spaces.
pub fn collapse_whitespace(s: &str) -> (r: String)
    ensures
        r@ == collapse_ws(s@),
{
    let ws = split_whitespace(s);
    let r = join_strs(&ws, " ");
    proof {
        reveal_strlit(" ");
        assert(" "@ == seq![' ']);
    }
    r
}

/// Whether `n` occurs in `h` at `i`.
pub fn matches_at(h: &Vec<char>, n: &Vec<char>, i: usize) -> (r: bool)
    requires
        i + n.len() <= h.len(),
    ensures
        r == occurs_at(h@, n@, i as int),
{
    let mut k: usize = 0;
    while k < n.len()
        invariant
            i + n.len() <= h.len(),
            k <= n.len(),
            forall|j: int| 0 <= j < k ==> h@[i + j] == n@[j],
        decreases n.len() - k,
    {
        if h[i + k] != n[k] {
            proof {
                assert(h@.subrange(i as int, i + n.len())[k as int] != n@[k as int]);
            }
            return false;
        }
        k = k + 1;
    }
    proof {
        assert(h@.subrange(i as int, i + n.len()) =~= n@);
    }
    true
}

/// Whether `n` occurs in `h`.
pub fn contains_chars(h: &Vec<char>, n: &Vec<char>) -> (r: bool)
    ensures
        r == has_sub(h@, n@),
{
    if n.len() > h.len() {
        return false;
    }
    let last = h.len() - n.len();
    let mut i: usize = 0;
    loop
        invariant
            i <= last,
            last + n.len() == h.len(),
            forall|j: int| 0 <= j < i ==> !occurs_at(h@, n@, j),
        ensures
            forall|j: int| 0 <= j <= last ==> !occurs_at(h@, n@, j),
        decreases last - i,
    {
        if matches_at(h, n, i) {
            return true;
        }
        if i == last {
            break;
        }
        i = i + 1;
    }
    proof {
        assert forall|j: int| !occurs_at(h@, n@, j) by {
            if 0 <= j <= last {
            }
        }
    }
    false
}

/// `str::contains` with a string pattern.
pub fn str_contains(h: &str, n: &str) -> (r: bool)
    ensures
        r == has_sub(h@, n@),
{
    let hv = chars_of(h);
    let nv = chars_of(n);
    contains_chars(&hv, &nv)
}

/// `str::contains` with a character pattern.
pub fn contains_char(h: &str, c: char) -> (r: bool)
    ensures
        r == h@.contains(c),
{
    for x in it: h.chars()
        invariant
            it.seq() == h@,
            forall|j: int| 0 <= j < it.index() ==> h@[j] != c,
    {
        if x == c {
            return true;
        }
    }
    false
}

/// `str::starts_with` with a string pattern.
pub fn str_starts_with(h: &str, n: &str) -> (r: bool)
    ensures
        r == starts(h@, n@),
{
    let hv = chars_of(h);
    let nv = chars_of(n);
    if nv.len() > hv.len() {
        return false;
    }
    let r = matches_at(&hv, &nv, 0);
    proof {
        assert(hv@.subrange(0, nv@.len() as int) == hv@.take(nv@.len() as int));
    }
    r
}

/// Whether two strings hold the same characters.
pub fn str_eq(a: &str, b: &str) -> (r: bool)
    ensures
        r == (a@ == b@),
{
    let av = chars_of(a);
    let bv = chars_of(b);
    if av.len() != bv.len() {
        return false;
    }
    let r = matches_at(&av, &bv, 0);
    proof {
        assert(av@.subrange(0, bv@.len() as int) == av@);
    }
    r
}

/// `str::replace` with a non-empty pattern.
pub fn replace_chars(s: &Vec<char>, p: &Vec<char>, r: &Vec<char>) -> (out: Vec<char>)
    requires
        p.len() > 0,
    ensures
        out@ == replace_all(s@, p@, r@),
{
    let mut out: Vec<char> = Vec::new();
    let mut i: usize = 0;
    let n = s.len();
    proof {
        assert(s@.skip(0) == s@);
        assert(out@ + replace_all(s@, p@, r@) == replace_all(s@, p@, r@));
    }
    while i < n
        invariant
            i <= n == s.len(),
            p.len() > 0,
            out@ + replace_all(s@.skip(i as int), p@, r@) == replace_all(s@, p@, r@),
        decreases n - i,
    {
        let ghost rest = s@.skip(i as int);
        if p.len() <= n - i && matches_at(s, p, i) {
            proof {
                assert(rest.take(p@.len() as int) == s@.subrange(i as int, i + p@.len()));
                assert(rest.skip(p@.len() as int) == s@.skip(i + p@.len()));
            }
            let mut k: usize = 0;
            let ghost before = out@;
            while k < r.len()
                invariant
                    k <= r.len(),
                    out@ == before + r@.take(k as int),
                decreases r.len() - k,
            {
                proof {
                    assert(r@.take(k + 1) == r@.take(k as int).push(r@[k as int]));
                }
                out.push(r[k]);
                k = k + 1;
            }
            proof {
                assert(r@.take(r@.len() as int) == r@);
                assert(out@ + replace_all(s@.skip(i + p@.len()), p@, r@) == before + (r@
                    + replace_all(s@.skip(i + p@.len()), p@, r@)));
            }
            i = i + p.len();
        } else {
            proof {
                if p@.len() <= rest.len() {
                    assert(rest.take(p@.len() as int) == s@.subrange(i as int, i + p@.len()));
                }
                assert(rest.skip(1) == s@.skip(i + 1));
                assert(rest[0] == s@[i as int]);
                assert(out@.push(s@[i as int]) + replace_all(s@.skip(i + 1), p@, r@) == out@ + (
                seq![s@[i as int]] + replace_all(s@.skip(i + 1), p@, r@)));
            }
            out.push(s[i]);
            i = i + 1;
        }
    }
    proof {
        assert(s@.skip(n as int).len() == 0);
        assert(out@ + Seq::<char>::empty() == out@);
    }
    out
}

/// The decimal digit character for `d < 10`.
pub fn digit(d: u64) -> (c: char)
    requires
        d < 10,
    ensures
        c == digit_char(d as nat),
{
    match d {
        0 => '0',
        1 => '1',
        2 => '2',
        3 => '3',
        4 => '4',
        5 => '5',
        6 => '6',
        7 => '7',
        8 => '8',
        _ => '9',
    }
}

/// The decimal notation of `n`.
pub fn u64_digits(n: u64) -> (r: Vec<char>)
    ensures
        r@ == digits(n as nat),
    decreases n,
{
    if n < 10 {
        let mut v = Vec::new();
        v.push(digit(n));
        v
    } else {
        let mut v = u64_digits(n / 10);
        v.push(digit(n % 10));
        v
    }
}

/// The decimal notation of `n` (`i64::to_string`).
pub fn i64_text(n: i64) -> (r: String)
    ensures
        r@ == int_text(n as int),
{
    if n < 0 {
        let m: u64 = ((-(n + 1)) as u64) + 1;
        let d = u64_digits(m);
        let mut out = String::new();
        push_char(&mut out, '-');
        let tail = string_from(&d);
        push_str(&mut out, tail.as_str());
        out
    } else {
        let d = u64_digits(n as u64);
        string_from(&d)
    }
}

/// The decimal notation of `n` (`u64::to_string`).
pub fn u64_text(n: u64) -> (r: String)
    ensures
        r@ == digits(n as nat),
{
    let d = u64_digits(n);
    string_from(&d)
}

/// An owned copy of `s`.
pub fn owned(s: &str) -> (r: String)
    ensures
        r@ == s@,
{
    s.to_owned()
}

/// `String::pop`: removes and returns the last character, if any.
#[verifier::external_body]
pub(crate) fn pop_char(s: &mut String) -> (r: Option<char>)
    ensures
        old(s)@.len() > 0 ==> r == Some(old(s)@.last()) && final(s)@ == old(s)@.drop_last(),
        old(s)@.len() == 0 ==> r is None && final(s)@ == old(s)@,
{
    s.pop()
}

} // verus!

//! What the story store asks its database: the story query for a view of
//! the list, and the counts read back from it.
use vstd::prelude::*;
use crate::html::opt_str_view;
use crate::text::{owned, push_str, trim, trim_str};

verus! {

/// A value bound to a `?` of a query.
#[derive(Debug, Clone, PartialEq, Eq)]
pub enum SqlArg {
    Int(i64),
    Text(String),
}

/// A bound value as a plain value.
pub enum ArgValue {
    Int(i64),
    Text(Seq<char>),
}

/// The plain value of a bound value.
pub open spec fn arg_value(a: SqlArg) -> ArgValue {
    match a {
        SqlArg::Int(i) => ArgValue::Int(i),
        SqlArg::Text(t) => ArgValue::Text(t@),
    }
}

/// The plain values of a run of bound values.
pub open spec fn arg_values(v: Seq<SqlArg>) -> Seq<ArgValue> {
    v.map_values(|a: SqlArg| arg_value(a))
}

/// A query with its bound values, in the order of its `?`s.
pub struct StoryQuery {
    pub sql: String,
    pub args: Vec<SqlArg>,
}

/// The start of every story query.
pub open spec fn select_stories() -> Seq<char> {
    "SELECT a.id, f.title, a.title, a.url, a.published, a.summary, a.content, a.is_read FROM articles a JOIN feeds f ON f.id = a.feed_id WHERE 1=1"@
}

/// The end of every story query: newest first, at most 500 stories.
pub open spec fn order_stories() -> Seq<char> {
    " ORDER BY COALESCE(a.published, 0) DESC, a.id DESC LIMIT 500"@
}

/// The search text used, if any: the trimmed query when it is not empty.
pub open spec fn search_term(query: Option<Seq<char>>) -> Option<Seq<char>> {
    match query {
        Some(q) => if trim(q).len() > 0 {
            Some(trim(q))
        } else {
            None
        },
        None => None,
    }
}

/// The story query's text: one feed's stories when `feed_id` is given,
/// those whose title contains the search term when there is one,
/// only the unread ones when asked.
pub open spec fn story_sql(feed_id: Option<i64>, query: Option<Seq<char>>, unread_only: bool) -> Seq<
    char,
> {
    let a = if feed_id is Some {
        select_stories() + " AND a.feed_id = ?"@
    } else {
        select_stories()
    };
    let b = if search_term(query) is Some {
        a + " AND a.title LIKE ?"@
    } else {
        a
    };
    let c = if unread_only {
        b + " AND a.is_read = 0"@
    } else {
        b
    };
    c + order_stories()
}

/// The story query's bound values: the feed id, then the search term
/// wrapped in `%`, matched against the title.
pub open spec fn story_args(feed_id: Option<i64>, query: Option<Seq<char>>) -> Seq<ArgValue> {
    let a = match feed_id {
        Some(id) => seq![ArgValue::Int(id)],
        None => Seq::empty(),
    };
    match search_term(query) {
        Some(q) => {
            let pat = "%"@ + q + "%"@;
            a.push(ArgValue::Text(pat))
        },
        None => a,
    }
}

/// The query for the stories of a view of the list.
pub fn story_query(feed_id: Option<i64>, query: Option<&str>, unread_only: bool) -> (r: StoryQuery)
    ensures
        r.sql@ == story_sql(feed_id, opt_str_view(query), unread_only),
        arg_values(r.args@) == story_args(feed_id, opt_str_view(query)),
{
    let mut sql = owned(
        "SELECT a.id, f.title, a.title, a.url, a.published, a.summary, a.content, a.is_read FROM articles a JOIN feeds f ON f.id = a.feed_id WHERE 1=1",
    );
    let mut args: Vec<SqlArg> = Vec::new();
    if let Some(id) = feed_id {
        push_str(&mut sql, " AND a.feed_id = ?");
        args.push(SqlArg::Int(id));
    }
    let ghost a_args = arg_values(args@);
    let term = match query {
        Some(q) => {
            let t = trim_str(q);
            if t.as_str().is_empty() {
                None
            } else {
                Some(t)
            }
        },
        None => None,
    };
    if let Some(q) = term {
        push_str(&mut sql, " AND a.title LIKE ?");
        let mut pat = owned("%");
        push_str(&mut pat, q.as_str());
        push_str(&mut pat, "%");
        let ghost p = pat@;
        args.push(SqlArg::Text(pat));
        proof {
            assert(arg_values(args@) =~= a_args.push(ArgValue::Text(p)));
        }
    }
    if unread_only {
        push_str(&mut sql, " AND a.is_read = 0");
    }
    push_str(&mut sql, " ORDER BY COALESCE(a.published, 0) DESC, a.id DESC LIMIT 500");
    proof {
        if feed_id is None {
            assert(a_args =~= Seq::<ArgValue>::empty());
        } else {
            assert(a_args =~= seq![ArgValue::Int(feed_id->0)]);
        }
    }
    StoryQuery { sql, args }
}

/// How many stories an update inserted, from the feed's story counts before
/// and after it (`i64::saturating_sub`, taken as a `u64`).
pub open spec fn inserted(before: i64, after: i64) -> u64 {
    let d = after - before;
    let s = if d > i64::MAX {
        i64::MAX as int
    } else if d < i64::MIN {
        i64::MIN as int
    } else {
        d
    };
    s as u64
}

/// The stories an update inserted.
pub fn new_rows(before: i64, after: i64) -> (r: u64)
    ensures
        r == inserted(before, after),
{
    let d: i128 = after as i128 - before as i128;
    let s: i64 = if d > i64::MAX as i128 {
        i64::MAX
    } else if d < i64::MIN as i128 {
        i64::MIN
    } else {
        d as i64
    };
    #[verifier::truncate]
    (s as u64)
}

/// The unread count recorded for `id` in rows of (feed id, count), the
/// later row winning; 0 when there is none.
pub open spec fn unread_in(rows: Seq<(i64, i64)>, id: i64) -> i64
    decreases rows.len(),
{
    if rows.len() == 0 {
        0
    } else if rows.last().0 == id {
        rows.last().1
    } else {
        unread_in(rows.drop_last(), id)
    }
}

/// The unread count of feed `id` among counted rows.
pub fn unread_for(rows: &[(i64, i64)], id: i64) -> (r: i64)
    ensures
        r == unread_in(rows@, id),
{
    let mut i = rows.len();
    proof {
        assert(rows@.take(i as int) == rows@);
    }
    while i > 0
        invariant
            i <= rows@.len(),
            forall|k: int| i <= k < rows@.len() ==> (#[trigger] rows@[k]).0 != id,
            unread_in(rows@, id) == unread_in(rows@.take(i as int), id),
        decreases i,
    {
        proof {
            assert(rows@.take(i as int).drop_last() == rows@.take(i - 1));
            assert(rows@.take(i as int).last() == rows@[i - 1]);
        }
        if rows[i - 1].0 == id {
            return rows[i - 1].1;
        }
        i = i - 1;
    }
    proof {
        assert(rows@.take(0) == Seq::<(i64, i64)>::empty());
    }
    0
}

} // verus!

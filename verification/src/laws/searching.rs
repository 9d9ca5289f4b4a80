//! What holds of searching messages.
use vstd::prelude::*;
use crate::ffi::{doubled_quotes, quoted_phrase};
use crate::search::{
    any_word, escape_fts5_query, escape_like_pattern, escaped_like, fts_conditions, fts_order,
    is_search, like_conditions, like_order, scoped, search_fts, search_fts_full,
    search_fts_full_with_sessions, search_fts_internal, search_fts_with_options,
    search_fts_with_project, search_like_fallback, session_patterns, within_sessions, without_ids,
    FTS_SELECT, LIKE_SELECT, SearchRequest,
};
use crate::sql::{placeholders, value_views, ConditionsView, SqlView, Statement};
use crate::text::{decimal, is_word, joined, words};
use crate::types::SearchOrderBy;

verus! {

/// Whether the part stands somewhere in the text.
pub open spec fn says(text: Seq<char>, part: Seq<char>) -> bool {
    exists|before: Seq<char>, after: Seq<char>| (#[trigger] (before + part + after))
        == text
}

/// Whether a statement holds the words with the place of a value behind them, and that value is
/// bound to the place.
pub open spec fn asks(s: Statement, what: Seq<char>, value: SqlView) -> bool {
    exists|k: int|
        0 <= k < s.params@.len() && (#[trigger] s.params@[k])@ == value && says(
            s.sql@,
            what + "?"@ + decimal((k + 1) as nat),
        )
}

/// Whether one of the conditions holds the words with the place of a value behind them, and that
/// value is bound to the place.
spec fn demands(c: ConditionsView, what: Seq<char>, value: SqlView) -> bool {
    exists|j: int, k: int|
        0 <= j < c.clauses.len() && 0 <= k < c.params.len() && #[trigger] c.params[k] == value
            && says(#[trigger] c.clauses[j], what + "?"@ + decimal((k + 1) as nat))
}

proof fn lemma_says(before: Seq<char>, part: Seq<char>, after: Seq<char>)
    ensures
        says(before + part + after, part),
{
    let text = before + part + after;
    assert(text == (before + part) + after);
}

proof fn lemma_says_itself(part: Seq<char>)
    ensures
        says(part, part),
{
    lemma_says(Seq::empty(), part, Seq::empty());
    assert(Seq::<char>::empty() + part + Seq::<char>::empty() =~= part);
}

proof fn lemma_says_part_of_part(text: Seq<char>, part: Seq<char>, inner: Seq<char>)
    requires
        says(text, part),
        says(part, inner),
    ensures
        says(text, inner),
{
    let (a, b) = choose|a: Seq<char>, b: Seq<char>|
        (#[trigger] (a + part + b)) == text;
    let (c, d) = choose|c: Seq<char>, d: Seq<char>|
        (#[trigger] (c + inner + d)) == part;
    lemma_says(a + c, inner, d + b);
    assert(text =~= (a + c) + inner + (d + b));
}

proof fn lemma_joined_says(parts: Seq<Seq<char>>, sep: Seq<char>, i: int)
    requires
        0 <= i < parts.len(),
    ensures
        says(joined(parts, sep), parts[i]),
    decreases parts.len(),
{
    let text = joined(parts, sep);
    if parts.len() == 1 {
        lemma_says_itself(parts[0]);
    } else if i == parts.len() - 1 {
        let front = joined(parts.drop_last(), sep) + sep;
        lemma_says(front, parts[i], Seq::empty());
        assert(front + parts[i] + Seq::<char>::empty() =~= text);
    } else {
        let p = parts.drop_last();
        lemma_joined_says(p, sep, i);
        lemma_says(Seq::empty(), joined(p, sep), sep + parts.last());
        assert(Seq::<char>::empty() + joined(p, sep) + (sep + parts.last()) =~= text);
        lemma_says_part_of_part(text, joined(p, sep), p[i]);
    }
}

proof fn lemma_demand_kept(c: ConditionsView, d: ConditionsView, what: Seq<char>, value: SqlView)
    requires
        demands(c, what, value),
        c.clauses.len() <= d.clauses.len(),
        c.params.len() <= d.params.len(),
        forall|j: int| 0 <= j < c.clauses.len() ==> #[trigger] d.clauses[j] == c.clauses[j],
        forall|k: int| 0 <= k < c.params.len() ==> #[trigger] d.params[k] == c.params[k],
    ensures
        demands(d, what, value),
{
    let (j, k) = choose|j: int, k: int|
        0 <= j < c.clauses.len() && 0 <= k < c.params.len() && #[trigger] c.params[k] == value
            && says(#[trigger] c.clauses[j], what + "?"@ + decimal((k + 1) as nat));
    assert(d.params[k] == value);
    assert(says(d.clauses[j], what + "?"@ + decimal((k + 1) as nat)));
}

proof fn lemma_number_demanded(c: ConditionsView, what: Seq<char>, n: i64)
    ensures
        demands(c.and_number(what, Some(n)), what, SqlView::Integer(n)),
{
    let d = c.and_number(what, Some(n));
    let j = c.clauses.len() as int;
    let k = c.params.len() as int;
    let words = what + "?"@ + decimal((k + 1) as nat);
    assert(d.params[k] == SqlView::Integer(n));
    assert(d.clauses[j] =~= words);
    lemma_says_itself(words);
}

proof fn lemma_list_demanded(
    c: ConditionsView,
    open: Seq<char>,
    before: Seq<char>,
    after: Seq<char>,
    sep: Seq<char>,
    close: Seq<char>,
    values: Seq<SqlView>,
    i: int,
)
    requires
        0 <= i < values.len(),
    ensures
        demands(c.and_list(open, before, after, sep, close, values), before, values[i]),
{
    let d = c.and_list(open, before, after, sep, close, values);
    let j = c.clauses.len() as int;
    let k = c.params.len() + i;
    let places = placeholders(c.params.len() + 1, values.len(), before, after);
    let words = before + "?"@ + decimal((k + 1) as nat);
    assert(d.params[k] == values[i]);
    assert(places[i] =~= Seq::<char>::empty() + words + after);
    lemma_says(Seq::empty(), words, after);
    lemma_joined_says(places, sep, i);
    lemma_says(open, joined(places, sep), close);
    lemma_says_part_of_part(d.clauses[j], joined(places, sep), places[i]);
    lemma_says_part_of_part(d.clauses[j], places[i], words);
}

proof fn lemma_scope_demanded(c: ConditionsView, req: SearchRequest)
    ensures
        req.project_id is Some ==> demands(
            scoped(c, req),
            "s.project_id = "@,
            SqlView::Integer(req.project_id->0),
        ),
        req.start_timestamp is Some ==> demands(
            scoped(c, req),
            "m.timestamp >= "@,
            SqlView::Integer(req.start_timestamp->0),
        ),
        req.end_timestamp is Some ==> demands(
            scoped(c, req),
            "m.timestamp <= "@,
            SqlView::Integer(req.end_timestamp->0),
        ),
        scoped(c, req).clauses.len() >= c.clauses.len(),
        forall|j: int|
            0 <= j < c.clauses.len() ==> #[trigger] scoped(c, req).clauses[j] == c.clauses[j],
        forall|k: int|
            0 <= k < c.params.len() ==> #[trigger] scoped(c, req).params[k] == c.params[k],
        scoped(c, req).params.len() == c.params.len() + (if req.project_id is Some {
            1int
        } else {
            0
        }) + (if req.start_timestamp is Some {
            1int
        } else {
            0
        }) + (if req.end_timestamp is Some {
            1int
        } else {
            0
        }),
{
    let c1 = c.and_number("s.project_id = "@, req.project_id);
    let c2 = c1.and_number("m.timestamp >= "@, req.start_timestamp);
    let c3 = c2.and_number("m.timestamp <= "@, req.end_timestamp);
    if req.project_id is Some {
        lemma_number_demanded(c, "s.project_id = "@, req.project_id->0);
        lemma_demand_kept(c1, c3, "s.project_id = "@, SqlView::Integer(req.project_id->0));
    }
    if req.start_timestamp is Some {
        lemma_number_demanded(c1, "m.timestamp >= "@, req.start_timestamp->0);
        lemma_demand_kept(c2, c3, "m.timestamp >= "@, SqlView::Integer(req.start_timestamp->0));
    }
    if req.end_timestamp is Some {
        lemma_number_demanded(c2, "m.timestamp <= "@, req.end_timestamp->0);
    }
}

proof fn lemma_search_asks(
    s: Statement,
    select: Seq<char>,
    c: ConditionsView,
    order: Seq<char>,
    limit: usize,
    what: Seq<char>,
    value: SqlView,
)
    requires
        is_search(s, select, c, order, limit),
        demands(c, what, value),
    ensures
        asks(s, what, value),
{
    let (j, k) = choose|j: int, k: int|
        0 <= j < c.clauses.len() && 0 <= k < c.params.len() && #[trigger] c.params[k] == value
            && says(#[trigger] c.clauses[j], what + "?"@ + decimal((k + 1) as nat));
    let all = joined(c.clauses, " AND "@);
    let rest = "\n            "@ + order + "\n            LIMIT "@ + crate::sql::placeholder(
        c.params.len() + 1,
    ) + "\n            "@;
    assert(s.sql@ =~= select + all + rest);
    lemma_says(select, all, rest);
    lemma_joined_says(c.clauses, " AND "@, j);
    lemma_says_part_of_part(s.sql@, all, c.clauses[j]);
    lemma_says_part_of_part(s.sql@, c.clauses[j], what + "?"@ + decimal((k + 1) as nat));
    assert(value_views(s.params@).len() == s.params@.len());
    assert(value_views(s.params@)[k] == c.params.push(SqlView::Integer(limit as i64))[k]);
    assert(s.params@[k]@ == value);
}

proof fn lemma_search_ends(
    s: Statement,
    select: Seq<char>,
    c: ConditionsView,
    order: Seq<char>,
    limit: usize,
)
    requires
        is_search(s, select, c, order, limit),
    ensures
        says(s.sql@, "\n            "@ + order + "\n            LIMIT "@),
        asks(s, "LIMIT "@, SqlView::Integer(limit as i64)),
        s.params@.len() == c.params.len() + 1,
{
    let n = c.params.len();
    let all = joined(c.clauses, " AND "@);
    let end = "\n            "@ + order + "\n            LIMIT "@;
    let tail = "?"@ + decimal(n + 1) + "\n            "@;
    lemma_says(select + all, end, tail);
    assert(s.sql@ =~= (select + all) + end + tail);
    assert(value_views(s.params@).len() == s.params@.len());
    assert(value_views(s.params@)[n as int] == SqlView::Integer(limit as i64));
    reveal_strlit("\n            LIMIT ");
    reveal_strlit("LIMIT ");
    let gap = "\n            LIMIT "@.take(13);
    assert("\n            LIMIT "@ =~= gap + "LIMIT "@);
    let words = "LIMIT "@ + "?"@ + decimal(n + 1);
    lemma_says(select + all + "\n            "@ + order + gap, words, "\n            "@);
    assert(s.sql@ =~= (select + all + "\n            "@ + order + gap) + words
        + "\n            "@);
    assert(s.params@[n as int]@ == SqlView::Integer(limit as i64));
}

/// How many conditions on project and time a search has.
pub open spec fn conditions_given(req: SearchRequest) -> int {
    (if req.project_id is Some {
        1int
    } else {
        0
    }) + (if req.start_timestamp is Some {
        1int
    } else {
        0
    }) + (if req.end_timestamp is Some {
        1int
    } else {
        0
    })
}

/// The order that a search by full text asks for is the one of the request: the newest messages
/// first, the oldest first, or the best first; and it stands right before the limit, so the messages
/// that are left out are those that come last.
pub proof fn full_text_search_is_ordered(s: Statement, req: SearchRequest)
    requires
        is_search(s, FTS_SELECT@, fts_conditions(req), fts_order(req.order_by), req.limit),
    ensures
        req.order_by == SearchOrderBy::TimeDesc ==> says(
            s.sql@,
            "\n            "@ + "ORDER BY m.timestamp DESC"@ + "\n            LIMIT "@,
        ),
        req.order_by == SearchOrderBy::TimeAsc ==> says(
            s.sql@,
            "\n            "@ + "ORDER BY m.timestamp ASC"@ + "\n            LIMIT "@,
        ),
        req.order_by == SearchOrderBy::Score ==> says(
            s.sql@,
            "\n            "@ + "ORDER BY score"@ + "\n            LIMIT "@,
        ),
        asks(s, "LIMIT "@, SqlView::Integer(req.limit as i64)),
{
    lemma_search_ends(s, FTS_SELECT@, fts_conditions(req), fts_order(req.order_by), req.limit);
}

/// The order that a search by substring asks for is that of time, the newest messages first unless
/// the oldest are asked for; and it stands right before the limit.
pub proof fn substring_search_is_ordered(
    s: Statement,
    req: SearchRequest,
    limit: usize,
    known: Seq<i64>,
)
    requires
        is_search(s, LIKE_SELECT@, like_conditions(req, known), like_order(req.order_by), limit),
    ensures
        req.order_by == SearchOrderBy::TimeAsc ==> says(
            s.sql@,
            "\n            "@ + "ORDER BY m.timestamp ASC"@ + "\n            LIMIT "@,
        ),
        req.order_by != SearchOrderBy::TimeAsc ==> says(
            s.sql@,
            "\n            "@ + "ORDER BY m.timestamp DESC"@ + "\n            LIMIT "@,
        ),
        asks(s, "LIMIT "@, SqlView::Integer(limit as i64)),
{
    lemma_search_ends(
        s,
        LIKE_SELECT@,
        like_conditions(req, known),
        like_order(req.order_by),
        limit,
    );
}

/// A search by full text asks for the words of the query, for the project, for messages that are no
/// older than the start and no younger than the end, and for sessions whose ids begin as given; for
/// each as far as it is given, and for nothing else.
pub proof fn full_text_search_is_scoped(s: Statement, req: SearchRequest)
    requires
        is_search(s, FTS_SELECT@, fts_conditions(req), fts_order(req.order_by), req.limit),
    ensures
        s.params@.len() == 2 + conditions_given(req) + req.session_ids@.len(),
        asks(s, "messages_fts MATCH "@, SqlView::Text(any_word(req.query@))),
        req.project_id is Some ==> asks(
            s,
            "s.project_id = "@,
            SqlView::Integer(req.project_id->0),
        ),
        req.start_timestamp is Some ==> asks(
            s,
            "m.timestamp >= "@,
            SqlView::Integer(req.start_timestamp->0),
        ),
        req.end_timestamp is Some ==> asks(
            s,
            "m.timestamp <= "@,
            SqlView::Integer(req.end_timestamp->0),
        ),
        forall|i: int|
            0 <= i < req.session_ids@.len() ==> asks(
                s,
                "m.session_id LIKE "@,
                SqlView::Text(escaped_like((#[trigger] req.session_ids@[i])@) + "%"@),
            ),
{
    let c0 = ConditionsView {
        clauses: seq!["messages_fts MATCH ?1"@],
        params: seq![SqlView::Text(any_word(req.query@))],
    };
    reveal_strlit("messages_fts MATCH ?1");
    reveal_strlit("messages_fts MATCH ");
    reveal_strlit("?");
    let first = "messages_fts MATCH "@ + "?"@ + decimal(1);
    assert(decimal(1) =~= seq!['1']);
    assert(c0.clauses[0] =~= first);
    lemma_says_itself(first);
    assert(c0.params[0] == SqlView::Text(any_word(req.query@)));
    assert(demands(c0, "messages_fts MATCH "@, SqlView::Text(any_word(req.query@))));
    let c1 = scoped(c0, req);
    lemma_scope_demanded(c0, req);
    lemma_conditions_asked(
        s,
        FTS_SELECT@,
        c0,
        c1,
        c1,
        req,
        fts_order(req.order_by),
        req.limit,
        "messages_fts MATCH "@,
        SqlView::Text(any_word(req.query@)),
    );
}

/// The conditions of a search that has grown out of simpler ones are all asked for.
proof fn lemma_conditions_asked(
    s: Statement,
    select: Seq<char>,
    c0: ConditionsView,
    c1: ConditionsView,
    c2: ConditionsView,
    req: SearchRequest,
    order: Seq<char>,
    limit: usize,
    what: Seq<char>,
    value: SqlView,
)
    requires
        c1 == scoped(c0, req),
        c2.clauses.len() >= c1.clauses.len(),
        c2.params.len() >= c1.params.len(),
        forall|j: int| 0 <= j < c1.clauses.len() ==> #[trigger] c2.clauses[j] == c1.clauses[j],
        forall|k: int| 0 <= k < c1.params.len() ==> #[trigger] c2.params[k] == c1.params[k],
        is_search(s, select, within_sessions(c2, req), order, limit),
        demands(c0, what, value),
    ensures
        s.params@.len() == 1 + c2.params.len() + req.session_ids@.len(),
        asks(s, what, value),
        req.project_id is Some ==> asks(
            s,
            "s.project_id = "@,
            SqlView::Integer(req.project_id->0),
        ),
        req.start_timestamp is Some ==> asks(
            s,
            "m.timestamp >= "@,
            SqlView::Integer(req.start_timestamp->0),
        ),
        req.end_timestamp is Some ==> asks(
            s,
            "m.timestamp <= "@,
            SqlView::Integer(req.end_timestamp->0),
        ),
        forall|i: int|
            0 <= i < req.session_ids@.len() ==> asks(
                s,
                "m.session_id LIKE "@,
                SqlView::Text(escaped_like((#[trigger] req.session_ids@[i])@) + "%"@),
            ),
{
    let c = within_sessions(c2, req);
    lemma_search_ends(s, select, c, order, limit);
    lemma_scope_demanded(c0, req);
    lemma_demand_kept(c0, c, what, value);
    lemma_search_asks(s, select, c, order, limit, what, value);
    if req.project_id is Some {
        let v = SqlView::Integer(req.project_id->0);
        lemma_demand_kept(c1, c, "s.project_id = "@, v);
        lemma_search_asks(s, select, c, order, limit, "s.project_id = "@, v);
    }
    if req.start_timestamp is Some {
        let v = SqlView::Integer(req.start_timestamp->0);
        lemma_demand_kept(c1, c, "m.timestamp >= "@, v);
        lemma_search_asks(s, select, c, order, limit, "m.timestamp >= "@, v);
    }
    if req.end_timestamp is Some {
        let v = SqlView::Integer(req.end_timestamp->0);
        lemma_demand_kept(c1, c, "m.timestamp <= "@, v);
        lemma_search_asks(s, select, c, order, limit, "m.timestamp <= "@, v);
    }
    assert forall|i: int| 0 <= i < req.session_ids@.len() implies asks(
        s,
        "m.session_id LIKE "@,
        SqlView::Text(escaped_like((#[trigger] req.session_ids@[i])@) + "%"@),
    ) by {
        let patterns = session_patterns(req.session_ids@);
        lemma_list_demanded(
            c2,
            "("@,
            "m.session_id LIKE "@,
            " ESCAPE '\\'"@,
            " OR "@,
            ")"@,
            patterns,
            i,
        );
        assert(patterns[i] == SqlView::Text(escaped_like(req.session_ids@[i]@) + "%"@));
        lemma_search_asks(s, select, c, order, limit, "m.session_id LIKE "@, patterns[i]);
    }
}

/// A search by substring asks for messages that hold the query, none of which is known already, with
/// the same conditions on project, time and sessions as the search by full text.
pub proof fn substring_search_is_scoped(
    s: Statement,
    req: SearchRequest,
    limit: usize,
    known: Seq<i64>,
)
    requires
        is_search(s, LIKE_SELECT@, like_conditions(req, known), like_order(req.order_by), limit),
    ensures
        s.params@.len() == 2 + conditions_given(req) + known.len() + req.session_ids@.len(),
        asks(s, "m.content_full LIKE "@, SqlView::Text("%"@ + req.query@ + "%"@)),
        known.len() > 0 ==> says(s.sql@, "m.id NOT IN ("@),
        forall|i: int|
            0 <= i < known.len() ==> exists|k: int|
                0 <= k < s.params@.len() && (#[trigger] s.params@[k])@ == SqlView::Integer(
                    #[trigger] known[i],
                ),
        req.project_id is Some ==> asks(
            s,
            "s.project_id = "@,
            SqlView::Integer(req.project_id->0),
        ),
        req.start_timestamp is Some ==> asks(
            s,
            "m.timestamp >= "@,
            SqlView::Integer(req.start_timestamp->0),
        ),
        req.end_timestamp is Some ==> asks(
            s,
            "m.timestamp <= "@,
            SqlView::Integer(req.end_timestamp->0),
        ),
        forall|i: int|
            0 <= i < req.session_ids@.len() ==> asks(
                s,
                "m.session_id LIKE "@,
                SqlView::Text(escaped_like((#[trigger] req.session_ids@[i])@) + "%"@),
            ),
{
    let pattern = SqlView::Text("%"@ + req.query@ + "%"@);
    let c0 = ConditionsView { clauses: seq!["m.content_full LIKE ?1"@], params: seq![pattern] };
    reveal_strlit("m.content_full LIKE ?1");
    reveal_strlit("m.content_full LIKE ");
    reveal_strlit("?");
    let first = "m.content_full LIKE "@ + "?"@ + decimal(1);
    assert(decimal(1) =~= seq!['1']);
    assert(c0.clauses[0] =~= first);
    lemma_says_itself(first);
    assert(c0.params[0] == pattern);
    assert(demands(c0, "m.content_full LIKE "@, pattern));
    let c1 = scoped(c0, req);
    let c2 = without_ids(c1, known);
    let order = like_order(req.order_by);
    lemma_scope_demanded(c0, req);
    lemma_conditions_asked(
        s,
        LIKE_SELECT@,
        c0,
        c1,
        c2,
        req,
        order,
        limit,
        "m.content_full LIKE "@,
        pattern,
    );
    let c = within_sessions(c2, req);
    let ids = known.map_values(|n: i64| SqlView::Integer(n));
    if known.len() > 0 {
        let j = c1.clauses.len() as int;
        let list = c2.clauses[j];
        let all = joined(c.clauses, " AND "@);
        assert(c.clauses[j] == list);
        let inner = joined(placeholders(c1.params.len() + 1, ids.len(), ""@, ""@), ", "@);
        assert(list =~= Seq::<char>::empty() + "m.id NOT IN ("@ + (inner + ")"@));
        lemma_says(Seq::empty(), "m.id NOT IN ("@, inner + ")"@);
        let rest = "\n            "@ + order + "\n            LIMIT "@ + crate::sql::placeholder(
            c.params.len() + 1,
        ) + "\n            "@;
        assert(s.sql@ =~= LIKE_SELECT@ + all + rest);
        lemma_says(LIKE_SELECT@, all, rest);
        lemma_joined_says(c.clauses, " AND "@, j);
        lemma_says_part_of_part(s.sql@, all, list);
        lemma_says_part_of_part(s.sql@, list, "m.id NOT IN ("@);
    }
    assert forall|i: int| 0 <= i < known.len() implies exists|k: int|
        0 <= k < s.params@.len() && (#[trigger] s.params@[k])@ == SqlView::Integer(
            #[trigger] known[i],
        ) by {
        let k = c1.params.len() + i;
        assert(value_views(s.params@).len() == s.params@.len());
        assert(c.params[k] == ids[i]);
        assert(value_views(s.params@)[k] == c.params.push(SqlView::Integer(limit as i64))[k]);
        assert(s.params@[k]@ == SqlView::Integer(known[i]));
    }
}

/// A search by full text that asks for the newest messages first says so, one that asks for the oldest
/// first says that, and one that asks for the best says that; right before the limit that was asked for.
pub proof fn search_says_its_order(req: &SearchRequest, r: Statement)
    requires
        call_ensures(search_fts_internal, (req,), r),
    ensures
        req.order_by == SearchOrderBy::TimeDesc ==> says(
            r.sql@,
            "\n            "@ + "ORDER BY m.timestamp DESC"@ + "\n            LIMIT "@,
        ),
        req.order_by == SearchOrderBy::TimeAsc ==> says(
            r.sql@,
            "\n            "@ + "ORDER BY m.timestamp ASC"@ + "\n            LIMIT "@,
        ),
        req.order_by == SearchOrderBy::Score ==> says(
            r.sql@,
            "\n            "@ + "ORDER BY score"@ + "\n            LIMIT "@,
        ),
        asks(r, "LIMIT "@, SqlView::Integer(req.limit as i64)),
        asks(r, "messages_fts MATCH "@, SqlView::Text(any_word(req.query@))),
        r.params@.len() == 2 + conditions_given(*req) + req.session_ids@.len(),
        req.project_id is Some ==> asks(
            r,
            "s.project_id = "@,
            SqlView::Integer(req.project_id->0),
        ),
        req.start_timestamp is Some ==> asks(
            r,
            "m.timestamp >= "@,
            SqlView::Integer(req.start_timestamp->0),
        ),
        req.end_timestamp is Some ==> asks(
            r,
            "m.timestamp <= "@,
            SqlView::Integer(req.end_timestamp->0),
        ),
{
    full_text_search_is_ordered(r, *req);
    full_text_search_is_scoped(r, *req);
}

/// A search by substring lists the newest messages first unless the oldest are asked for.
pub proof fn substring_search_says_its_order(
    req: &SearchRequest,
    limit: usize,
    known: &Vec<i64>,
    r: Statement,
)
    requires
        call_ensures(search_like_fallback, (req, limit, known), r),
    ensures
        req.order_by == SearchOrderBy::TimeAsc ==> says(
            r.sql@,
            "\n            "@ + "ORDER BY m.timestamp ASC"@ + "\n            LIMIT "@,
        ),
        req.order_by != SearchOrderBy::TimeAsc ==> says(
            r.sql@,
            "\n            "@ + "ORDER BY m.timestamp DESC"@ + "\n            LIMIT "@,
        ),
        asks(r, "m.content_full LIKE "@, SqlView::Text("%"@ + req.query@ + "%"@)),
        asks(r, "LIMIT "@, SqlView::Integer(limit as i64)),
        req.project_id is Some ==> asks(
            r,
            "s.project_id = "@,
            SqlView::Integer(req.project_id->0),
        ),
        r.params@.len() == 2 + conditions_given(*req) + known@.len() + req.session_ids@.len(),
{
    substring_search_is_ordered(r, *req, limit, known@);
    substring_search_is_scoped(r, *req, limit, known@);
}

/// What full text did not fill is filled by substring, within a project alone: as many messages as are
/// still missing, and none that was found already.
pub proof fn missing_messages_are_searched_for(
    req: &SearchRequest,
    found: &Vec<i64>,
    r: Option<Statement>,
)
    requires
        call_ensures(search_fts_full_with_sessions, (req, found), r),
    ensures
        r is Some <==> found@.len() < req.limit && req.project_id is Some,
        r is Some ==> {
            &&& asks(r->0, "LIMIT "@, SqlView::Integer((req.limit - found@.len()) as i64))
            &&& asks(r->0, "m.content_full LIKE "@, SqlView::Text("%"@ + req.query@ + "%"@))
            &&& asks(r->0, "s.project_id = "@, SqlView::Integer(req.project_id->0))
            &&& found@.len() > 0 ==> says(r->0.sql@, "m.id NOT IN ("@)
        },
{
    if r is Some {
        let limit = (req.limit - found@.len()) as usize;
        substring_search_is_ordered(r->0, *req, limit, found@);
        substring_search_is_scoped(r->0, *req, limit, found@);
    }
}

/// A search asks for exactly what it is given; what it is not given it does not narrow, and the best
/// messages come first unless another order is given.
pub proof fn search_is_asked_as_given(
    query: &str,
    limit: usize,
    project: Option<i64>,
    order: SearchOrderBy,
    start: Option<i64>,
    end: Option<i64>,
    a: SearchRequest,
    b: SearchRequest,
    c: SearchRequest,
    d: SearchRequest,
)
    requires
        call_ensures(search_fts, (query, limit), a),
        call_ensures(search_fts_with_project, (query, limit, project), b),
        call_ensures(search_fts_with_options, (query, limit, project, order), c),
        call_ensures(search_fts_full, (query, limit, project, order, start, end), d),
    ensures
        a.query@ == query@ && b.query@ == query@ && c.query@ == query@ && d.query@ == query@,
        a.limit == limit && b.limit == limit && c.limit == limit && d.limit == limit,
        a.project_id is None,
        b.project_id == project && c.project_id == project && d.project_id == project,
        a.order_by == SearchOrderBy::Score && b.order_by == SearchOrderBy::Score,
        c.order_by == order && d.order_by == order,
        a.start_timestamp is None && b.start_timestamp is None && c.start_timestamp is None,
        a.end_timestamp is None && b.end_timestamp is None && c.end_timestamp is None,
        d.start_timestamp == start && d.end_timestamp == end,
{
}

proof fn lemma_escaped_of_two(a: Seq<char>, b: Seq<char>)
    ensures
        escaped_like(a + b) == escaped_like(a) + escaped_like(b),
    decreases b.len(),
{
    if b.len() == 0 {
        assert(a + b =~= a);
        assert(escaped_like(a) + escaped_like(b) =~= escaped_like(a));
    } else {
        assert((a + b).drop_last() =~= a + b.drop_last());
        assert((a + b).last() == b.last());
        lemma_escaped_of_two(a, b.drop_last());
        assert(escaped_like(a + b) =~= escaped_like(a) + escaped_like(b));
    }
}

/// A pattern is escaped character by character: one that means something in a pattern gets a backslash
/// before it, and any other stays.
pub proof fn pattern_signs_are_escaped(
    a: &str,
    c: char,
    b: &str,
    whole: &str,
    ra: String,
    rb: String,
    r: String,
)
    requires
        call_ensures(escape_like_pattern, (a,), ra),
        call_ensures(escape_like_pattern, (b,), rb),
        call_ensures(escape_like_pattern, (whole,), r),
        whole@ == a@.push(c) + b@,
    ensures
        c == '%' || c == '_' || c == '\\' ==> r@ == ra@.push('\\').push(c) + rb@,
        c != '%' && c != '_' && c != '\\' ==> r@ == ra@.push(c) + rb@,
        a@.len() == 0 ==> ra@.len() == 0,
{
    lemma_escaped_of_two(a@.push(c), b@);
    assert(a@.push(c).drop_last() =~= a@);
}

proof fn lemma_doubled_of_two(a: Seq<char>, b: Seq<char>)
    ensures
        doubled_quotes(a + b) == doubled_quotes(a) + doubled_quotes(b),
    decreases b.len(),
{
    if b.len() == 0 {
        assert(a + b =~= a);
        assert(doubled_quotes(a) + doubled_quotes(b) =~= doubled_quotes(a));
    } else {
        assert((a + b).drop_last() =~= a + b.drop_last());
        assert((a + b).last() == b.last());
        lemma_doubled_of_two(a, b.drop_last());
        assert(doubled_quotes(a + b) =~= doubled_quotes(a) + doubled_quotes(b));
    }
}

/// A quotation mark inside a phrase is doubled, any other character stays, and the phrase stands between
/// quotation marks.
pub proof fn phrase_is_quoted(a: Seq<char>, c: char, b: Seq<char>)
    ensures
        quoted_phrase(Seq::empty()) == seq!['"', '"'],
        c == '"' ==> doubled_quotes(a.push(c) + b) == doubled_quotes(a) + seq!['"', '"']
            + doubled_quotes(b),
        c != '"' ==> doubled_quotes(a.push(c) + b) == doubled_quotes(a) + seq![c]
            + doubled_quotes(b),
        quoted_phrase(a) == seq!['"'] + doubled_quotes(a) + seq!['"'],
        !a.contains('"') ==> doubled_quotes(a) == a,
{
    lemma_doubled_of_two(a.push(c), b);
    assert(a.push(c).drop_last() =~= a);
    assert(quoted_phrase(Seq::empty()) =~= seq!['"', '"']);
    if c == '"' {
        assert(doubled_quotes(a.push(c)) =~= doubled_quotes(a) + seq!['"', '"']);
    } else {
        assert(doubled_quotes(a.push(c)) =~= doubled_quotes(a) + seq![c]);
    }
    lemma_unquoted_stays(a);
}

proof fn lemma_unquoted_stays(a: Seq<char>)
    ensures
        !a.contains('"') ==> doubled_quotes(a) == a,
    decreases a.len(),
{
    if a.len() > 0 && !a.contains('"') {
        assert(a.last() == a[a.len() - 1]);
        let d = a.drop_last();
        assert forall|i: int| 0 <= i < d.len() implies d[i] != '"' by {
            assert(d[i] == a[i]);
        }
        lemma_unquoted_stays(d);
        assert(doubled_quotes(a) =~= a);
    }
}

/// A query of one word asks for that word as a phrase, and one of two words for either of them.
pub proof fn any_word_will_do(a: &str, b: &str, ra: String, rb: String, both: &str, r: String)
    requires
        call_ensures(escape_fts5_query, (a,), ra),
        call_ensures(escape_fts5_query, (b,), rb),
        call_ensures(escape_fts5_query, (both,), r),
        is_word(a@),
        is_word(b@),
        both@ == a@.push(' ') + b@,
    ensures
        ra@ == quoted_phrase(a@),
        r@ == quoted_phrase(a@) + " OR "@ + quoted_phrase(b@),
        r@ == ra@ + " OR "@ + rb@,
{
    lemma_one_word(a@);
    lemma_one_word(b@);
    lemma_word_behind(a@.push(' '), b@);
    assert(a@.push(' ').drop_last() =~= a@);
    let quote = |w: Seq<char>| quoted_phrase(w);
    assert(words(a@).map_values(quote) =~= seq![quoted_phrase(a@)]);
    assert(words(b@).map_values(quote) =~= seq![quoted_phrase(b@)]);
    assert(words(both@) =~= seq![a@, b@]);
    let two = words(both@).map_values(quote);
    assert(two =~= seq![quoted_phrase(a@), quoted_phrase(b@)]);
    assert(two.drop_last() =~= seq![quoted_phrase(a@)]);
    assert(joined(two.drop_last(), " OR "@) == quoted_phrase(a@));
    assert(two.last() == quoted_phrase(b@));
}

proof fn lemma_one_word(w: Seq<char>)
    requires
        is_word(w),
    ensures
        words(w) == seq![w],
    decreases w.len(),
{
    lemma_word_behind(Seq::empty(), w);
    assert(Seq::<char>::empty() + w =~= w);
    assert(words(w) =~= seq![w]);
}

proof fn lemma_word_behind(s: Seq<char>, w: Seq<char>)
    requires
        is_word(w),
        s.len() > 0 ==> crate::text::is_space(s.last()),
    ensures
        words(s + w) == words(s).push(w),
    decreases w.len(),
{
    let t = s + w;
    let p = t.drop_last();
    let d = w.drop_last();
    assert(p =~= s + d);
    assert(t.last() == w[w.len() - 1]);
    if d.len() == 0 {
        assert(p =~= s);
        assert(seq![t.last()] =~= w);
    } else {
        assert forall|i: int| 0 <= i < d.len() implies !crate::text::is_space(#[trigger] d[i]) by {
            assert(d[i] == w[i]);
        }
        lemma_word_behind(s, d);
        assert(p.last() == d[d.len() - 1]);
        assert(words(p) == words(s).push(d));
        assert(words(p).drop_last() =~= words(s));
        assert(d.push(t.last()) =~= w);
    }
}

} // verus!

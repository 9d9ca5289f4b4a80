//! Searching the messages: by full text first, and by substring where that finds
//! too little within a project.
use vstd::prelude::*;
use crate::ffi::{doubled_quotes, quoted_phrase};
use crate::laws::searching::{
    asks,
    full_text_search_is_ordered,
    full_text_search_is_scoped,
    says,
    substring_search_is_ordered,
    substring_search_is_scoped,
};
use crate::sql::{
    integer_values,
    push_placeholder,
    placeholder,
    value_views,
    Conditions,
    ConditionsView,
    SqlValue,
    SqlView,
    Statement,
};
use crate::text::{
    chars_of,
    is_space,
    is_word,
    join,
    joined,
    lemma_joined_of_two,
    lemma_words_are_words,
    lemma_words_of_something,
    lemma_words_of_two,
    lemma_words_of_word,
    says_something,
    split_words,
    views,
    words,
};
use crate::types::SearchOrderBy;

verus! {

/// A text in which `%`, `_` and `\` stand for themselves in a `LIKE` pattern.
pub open spec fn escaped_like(s: Seq<char>) -> Seq<char>
    decreases s.len(),
{
    if s.len() == 0 {
        seq![]
    } else {
        let p = escaped_like(s.drop_last());
        let c = s.last();
        if c == '\\' || c == '%' || c == '_' {
            p.push('\\').push(c)
        } else {
            p.push(c)
        }
    }
}

/// The text `s` so that `%`, `_` and `\` in it stand for themselves in a `LIKE` pattern with `\`
/// as its escape character.
pub fn escape_like_pattern(s: &str) -> (r: String)
    ensures
        r@ == escaped_like(s@),
{
    let v = chars_of(s);
    let mut r = String::new();
    let mut i: usize = 0;
    assert(v@.take(0) =~= Seq::<char>::empty());
    while i < v.len()
        invariant
            i <= v@.len(),
            r@ == escaped_like(v@.take(i as int)),
        decreases v@.len() - i,
    {
        assert(v@.take(i + 1).drop_last() =~= v@.take(i as int));
        let c = v[i];
        if c == '\\' || c == '%' || c == '_' {
            r.push('\\');
        }
        r.push(c);
        i += 1;
    }
    assert(v@.take(v@.len() as int) =~= s@);
    r
}

/// The words of a query, each as a phrase of its own, any of which may be found.
pub open spec fn any_word(query: Seq<char>) -> Seq<char> {
    joined(words(query).map_values(|w: Seq<char>| quoted_phrase(w)), " OR "@)
}

/// The query that finds any of the words of `query`, none of which is taken for an operator.
pub fn escape_fts5_query(query: &str) -> (r: String)
    ensures
        r@ == any_word(query@),
{
    let terms = split_words(query);
    let mut phrases: Vec<String> = Vec::new();
    let mut i: usize = 0;
    while i < terms.len()
        invariant
            i <= terms@.len(),
            phrases@.len() == i,
            forall|k: int|
                0 <= k < i ==> (#[trigger] phrases@[k])@ == quoted_phrase(terms@[k]@),
        decreases terms@.len() - i,
    {
        phrases.push(crate::ffi::escape_fts5_query(terms[i].as_str()));
        i += 1;
    }
    assert(views(phrases@) =~= words(query@).map_values(|w: Seq<char>| quoted_phrase(w))) by {
        assert forall|k: int| 0 <= k < terms@.len() implies views(terms@)[k] == terms@[k]@ by {}
    }
    join(&phrases, " OR ")
}

/// What a search asks for.
#[derive(Debug, Clone)]
pub struct SearchRequest {
    pub query: String,
    pub limit: usize,
    pub project_id: Option<i64>,
    pub order_by: SearchOrderBy,
    /// The earliest time of a message, in milliseconds.
    pub start_timestamp: Option<i64>,
    /// The latest time of a message, in milliseconds.
    pub end_timestamp: Option<i64>,
    /// What the ids of sessions begin with; any session is searched where there is none.
    pub session_ids: Vec<String>,
}

/// The beginning of the statement that searches by full text.
pub const FTS_SELECT: &'static str = "
            SELECT
                m.id,
                m.session_id,
                s.project_id,
                p.name as project_name,
                m.type,
                m.content_full,
                snippet(messages_fts, 0, '<mark>', '</mark>', '...', 64) as snippet,
                bm25(messages_fts) as score,
                m.timestamp
            FROM messages_fts
            JOIN messages m ON messages_fts.rowid = m.id
            JOIN sessions s ON m.session_id = s.session_id
            JOIN projects p ON s.project_id = p.id
            WHERE ";

/// The beginning of the statement that searches by substring.
pub const LIKE_SELECT: &'static str = "
            SELECT
                m.id,
                m.session_id,
                s.project_id,
                p.name as project_name,
                m.type,
                m.content_full,
                substr(m.content_full, 1, 200) as snippet,
                0.0 as score,
                m.timestamp
            FROM messages m
            JOIN sessions s ON m.session_id = s.session_id
            JOIN projects p ON s.project_id = p.id
            WHERE ";

/// The `LIKE` patterns of the sessions that are searched.
pub open spec fn session_patterns(session_ids: Seq<String>) -> Seq<SqlView> {
    session_ids.map_values(|s: String| SqlView::Text(escaped_like(s@) + "%"@))
}

fn session_values(session_ids: &Vec<String>) -> (r: Vec<SqlValue>)
    ensures
        value_views(r@) == session_patterns(session_ids@),
        r@.len() == session_ids@.len(),
{
    let mut r: Vec<SqlValue> = Vec::new();
    let mut i: usize = 0;
    while i < session_ids.len()
        invariant
            i <= session_ids@.len(),
            r@.len() == i,
            forall|k: int|
                0 <= k < i ==> (#[trigger] r@[k])@ == SqlView::Text(
                    escaped_like(session_ids@[k]@) + "%"@,
                ),
        decreases session_ids@.len() - i,
    {
        let mut p = escape_like_pattern(session_ids[i].as_str());
        p.push_str("%");
        r.push(SqlValue::Text(p));
        i += 1;
    }
    assert(value_views(r@) =~= session_patterns(session_ids@));
    r
}

/// The conditions that both searches share: project and time.
pub open spec fn scoped(c: ConditionsView, req: SearchRequest) -> ConditionsView {
    c.and_number("s.project_id = "@, req.project_id).and_number(
        "m.timestamp >= "@,
        req.start_timestamp,
    ).and_number("m.timestamp <= "@, req.end_timestamp)
}

/// The condition on sessions: that the id begins with one of those asked for.
pub open spec fn within_sessions(c: ConditionsView, req: SearchRequest) -> ConditionsView {
    c.and_list(
        "("@,
        "m.session_id LIKE "@,
        " ESCAPE '\\'"@,
        " OR "@,
        ")"@,
        session_patterns(req.session_ids@),
    )
}

/// The condition that leaves out messages that are known already.
pub open spec fn without_ids(c: ConditionsView, ids: Seq<i64>) -> ConditionsView {
    c.and_list(
        "m.id NOT IN ("@,
        ""@,
        ""@,
        ", "@,
        ")"@,
        ids.map_values(|n: i64| SqlView::Integer(n)),
    )
}

/// The conditions of a search by full text.
pub open spec fn fts_conditions(req: SearchRequest) -> ConditionsView {
    within_sessions(
        scoped(
            ConditionsView {
                clauses: seq!["messages_fts MATCH ?1"@],
                params: seq![SqlView::Text(any_word(req.query@))],
            },
            req,
        ),
        req,
    )
}

/// The conditions of a search by substring.
pub open spec fn like_conditions(req: SearchRequest, exclude_ids: Seq<i64>) -> ConditionsView {
    within_sessions(
        without_ids(
            scoped(
                ConditionsView {
                    clauses: seq!["m.content_full LIKE ?1"@],
                    params: seq![SqlView::Text("%"@ + req.query@ + "%"@)],
                },
                req,
            ),
            exclude_ids,
        ),
        req,
    )
}

/// How the results of a search by full text are ordered.
pub open spec fn fts_order(order_by: SearchOrderBy) -> Seq<char> {
    match order_by {
        SearchOrderBy::Score => "ORDER BY score"@,
        SearchOrderBy::TimeDesc => "ORDER BY m.timestamp DESC"@,
        SearchOrderBy::TimeAsc => "ORDER BY m.timestamp ASC"@,
    }
}

/// How the results of a search by substring are ordered: it knows no score, so by time.
pub open spec fn like_order(order_by: SearchOrderBy) -> Seq<char> {
    match order_by {
        SearchOrderBy::TimeAsc => "ORDER BY m.timestamp ASC"@,
        _ => "ORDER BY m.timestamp DESC"@,
    }
}

/// Whether a statement selects at most `limit` rows that meet the conditions, in the given order.
pub open spec fn is_search(
    s: Statement,
    select: Seq<char>,
    c: ConditionsView,
    order: Seq<char>,
    limit: usize,
) -> bool {
    &&& s.sql@ == select + joined(c.clauses, " AND "@) + "\n            "@ + order
        + "\n            LIMIT "@ + placeholder(c.params.len() + 1) + "\n            "@
    &&& value_views(s.params@) == c.params.push(SqlView::Integer(limit as i64))
}

fn search_statement(select: &str, c: Conditions, order: &str, limit: usize) -> (r: Statement)
    requires
        c.params@.len() < usize::MAX,
    ensures
        is_search(r, select@, c@, order@, limit),
{
    let mut sql = select.to_owned();
    sql.push_str(join(&c.clauses, " AND ").as_str());
    sql.push_str("\n            ");
    sql.push_str(order);
    sql.push_str("\n            LIMIT ");
    push_placeholder(&mut sql, c.params.len() + 1);
    sql.push_str("\n            ");
    let ghost before = value_views(c.params@);
    let mut params = c.params;
    params.push(SqlValue::Integer(limit as i64));
    assert(value_views(params@) =~= before.push(SqlView::Integer(limit as i64)));
    Statement { sql, params }
}

fn add_scope(c: &mut Conditions, req: &SearchRequest)
    requires
        old(c).params@.len() <= usize::MAX - 3,
    ensures
        final(c)@ == scoped(old(c)@, *req),
        old(c).params@.len() <= final(c).params@.len() <= old(c).params@.len() + 3,
{
    c.and_number("s.project_id = ", req.project_id);
    c.and_number("m.timestamp >= ", req.start_timestamp);
    c.and_number("m.timestamp <= ", req.end_timestamp);
}

/// The statement that searches by full text.
pub fn search_fts_internal(req: &SearchRequest) -> (r: Statement)
    requires
        req.session_ids@.len() <= usize::MAX - 8,
    ensures
        is_search(r, FTS_SELECT@, fts_conditions(*req), fts_order(req.order_by), req.limit),
        says(
            r.sql@,
            match req.order_by {
                SearchOrderBy::Score => "\n            "@ + "ORDER BY score"@
                    + "\n            LIMIT "@,
                SearchOrderBy::TimeDesc => "\n            "@ + "ORDER BY m.timestamp DESC"@
                    + "\n            LIMIT "@,
                SearchOrderBy::TimeAsc => "\n            "@ + "ORDER BY m.timestamp ASC"@
                    + "\n            LIMIT "@,
            },
        ),
        asks(r, "LIMIT "@, SqlView::Integer(req.limit as i64)),
        req.start_timestamp is Some ==> asks(
            r,
            "m.timestamp >= "@,
            SqlView::Integer(req.start_timestamp->0),
        ),
        req.end_timestamp is Some ==> asks(
            r,
            "m.timestamp <= "@,
            SqlView::Integer(req.end_timestamp->0),
        ),
        req.project_id is Some ==> asks(
            r,
            "s.project_id = "@,
            SqlView::Integer(req.project_id->0),
        ),
{
    let mut c = Conditions::new(
        "messages_fts MATCH ?1",
        SqlValue::Text(escape_fts5_query(req.query.as_str())),
    );
    add_scope(&mut c, req);
    c.and_list(
        "(",
        "m.session_id LIKE ",
        " ESCAPE '\\'",
        " OR ",
        ")",
        session_values(&req.session_ids),
    );
    let order = match req.order_by {
        SearchOrderBy::Score => "ORDER BY score",
        SearchOrderBy::TimeDesc => "ORDER BY m.timestamp DESC",
        SearchOrderBy::TimeAsc => "ORDER BY m.timestamp ASC",
    };
    let r = search_statement(FTS_SELECT, c, order, req.limit);
    proof {
        full_text_search_is_ordered(r, *req);
        full_text_search_is_scoped(r, *req);
    }
    r
}

/// The statement that searches by substring for at most `limit` messages besides those known.
pub fn search_like_fallback(req: &SearchRequest, limit: usize, exclude_ids: &Vec<i64>) -> (r:
    Statement)
    requires
        req.session_ids@.len() + exclude_ids@.len() <= usize::MAX - 8,
    ensures
        is_search(
            r,
            LIKE_SELECT@,
            like_conditions(*req, exclude_ids@),
            like_order(req.order_by),
            limit,
        ),
        says(
            r.sql@,
            if req.order_by == SearchOrderBy::TimeAsc {
                "\n            "@ + "ORDER BY m.timestamp ASC"@ + "\n            LIMIT "@
            } else {
                "\n            "@ + "ORDER BY m.timestamp DESC"@ + "\n            LIMIT "@
            },
        ),
        asks(r, "m.content_full LIKE "@, SqlView::Text("%"@ + req.query@ + "%"@)),
        asks(r, "LIMIT "@, SqlView::Integer(limit as i64)),
{
    let mut pattern = "%".to_owned();
    pattern.push_str(req.query.as_str());
    pattern.push_str("%");
    let mut c = Conditions::new("m.content_full LIKE ?1", SqlValue::Text(pattern));
    add_scope(&mut c, req);
    let ids = integer_values(exclude_ids);
    assert(ids@.len() == value_views(ids@).len());
    c.and_list("m.id NOT IN (", "", "", ", ", ")", ids);
    c.and_list(
        "(",
        "m.session_id LIKE ",
        " ESCAPE '\\'",
        " OR ",
        ")",
        session_values(&req.session_ids),
    );
    let order = match req.order_by {
        SearchOrderBy::TimeAsc => "ORDER BY m.timestamp ASC",
        _ => "ORDER BY m.timestamp DESC",
    };
    let r = search_statement(LIKE_SELECT, c, order, limit);
    proof {
        substring_search_is_ordered(r, *req, limit, exclude_ids@);
        substring_search_is_scoped(r, *req, limit, exclude_ids@);
    }
    r
}

/// What comes after the search by full text, given the messages that it found: where it found
/// fewer than asked for within a project, a search by substring for the rest.
pub fn search_fts_full_with_sessions(req: &SearchRequest, found_ids: &Vec<i64>) -> (r: Option<
    Statement,
>)
    requires
        req.session_ids@.len() + found_ids@.len() <= usize::MAX - 8,
    ensures
        match r {
            Some(s) => {
                &&& found_ids@.len() < req.limit
                &&& req.project_id is Some
                &&& is_search(
                    s,
                    LIKE_SELECT@,
                    like_conditions(*req, found_ids@),
                    like_order(req.order_by),
                    (req.limit - found_ids@.len()) as usize,
                )
            },
            None => found_ids@.len() >= req.limit || req.project_id is None,
        },
{
    if found_ids.len() >= req.limit || req.project_id.is_none() {
        None
    } else {
        Some(search_like_fallback(req, req.limit - found_ids.len(), found_ids))
    }
}

/// A search of everything for a query.
pub fn search_fts(query: &str, limit: usize) -> (r: SearchRequest)
    ensures
        r.query@ == query@,
        r.limit == limit,
        r.project_id is None,
        r.order_by == SearchOrderBy::Score,
        r.start_timestamp is None,
        r.end_timestamp is None,
        r.session_ids@.len() == 0,
{
    search_fts_with_options(query, limit, None, SearchOrderBy::Score)
}

/// A search of a project, or of everything, for a query.
pub fn search_fts_with_project(query: &str, limit: usize, project_id: Option<i64>) -> (r:
    SearchRequest)
    ensures
        r.query@ == query@,
        r.limit == limit,
        r.project_id == project_id,
        r.order_by == SearchOrderBy::Score,
        r.start_timestamp is None,
        r.end_timestamp is None,
        r.session_ids@.len() == 0,
{
    search_fts_with_options(query, limit, project_id, SearchOrderBy::Score)
}

/// A search of a project, or of everything, for a query, with the results in the given order.
pub fn search_fts_with_options(
    query: &str,
    limit: usize,
    project_id: Option<i64>,
    order_by: SearchOrderBy,
) -> (r: SearchRequest)
    ensures
        r.query@ == query@,
        r.limit == limit,
        r.project_id == project_id,
        r.order_by == order_by,
        r.start_timestamp is None,
        r.end_timestamp is None,
        r.session_ids@.len() == 0,
{
    search_fts_full(query, limit, project_id, order_by, None, None)
}

/// A search of a project, or of everything, for a query within some time, with the results in the
/// given order.
pub fn search_fts_full(
    query: &str,
    limit: usize,
    project_id: Option<i64>,
    order_by: SearchOrderBy,
    start_timestamp: Option<i64>,
    end_timestamp: Option<i64>,
) -> (r: SearchRequest)
    ensures
        r.query@ == query@,
        r.limit == limit,
        r.project_id == project_id,
        r.order_by == order_by,
        r.start_timestamp == start_timestamp,
        r.end_timestamp == end_timestamp,
        r.session_ids@.len() == 0,
{
    SearchRequest {
        query: query.to_owned(),
        limit,
        project_id,
        order_by,
        start_timestamp,
        end_timestamp,
        session_ids: Vec::new(),
    }
}

/// What a character of a `LIKE` pattern stands for.
pub enum LikeToken {
    /// A character that stands for itself.
    Literal(char),
    /// Any one character.
    AnyOne,
    /// Any characters.
    AnyRun,
}

/// What a character that is not escaped stands for.
pub open spec fn like_token(c: char) -> LikeToken {
    if c == '%' {
        LikeToken::AnyRun
    } else if c == '_' {
        LikeToken::AnyOne
    } else {
        LikeToken::Literal(c)
    }
}

/// What a `LIKE` pattern with `\` as its escape character asks for.
pub open spec fn like_tokens(p: Seq<char>) -> Seq<LikeToken>
    decreases p.len(),
{
    if p.len() == 0 {
        seq![]
    } else if p[0] == '\\' && p.len() >= 2 {
        seq![LikeToken::Literal(p[1])] + like_tokens(p.skip(2))
    } else {
        seq![like_token(p[0])] + like_tokens(p.skip(1))
    }
}

/// A text as a pattern: every character for itself.
pub open spec fn literally(s: Seq<char>) -> Seq<LikeToken>
    decreases s.len(),
{
    if s.len() == 0 {
        seq![]
    } else {
        seq![LikeToken::Literal(s[0])] + literally(s.drop_first())
    }
}

proof fn lemma_escaped_front(s: Seq<char>)
    requires
        s.len() > 0,
    ensures
        escaped_like(s) == (if s[0] == '\\' || s[0] == '%' || s[0] == '_' {
            seq!['\\', s[0]]
        } else {
            seq![s[0]]
        }) + escaped_like(s.drop_first()),
    decreases s.len(),
{
    let head = if s[0] == '\\' || s[0] == '%' || s[0] == '_' {
        seq!['\\', s[0]]
    } else {
        seq![s[0]]
    };
    if s.len() == 1 {
        assert(s.drop_first() =~= Seq::<char>::empty());
        assert(s.drop_last() =~= Seq::<char>::empty());
        assert(escaped_like(s) =~= head + escaped_like(s.drop_first()));
    } else {
        lemma_escaped_front(s.drop_last());
        assert(s.drop_last().drop_first() =~= s.drop_first().drop_last());
        assert(escaped_like(s) =~= head + escaped_like(s.drop_first()));
    }
}

/// An escaped text is matched literally, whatever pattern follows it: no character of it is a
/// wildcard, and none is lost.
pub proof fn escaped_text_is_literal(s: Seq<char>, rest: Seq<char>)
    ensures
        like_tokens(escaped_like(s) + rest) == literally(s) + like_tokens(rest),
    decreases s.len(),
{
    if s.len() == 0 {
        assert(escaped_like(s) + rest =~= rest);
        assert(literally(s) + like_tokens(rest) =~= like_tokens(rest));
    } else {
        lemma_escaped_front(s);
        let t = s.drop_first();
        let p = escaped_like(s) + rest;
        escaped_text_is_literal(t, rest);
        if s[0] == '\\' || s[0] == '%' || s[0] == '_' {
            assert(p.len() >= 2 && p[0] == '\\' && p[1] == s[0]);
            assert(p.skip(2) =~= escaped_like(t) + rest);
            assert(like_tokens(p) == seq![LikeToken::Literal(s[0])] + (literally(t) + like_tokens(
                rest,
            )));
        } else {
            assert(p.len() > 0 && p[0] == s[0]);
            assert(p.skip(1) =~= escaped_like(t) + rest);
            assert(like_tokens(p) == seq![LikeToken::Literal(s[0])] + (literally(t) + like_tokens(
                rest,
            )));
        }
        assert(like_tokens(p) =~= literally(s) + like_tokens(rest));
    }
}

/// A text with each pair of quotation marks as one.
pub open spec fn undoubled_quotes(s: Seq<char>) -> Seq<char>
    decreases s.len(),
{
    if s.len() == 0 {
        seq![]
    } else if s.len() >= 2 && s.last() == '"' && s[s.len() - 2] == '"' {
        undoubled_quotes(s.take(s.len() - 2)).push('"')
    } else {
        undoubled_quotes(s.drop_last()).push(s.last())
    }
}

/// A word of a query comes out of its phrase as it went in.
pub proof fn phrase_keeps_its_word(s: Seq<char>)
    ensures
        undoubled_quotes(doubled_quotes(s)) == s,
        quoted_phrase(s).len() >= 2,
        quoted_phrase(s).subrange(1, quoted_phrase(s).len() - 1) == doubled_quotes(s),
    decreases s.len(),
{
    assert(quoted_phrase(s).subrange(1, quoted_phrase(s).len() - 1) =~= doubled_quotes(s));
    if s.len() > 0 {
        let d = doubled_quotes(s.drop_last());
        phrase_keeps_its_word(s.drop_last());
        if s.last() == '"' {
            assert(doubled_quotes(s).take(doubled_quotes(s).len() - 2) =~= d);
        } else {
            assert(doubled_quotes(s).drop_last() =~= d);
        }
        assert(s.drop_last().push(s.last()) =~= s);
    }
}

/// The word that a phrase stands for.
pub open spec fn unquoted(phrase: Seq<char>) -> Seq<char> {
    undoubled_quotes(phrase.subrange(1, phrase.len() - 1))
}

/// The words that a query for any of them asks for: every other word of it, taken out of its
/// quotation marks.
pub open spec fn asked_words(query: Seq<char>) -> Seq<Seq<char>> {
    Seq::new(((words(query).len() + 1) / 2) as nat, |i: int| unquoted(words(query)[2 * i]))
}

proof fn lemma_phrase_is_word(w: Seq<char>)
    requires
        is_word(w),
    ensures
        is_word(quoted_phrase(w)),
{
    lemma_doubled_has_no_space(w);
    let d = doubled_quotes(w);
    let q = quoted_phrase(w);
    assert forall|i: int| 0 <= i < q.len() implies !is_space(#[trigger] q[i]) by {
        if 0 < i < q.len() - 1 {
            assert(q[i] == d[i - 1]);
        }
    }
}

proof fn lemma_doubled_has_no_space(w: Seq<char>)
    requires
        forall|i: int| 0 <= i < w.len() ==> !is_space(#[trigger] w[i]),
    ensures
        forall|i: int|
            0 <= i < doubled_quotes(w).len() ==> !is_space(#[trigger] doubled_quotes(w)[i]),
    decreases w.len(),
{
    if w.len() > 0 {
        let p = w.drop_last();
        assert forall|i: int| 0 <= i < p.len() implies !is_space(#[trigger] p[i]) by {
            assert(p[i] == w[i]);
        }
        lemma_doubled_has_no_space(p);
        assert(!is_space(w[w.len() - 1]));
        let d = doubled_quotes(p);
        let all = doubled_quotes(w);
        assert forall|i: int| 0 <= i < all.len() implies !is_space(#[trigger] all[i]) by {
            if i < d.len() {
                assert(all[i] == d[i]);
            }
        }
    }
}

proof fn lemma_words_of_joined(phrases: Seq<Seq<char>>)
    requires
        forall|k: int| 0 <= k < phrases.len() ==> is_word(#[trigger] phrases[k]),
    ensures
        phrases.len() == 0 ==> words(joined(phrases, " OR "@)).len() == 0,
        phrases.len() > 0 ==> words(joined(phrases, " OR "@)).len() == 2 * phrases.len() - 1,
        forall|k: int|
            0 <= k < phrases.len() ==> words(joined(phrases, " OR "@))[2 * k]
                == #[trigger] phrases[k],
    decreases phrases.len(),
{
    if phrases.len() == 1 {
        lemma_words_of_word(phrases[0]);
    } else if phrases.len() > 1 {
        let d = phrases.drop_last();
        let front = joined(d, " OR "@);
        let all = joined(phrases, " OR "@);
        assert forall|k: int| 0 <= k < d.len() implies is_word(#[trigger] d[k]) by {
            assert(d[k] == phrases[k]);
        }
        lemma_words_of_joined(d);
        let or = seq!['O', 'R'];
        let last = phrases.last();
        reveal_strlit(" OR ");
        assert(all =~= (front.push(' ') + or).push(' ') + last);
        lemma_words_of_two(front.push(' ') + or, last);
        lemma_words_of_two(front, or);
        lemma_words_of_word(or);
        assert(is_word(phrases[phrases.len() - 1]));
        lemma_words_of_word(last);
        assert(words(all) == words(front) + seq![or] + seq![last]);
        assert forall|k: int| 0 <= k < phrases.len() implies words(all)[2 * k]
            == #[trigger] phrases[k] by {
            if k < d.len() {
                assert(d[k] == phrases[k]);
            }
        }
    }
}

/// A query asks for exactly the words of the text that it was made of, in order: they can be read
/// back from it.
pub proof fn query_asks_for_its_words(text: Seq<char>)
    ensures
        asked_words(any_word(text)) == words(text),
{
    let ws = words(text);
    let phrases = ws.map_values(|w: Seq<char>| quoted_phrase(w));
    lemma_words_are_words(text);
    assert forall|k: int| 0 <= k < phrases.len() implies is_word(#[trigger] phrases[k]) by {
        assert(is_word(ws[k]));
        lemma_phrase_is_word(ws[k]);
    }
    lemma_words_of_joined(phrases);
    let back = asked_words(any_word(text));
    assert(back.len() == ws.len());
    assert forall|k: int| 0 <= k < ws.len() implies back[k] == ws[k] by {
        assert(phrases[k] == quoted_phrase(ws[k]));
        phrase_keeps_its_word(ws[k]);
    }
    assert(back =~= ws);
}

/// The query of two texts with a space between is the one query or the other.
pub proof fn queries_are_joined_by_or(a: Seq<char>, b: Seq<char>)
    requires
        says_something(a),
        says_something(b),
    ensures
        any_word(a + " "@ + b) == any_word(a) + " OR "@ + any_word(b),
{
    let quote = |w: Seq<char>| quoted_phrase(w);
    reveal_strlit(" ");
    assert(a + " "@ + b =~= a.push(' ') + b);
    lemma_words_of_two(a, b);
    lemma_words_of_something(a);
    lemma_words_of_something(b);
    let p = words(a).map_values(quote);
    let q = words(b).map_values(quote);
    assert(words(a + " "@ + b).map_values(quote) =~= p + q);
    lemma_joined_of_two(p, q, " OR "@);
}

/// A query is empty exactly where the text holds white space alone, and it is the same for all texts
/// with the same words.
pub proof fn query_depends_on_words_alone(a: Seq<char>, b: Seq<char>)
    ensures
        any_word(a).len() == 0 <==> !says_something(a),
        words(a) == words(b) ==> any_word(a) == any_word(b),
{
    lemma_words_of_something(a);
    query_asks_for_its_words(a);
    if any_word(a).len() == 0 {
        assert(words(any_word(a)).len() == 0);
    } else {
        let phrases = words(a).map_values(|w: Seq<char>| quoted_phrase(w));
        if words(a).len() == 0 {
            assert(phrases.len() == 0);
        }
    }
}

} // verus!

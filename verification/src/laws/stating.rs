//! What holds of the statements that are put to the store.
use vstd::prelude::*;
use crate::coordination::Coordinator;
use crate::db::{
    children_statement, get_messages, get_messages_by_ids, get_messages_with_options,
    get_sessions, insert_message_statement, list_messages, list_messages_ordered,
    mark_messages_index_failed, mark_messages_indexed, parents_statement, MessageInput,
    SessionInput,
};
use crate::laws::searching::{asks, says};
use crate::queries;
use crate::queries::{
    children_of_session, claim_writer, count_project_sessions, delete_project, fill_vacancy,
    get_children_sessions, get_failed_indexed_messages, get_parent_session, get_pending_approvals,
    get_session_latest_timestamp, get_session_max_sequence, get_session_message_count,
    get_talk_summaries, get_unindexed_messages, insert_session_relation, last_message,
    list_projects_with_stats, list_sessions_of_path, mark_message_index_failed, parent_of_session,
    project_id_of_path, release_writer, renew_writer, resolve_session_id, session_exists,
    take_over_writer, update_approval_status, update_approval_status_by_tool_call_id,
    update_session_incremental_state, update_session_last_message, update_sessions_project_id,
};
use crate::sql::{integer_or_null, text_or_null, value_views, SqlView, Statement};
use crate::text::decimal;
use crate::types::ApprovalStatus;

verus! {

pub(crate) proof fn lemma_says_at(text: Seq<char>, part: Seq<char>, at: int)
    requires
        0 <= at,
        at + part.len() <= text.len(),
        text.subrange(at, at + part.len()) == part,
    ensures
        says(text, part),
{
    let before = text.take(at);
    let after = text.skip(at + part.len());
    assert(before + part + after =~= text);
}

pub(crate) proof fn lemma_asks_at(s: Statement, what: Seq<char>, value: SqlView, at: int, k: int)
    requires
        0 <= k < s.params@.len(),
        s.params@[k]@ == value,
        0 <= at,
        at + (what + "?"@ + decimal((k + 1) as nat)).len() <= s.sql@.len(),
        s.sql@.subrange(at, at + (what + "?"@ + decimal((k + 1) as nat)).len() as int) == what + "?"@
            + decimal((k + 1) as nat),
    ensures
        asks(s, what, value),
{
    lemma_says_at(s.sql@, what + "?"@ + decimal((k + 1) as nat), at);
}

/// The newest time of a session is the greatest one of its messages.
pub proof fn newest_time_is_asked_for(id: &str, r: Statement)
    requires
        call_ensures(get_session_latest_timestamp, (id,), r),
    ensures
        asks(r, "WHERE session_id = "@, SqlView::Text(id@)),
        says(r.sql@, "SELECT MAX(timestamp) FROM messages"@),
        r.params@.len() == 1,
{
    reveal_strlit(
        "SELECT MAX(timestamp) FROM messages WHERE session_id = ?1",
    );
    reveal_strlit("?");
    assert(value_views(r.params@).len() == 1);
    reveal_strlit("WHERE session_id = ");
    assert(decimal(1) =~= seq!['1']);
    assert(value_views(r.params@)[0] == r.params@[0]@);
    assert(r.sql@.subrange(36, 57) =~= "WHERE session_id = "@ + "?"@ + decimal(1));
    lemma_asks_at(r, "WHERE session_id = "@, SqlView::Text(id@), 36, 0);
    reveal_strlit("SELECT MAX(timestamp) FROM messages");
    assert(r.sql@.subrange(0, 35) =~= "SELECT MAX(timestamp) FROM messages"@);
    lemma_says_at(r.sql@, "SELECT MAX(timestamp) FROM messages"@, 0);
}

/// The greatest number of a session is that of its messages.
pub proof fn greatest_number_is_asked_for(id: &str, r: Statement)
    requires
        call_ensures(get_session_max_sequence, (id,), r),
    ensures
        asks(r, "WHERE session_id = "@, SqlView::Text(id@)),
        says(r.sql@, "SELECT MAX(sequence) FROM messages"@),
        r.params@.len() == 1,
{
    reveal_strlit(
        "SELECT MAX(sequence) FROM messages WHERE session_id = ?1",
    );
    reveal_strlit("?");
    assert(value_views(r.params@).len() == 1);
    reveal_strlit("WHERE session_id = ");
    assert(decimal(1) =~= seq!['1']);
    assert(value_views(r.params@)[0] == r.params@[0]@);
    assert(r.sql@.subrange(35, 56) =~= "WHERE session_id = "@ + "?"@ + decimal(1));
    lemma_asks_at(r, "WHERE session_id = "@, SqlView::Text(id@), 35, 0);
    reveal_strlit("SELECT MAX(sequence) FROM messages");
    assert(r.sql@.subrange(0, 34) =~= "SELECT MAX(sequence) FROM messages"@);
    lemma_says_at(r.sql@, "SELECT MAX(sequence) FROM messages"@, 0);
}

/// The messages of a session are counted among its own.
pub proof fn messages_of_a_session_are_counted(id: &str, r: Statement)
    requires
        call_ensures(get_session_message_count, (id,), r),
    ensures
        asks(r, "FROM messages WHERE session_id = "@, SqlView::Text(id@)),
        r.params@.len() == 1,
{
    reveal_strlit(
        "SELECT COUNT(*) FROM messages WHERE session_id = ?1",
    );
    reveal_strlit("?");
    assert(value_views(r.params@).len() == 1);
    reveal_strlit("FROM messages WHERE session_id = ");
    assert(decimal(1) =~= seq!['1']);
    assert(value_views(r.params@)[0] == r.params@[0]@);
    assert(r.sql@.subrange(16, 51) =~= "FROM messages WHERE session_id = "@ + "?"@ + decimal(1));
    lemma_asks_at(r, "FROM messages WHERE session_id = "@, SqlView::Text(id@), 16, 0);
}

/// A session is there where one has its id.
pub proof fn session_is_looked_for_by_id(id: &str, r: Statement)
    requires
        call_ensures(session_exists, (id,), r),
    ensures
        asks(r, "FROM sessions WHERE session_id = "@, SqlView::Text(id@)),
        r.params@.len() == 1,
{
    reveal_strlit(
        "SELECT COUNT(*) FROM sessions WHERE session_id = ?1",
    );
    reveal_strlit("?");
    assert(value_views(r.params@).len() == 1);
    reveal_strlit("FROM sessions WHERE session_id = ");
    assert(decimal(1) =~= seq!['1']);
    assert(value_views(r.params@)[0] == r.params@[0]@);
    assert(r.sql@.subrange(16, 51) =~= "FROM sessions WHERE session_id = "@ + "?"@ + decimal(1));
    lemma_asks_at(r, "FROM sessions WHERE session_id = "@, SqlView::Text(id@), 16, 0);
}

/// Sessions move to the one project out of the other, not the other way round.
pub proof fn sessions_move_from_one_project_to_another(from: i64, to: i64, r: Statement)
    requires
        call_ensures(update_sessions_project_id, (from, to), r),
    ensures
        asks(r, "SET project_id = "@, SqlView::Integer(to)),
        asks(r, "WHERE project_id = "@, SqlView::Integer(from)),
        r.params@.len() == 2,
{
    reveal_strlit(
        "UPDATE sessions SET project_id = ?1 WHERE project_id = ?2",
    );
    reveal_strlit("?");
    assert(value_views(r.params@).len() == 2);
    reveal_strlit("SET project_id = ");
    assert(decimal(1) =~= seq!['1']);
    assert(value_views(r.params@)[0] == r.params@[0]@);
    assert(r.sql@.subrange(16, 35) =~= "SET project_id = "@ + "?"@ + decimal(1));
    lemma_asks_at(r, "SET project_id = "@, SqlView::Integer(to), 16, 0);
    reveal_strlit("WHERE project_id = ");
    assert(decimal(2) =~= seq!['2']);
    assert(value_views(r.params@)[1] == r.params@[1]@);
    assert(r.sql@.subrange(36, 57) =~= "WHERE project_id = "@ + "?"@ + decimal(2));
    lemma_asks_at(r, "WHERE project_id = "@, SqlView::Integer(from), 36, 1);
}

/// The time of the last message and the time of the change are noted each in its own place, of the
/// one session.
pub proof fn last_message_is_noted(at: i64, now: i64, id: &str, r: Statement)
    requires
        call_ensures(update_session_last_message, (at, now, id), r),
    ensures
        asks(r, "last_message_at = "@, SqlView::Integer(at)),
        asks(r, "updated_at = "@, SqlView::Integer(now)),
        asks(r, "WHERE session_id = "@, SqlView::Text(id@)),
        r.params@.len() == 3,
{
    reveal_strlit(
        "UPDATE sessions SET last_message_at = ?1, updated_at = ?2 WHERE session_id = ?3",
    );
    reveal_strlit("?");
    assert(value_views(r.params@).len() == 3);
    reveal_strlit("last_message_at = ");
    assert(decimal(1) =~= seq!['1']);
    assert(value_views(r.params@)[0] == r.params@[0]@);
    assert(r.sql@.subrange(20, 40) =~= "last_message_at = "@ + "?"@ + decimal(1));
    lemma_asks_at(r, "last_message_at = "@, SqlView::Integer(at), 20, 0);
    reveal_strlit("updated_at = ");
    assert(decimal(2) =~= seq!['2']);
    assert(value_views(r.params@)[1] == r.params@[1]@);
    assert(r.sql@.subrange(42, 57) =~= "updated_at = "@ + "?"@ + decimal(2));
    lemma_asks_at(r, "updated_at = "@, SqlView::Integer(now), 42, 1);
    reveal_strlit("WHERE session_id = ");
    assert(decimal(3) =~= seq!['3']);
    assert(value_views(r.params@)[2] == r.params@[2]@);
    assert(r.sql@.subrange(58, 79) =~= "WHERE session_id = "@ + "?"@ + decimal(3));
    lemma_asks_at(r, "WHERE session_id = "@, SqlView::Text(id@), 58, 2);
}

/// One project is deleted, by its id.
pub proof fn project_is_deleted_by_id(id: i64, r: Statement)
    requires
        call_ensures(delete_project, (id,), r),
    ensures
        asks(r, "DELETE FROM projects WHERE id = "@, SqlView::Integer(id)),
        r.params@.len() == 1,
{
    reveal_strlit(
        "DELETE FROM projects WHERE id = ?1",
    );
    reveal_strlit("?");
    assert(value_views(r.params@).len() == 1);
    reveal_strlit("DELETE FROM projects WHERE id = ");
    assert(decimal(1) =~= seq!['1']);
    assert(value_views(r.params@)[0] == r.params@[0]@);
    assert(r.sql@.subrange(0, 34) =~= "DELETE FROM projects WHERE id = "@ + "?"@ + decimal(1));
    lemma_asks_at(r, "DELETE FROM projects WHERE id = "@, SqlView::Integer(id), 0, 0);
}

/// A project is found by its path.
pub proof fn project_is_found_by_path(path: &str, r: Statement)
    requires
        call_ensures(project_id_of_path, (path,), r),
    ensures
        asks(r, "SELECT id FROM projects WHERE path = "@, SqlView::Text(path@)),
        r.params@.len() == 1,
{
    reveal_strlit(
        "SELECT id FROM projects WHERE path = ?1",
    );
    reveal_strlit("?");
    assert(value_views(r.params@).len() == 1);
    reveal_strlit("SELECT id FROM projects WHERE path = ");
    assert(decimal(1) =~= seq!['1']);
    assert(value_views(r.params@)[0] == r.params@[0]@);
    assert(r.sql@.subrange(0, 39) =~= "SELECT id FROM projects WHERE path = "@ + "?"@ + decimal(1));
    lemma_asks_at(r, "SELECT id FROM projects WHERE path = "@, SqlView::Text(path@), 0, 0);
}

/// The sessions of a project are counted among its own.
pub proof fn sessions_of_a_project_are_counted(id: i64, r: Statement)
    requires
        call_ensures(count_project_sessions, (id,), r),
    ensures
        asks(r, "FROM sessions WHERE project_id = "@, SqlView::Integer(id)),
        r.params@.len() == 1,
{
    reveal_strlit(
        "SELECT COUNT(*) FROM sessions WHERE project_id = ?1",
    );
    reveal_strlit("?");
    assert(value_views(r.params@).len() == 1);
    reveal_strlit("FROM sessions WHERE project_id = ");
    assert(decimal(1) =~= seq!['1']);
    assert(value_views(r.params@)[0] == r.params@[0]@);
    assert(r.sql@.subrange(16, 51) =~= "FROM sessions WHERE project_id = "@ + "?"@ + decimal(1));
    lemma_asks_at(r, "FROM sessions WHERE project_id = "@, SqlView::Integer(id), 16, 0);
}

/// A message that could not be indexed is marked so, by its id.
pub proof fn failed_message_is_marked(id: i64, r: Statement)
    requires
        call_ensures(mark_message_index_failed, (id,), r),
    ensures
        asks(r, "SET vector_indexed = -1 WHERE id = "@, SqlView::Integer(id)),
        r.params@.len() == 1,
{
    reveal_strlit(
        "UPDATE messages SET vector_indexed = -1 WHERE id = ?1",
    );
    reveal_strlit("?");
    assert(value_views(r.params@).len() == 1);
    reveal_strlit("SET vector_indexed = -1 WHERE id = ");
    assert(decimal(1) =~= seq!['1']);
    assert(value_views(r.params@)[0] == r.params@[0]@);
    assert(r.sql@.subrange(16, 53) =~= "SET vector_indexed = -1 WHERE id = "@ + "?"@ + decimal(1));
    lemma_asks_at(r, "SET vector_indexed = -1 WHERE id = "@, SqlView::Integer(id), 16, 0);
}

/// A prefix stands for the ids that begin with it.
pub proof fn prefix_is_completed(prefix: &str, r: Statement)
    requires
        call_ensures(resolve_session_id, (prefix,), r),
    ensures
        asks(r, "WHERE session_id LIKE "@, SqlView::Text(prefix@ + "%"@)),
        says(r.sql@, "LIMIT 1"@),
        r.params@.len() == 1,
{
    reveal_strlit(
        "SELECT session_id FROM sessions WHERE session_id LIKE ?1 LIMIT 1",
    );
    reveal_strlit("?");
    assert(value_views(r.params@).len() == 1);
    reveal_strlit("WHERE session_id LIKE ");
    assert(decimal(1) =~= seq!['1']);
    assert(value_views(r.params@)[0] == r.params@[0]@);
    assert(r.sql@.subrange(32, 56) =~= "WHERE session_id LIKE "@ + "?"@ + decimal(1));
    lemma_asks_at(r, "WHERE session_id LIKE "@, SqlView::Text(prefix@ + "%"@), 32, 0);
    reveal_strlit("LIMIT 1");
    assert(r.sql@.subrange(57, 64) =~= "LIMIT 1"@);
    lemma_says_at(r.sql@, "LIMIT 1"@, 57);
}

/// The children of a session are those whose parent it is.
pub proof fn children_are_asked_of_the_parent(id: &str, r: Statement)
    requires
        call_ensures(children_of_session, (id,), r),
    ensures
        asks(r, "WHERE parent_session_id = "@, SqlView::Text(id@)),
        says(r.sql@, "SELECT DISTINCT child_session_id"@),
        r.params@.len() == 1,
{
    reveal_strlit(
        "SELECT DISTINCT child_session_id FROM session_relations WHERE parent_session_id = ?1 ORDER BY created_at ASC",
    );
    reveal_strlit("?");
    assert(value_views(r.params@).len() == 1);
    reveal_strlit("WHERE parent_session_id = ");
    assert(decimal(1) =~= seq!['1']);
    assert(value_views(r.params@)[0] == r.params@[0]@);
    assert(r.sql@.subrange(56, 84) =~= "WHERE parent_session_id = "@ + "?"@ + decimal(1));
    lemma_asks_at(r, "WHERE parent_session_id = "@, SqlView::Text(id@), 56, 0);
    reveal_strlit("SELECT DISTINCT child_session_id");
    assert(r.sql@.subrange(0, 32) =~= "SELECT DISTINCT child_session_id"@);
    lemma_says_at(r.sql@, "SELECT DISTINCT child_session_id"@, 0);
}

/// The parent of a session is the one whose child it is.
pub proof fn parent_is_asked_of_the_child(id: &str, r: Statement)
    requires
        call_ensures(parent_of_session, (id,), r),
    ensures
        asks(r, "WHERE child_session_id = "@, SqlView::Text(id@)),
        says(r.sql@, "SELECT parent_session_id"@),
        r.params@.len() == 1,
{
    reveal_strlit(
        "SELECT parent_session_id FROM session_relations WHERE child_session_id = ?1 LIMIT 1",
    );
    reveal_strlit("?");
    assert(value_views(r.params@).len() == 1);
    reveal_strlit("WHERE child_session_id = ");
    assert(decimal(1) =~= seq!['1']);
    assert(value_views(r.params@)[0] == r.params@[0]@);
    assert(r.sql@.subrange(48, 75) =~= "WHERE child_session_id = "@ + "?"@ + decimal(1));
    lemma_asks_at(r, "WHERE child_session_id = "@, SqlView::Text(id@), 48, 0);
    reveal_strlit("SELECT parent_session_id");
    assert(r.sql@.subrange(0, 24) =~= "SELECT parent_session_id"@);
    lemma_says_at(r.sql@, "SELECT parent_session_id"@, 0);
}

/// The relations of a parent are those that name it as the parent.
pub proof fn relations_of_a_parent_are_asked_for(id: &str, r: Statement)
    requires
        call_ensures(get_children_sessions, (id,), r),
    ensures
        asks(r, "WHERE parent_session_id = "@, SqlView::Text(id@)),
        says(r.sql@, "ORDER BY created_at ASC"@),
        r.params@.len() == 1,
{
    reveal_strlit(
        "
            SELECT parent_session_id, child_session_id, relation_type, source, created_at
            FROM session_relations
            WHERE parent_session_id = ?1
            ORDER BY created_at ASC
            ",
    );
    reveal_strlit("?");
    assert(value_views(r.params@).len() == 1);
    reveal_strlit("WHERE parent_session_id = ");
    assert(decimal(1) =~= seq!['1']);
    assert(value_views(r.params@)[0] == r.params@[0]@);
    assert(r.sql@.subrange(138, 166) =~= "WHERE parent_session_id = "@ + "?"@ + decimal(1));
    lemma_asks_at(r, "WHERE parent_session_id = "@, SqlView::Text(id@), 138, 0);
    reveal_strlit("ORDER BY created_at ASC");
    assert(r.sql@.subrange(179, 202) =~= "ORDER BY created_at ASC"@);
    lemma_says_at(r.sql@, "ORDER BY created_at ASC"@, 179);
}

/// The relation of a child is one that names it as the child.
pub proof fn relation_of_a_child_is_asked_for(id: &str, r: Statement)
    requires
        call_ensures(get_parent_session, (id,), r),
    ensures
        asks(r, "WHERE child_session_id = "@, SqlView::Text(id@)),
        says(r.sql@, "LIMIT 1"@),
        r.params@.len() == 1,
{
    reveal_strlit(
        "
            SELECT parent_session_id, child_session_id, relation_type, source, created_at
            FROM session_relations
            WHERE child_session_id = ?1
            LIMIT 1
            ",
    );
    reveal_strlit("?");
    assert(value_views(r.params@).len() == 1);
    reveal_strlit("WHERE child_session_id = ");
    assert(decimal(1) =~= seq!['1']);
    assert(value_views(r.params@)[0] == r.params@[0]@);
    assert(r.sql@.subrange(138, 165) =~= "WHERE child_session_id = "@ + "?"@ + decimal(1));
    lemma_asks_at(r, "WHERE child_session_id = "@, SqlView::Text(id@), 138, 0);
    reveal_strlit("LIMIT 1");
    assert(r.sql@.subrange(178, 185) =~= "LIMIT 1"@);
    lemma_says_at(r.sql@, "LIMIT 1"@, 178);
}

/// The last message of a session is that with the greatest number among the talk of the two sides.
pub proof fn last_message_is_the_highest(id: &str, r: Statement)
    requires
        call_ensures(last_message, (id,), r),
    ensures
        asks(r, "WHERE session_id = "@, SqlView::Text(id@)),
        says(r.sql@, "AND type IN ('user', 'assistant')"@),
        says(r.sql@, "ORDER BY sequence DESC"@),
        r.params@.len() == 1,
{
    reveal_strlit(
        "
            SELECT type, content_text, content_full
            FROM messages
            WHERE session_id = ?1 AND type IN ('user', 'assistant')
            ORDER BY sequence DESC
            LIMIT 1
            ",
    );
    reveal_strlit("?");
    assert(value_views(r.params@).len() == 1);
    reveal_strlit("WHERE session_id = ");
    assert(decimal(1) =~= seq!['1']);
    assert(value_views(r.params@)[0] == r.params@[0]@);
    assert(r.sql@.subrange(91, 112) =~= "WHERE session_id = "@ + "?"@ + decimal(1));
    lemma_asks_at(r, "WHERE session_id = "@, SqlView::Text(id@), 91, 0);
    reveal_strlit("AND type IN ('user', 'assistant')");
    assert(r.sql@.subrange(113, 146) =~= "AND type IN ('user', 'assistant')"@);
    lemma_says_at(r.sql@, "AND type IN ('user', 'assistant')"@, 113);
    reveal_strlit("ORDER BY sequence DESC");
    assert(r.sql@.subrange(159, 181) =~= "ORDER BY sequence DESC"@);
    lemma_says_at(r.sql@, "ORDER BY sequence DESC"@, 159);
}

/// The sessions of a project come with the last changed first.
pub proof fn sessions_of_a_project_come_newest_first(id: i64, r: Statement)
    requires
        call_ensures(queries::list_sessions, (id,), r),
    ensures
        asks(r, "WHERE project_id = "@, SqlView::Integer(id)),
        says(r.sql@, "ORDER BY updated_at DESC"@),
        r.params@.len() == 1,
{
    reveal_strlit(
        "
            SELECT id, session_id, project_id, message_count, last_message_at,
                   cwd, model, channel, file_mtime, file_size, meta,
                   session_type, source, created_at, updated_at
            FROM sessions
            WHERE project_id = ?1
            ORDER BY updated_at DESC
            ",
    );
    reveal_strlit("?");
    assert(value_views(r.params@).len() == 1);
    reveal_strlit("WHERE project_id = ");
    assert(decimal(1) =~= seq!['1']);
    assert(value_views(r.params@)[0] == r.params@[0]@);
    assert(r.sql@.subrange(251, 272) =~= "WHERE project_id = "@ + "?"@ + decimal(1));
    lemma_asks_at(r, "WHERE project_id = "@, SqlView::Integer(id), 251, 0);
    reveal_strlit("ORDER BY updated_at DESC");
    assert(r.sql@.subrange(285, 309) =~= "ORDER BY updated_at DESC"@);
    lemma_says_at(r.sql@, "ORDER BY updated_at DESC"@, 285);
}

/// The sessions of a path come with the last changed first and without the agents, a page at a time.
pub proof fn sessions_of_a_path_come_newest_first(path: &str, limit: usize, offset: usize, r: Statement)
    requires
        call_ensures(list_sessions_of_path, (path, limit, offset), r),
    ensures
        asks(r, "WHERE p.path = "@, SqlView::Text(path@)),
        asks(r, "LIMIT "@, SqlView::Integer(limit as i64)),
        asks(r, "OFFSET "@, SqlView::Integer(offset as i64)),
        says(r.sql@, "AND s.session_id NOT LIKE 'agent-%'"@),
        says(r.sql@, "ORDER BY s.updated_at DESC"@),
        r.params@.len() == 3,
{
    reveal_strlit(
        "
            SELECT s.id, s.session_id, s.project_id, p.name, p.path,
                   s.message_count, s.last_message_at,
                   s.cwd, s.model, s.channel, s.file_mtime, s.file_size, s.encoded_dir_name, s.meta,
                   s.session_type, s.source,
                   s.created_at, s.updated_at
            FROM sessions s
            INNER JOIN projects p ON s.project_id = p.id
            WHERE p.path = ?1 AND s.session_id NOT LIKE 'agent-%'
            ORDER BY s.updated_at DESC
            LIMIT ?2 OFFSET ?3
            ",
    );
    reveal_strlit("?");
    assert(value_views(r.params@).len() == 3);
    reveal_strlit("WHERE p.path = ");
    assert(decimal(1) =~= seq!['1']);
    assert(value_views(r.params@)[0] == r.params@[0]@);
    assert(r.sql@.subrange(414, 431) =~= "WHERE p.path = "@ + "?"@ + decimal(1));
    lemma_asks_at(r, "WHERE p.path = "@, SqlView::Text(path@), 414, 0);
    reveal_strlit("LIMIT ");
    assert(decimal(2) =~= seq!['2']);
    assert(value_views(r.params@)[1] == r.params@[1]@);
    assert(r.sql@.subrange(519, 527) =~= "LIMIT "@ + "?"@ + decimal(2));
    lemma_asks_at(r, "LIMIT "@, SqlView::Integer(limit as i64), 519, 1);
    reveal_strlit("OFFSET ");
    assert(decimal(3) =~= seq!['3']);
    assert(value_views(r.params@)[2] == r.params@[2]@);
    assert(r.sql@.subrange(528, 537) =~= "OFFSET "@ + "?"@ + decimal(3));
    lemma_asks_at(r, "OFFSET "@, SqlView::Integer(offset as i64), 528, 2);
    reveal_strlit("AND s.session_id NOT LIKE 'agent-%'");
    assert(r.sql@.subrange(432, 467) =~= "AND s.session_id NOT LIKE 'agent-%'"@);
    lemma_says_at(r.sql@, "AND s.session_id NOT LIKE 'agent-%'"@, 432);
    reveal_strlit("ORDER BY s.updated_at DESC");
    assert(r.sql@.subrange(480, 506) =~= "ORDER BY s.updated_at DESC"@);
    lemma_says_at(r.sql@, "ORDER BY s.updated_at DESC"@, 480);
}

/// The projects come with the last active first, a page at a time.
pub proof fn projects_come_last_active_first(limit: usize, offset: usize, r: Statement)
    requires
        call_ensures(list_projects_with_stats, (limit, offset), r),
    ensures
        asks(r, "LIMIT "@, SqlView::Integer(limit as i64)),
        asks(r, "OFFSET "@, SqlView::Integer(offset as i64)),
        says(r.sql@, "ORDER BY last_active DESC NULLS LAST"@),
        r.params@.len() == 2,
{
    reveal_strlit(
        "
            SELECT
                p.id,
                p.name,
                p.path,
                COUNT(DISTINCT s.id) as session_count,
                COALESCE(SUM(s.message_count), 0) as message_count,
                MAX(COALESCE(s.last_message_at, s.updated_at)) as last_active
            FROM projects p
            LEFT JOIN sessions s ON s.project_id = p.id
            GROUP BY p.id
            ORDER BY last_active DESC NULLS LAST
            LIMIT ?1 OFFSET ?2
            ",
    );
    reveal_strlit("?");
    assert(value_views(r.params@).len() == 2);
    reveal_strlit("LIMIT ");
    assert(decimal(1) =~= seq!['1']);
    assert(value_views(r.params@)[0] == r.params@[0]@);
    assert(r.sql@.subrange(462, 470) =~= "LIMIT "@ + "?"@ + decimal(1));
    lemma_asks_at(r, "LIMIT "@, SqlView::Integer(limit as i64), 462, 0);
    reveal_strlit("OFFSET ");
    assert(decimal(2) =~= seq!['2']);
    assert(value_views(r.params@)[1] == r.params@[1]@);
    assert(r.sql@.subrange(471, 480) =~= "OFFSET "@ + "?"@ + decimal(2));
    lemma_asks_at(r, "OFFSET "@, SqlView::Integer(offset as i64), 471, 1);
    reveal_strlit("ORDER BY last_active DESC NULLS LAST");
    assert(r.sql@.subrange(413, 449) =~= "ORDER BY last_active DESC NULLS LAST"@);
    lemma_says_at(r.sql@, "ORDER BY last_active DESC NULLS LAST"@, 413);
}

/// How far a file has been read is kept each number in its own place, of the one session.
pub proof fn reading_place_is_kept(offset: i64, mtime: i64, size: i64, inode: i64, now: i64, id: &str, r: Statement)
    requires
        call_ensures(update_session_incremental_state, (offset, mtime, size, inode, now, id), r),
    ensures
        asks(r, "file_offset = "@, SqlView::Integer(offset)),
        asks(r, "file_mtime = "@, SqlView::Integer(mtime)),
        asks(r, "file_size = "@, SqlView::Integer(size)),
        asks(r, "file_inode = "@, SqlView::Integer(inode)),
        asks(r, "updated_at = "@, SqlView::Integer(now)),
        asks(r, "WHERE session_id = "@, SqlView::Text(id@)),
        r.params@.len() == 6,
{
    reveal_strlit(
        "
            UPDATE sessions SET
                file_offset = ?1,
                file_mtime = ?2,
                file_size = ?3,
                file_inode = ?4,
                updated_at = ?5
            WHERE session_id = ?6
            ",
    );
    reveal_strlit("?");
    assert(value_views(r.params@).len() == 6);
    reveal_strlit("file_offset = ");
    assert(decimal(1) =~= seq!['1']);
    assert(value_views(r.params@)[0] == r.params@[0]@);
    assert(r.sql@.subrange(49, 65) =~= "file_offset = "@ + "?"@ + decimal(1));
    lemma_asks_at(r, "file_offset = "@, SqlView::Integer(offset), 49, 0);
    reveal_strlit("file_mtime = ");
    assert(decimal(2) =~= seq!['2']);
    assert(value_views(r.params@)[1] == r.params@[1]@);
    assert(r.sql@.subrange(83, 98) =~= "file_mtime = "@ + "?"@ + decimal(2));
    lemma_asks_at(r, "file_mtime = "@, SqlView::Integer(mtime), 83, 1);
    reveal_strlit("file_size = ");
    assert(decimal(3) =~= seq!['3']);
    assert(value_views(r.params@)[2] == r.params@[2]@);
    assert(r.sql@.subrange(116, 130) =~= "file_size = "@ + "?"@ + decimal(3));
    lemma_asks_at(r, "file_size = "@, SqlView::Integer(size), 116, 2);
    reveal_strlit("file_inode = ");
    assert(decimal(4) =~= seq!['4']);
    assert(value_views(r.params@)[3] == r.params@[3]@);
    assert(r.sql@.subrange(148, 163) =~= "file_inode = "@ + "?"@ + decimal(4));
    lemma_asks_at(r, "file_inode = "@, SqlView::Integer(inode), 148, 3);
    reveal_strlit("updated_at = ");
    assert(decimal(5) =~= seq!['5']);
    assert(value_views(r.params@)[4] == r.params@[4]@);
    assert(r.sql@.subrange(181, 196) =~= "updated_at = "@ + "?"@ + decimal(5));
    lemma_asks_at(r, "updated_at = "@, SqlView::Integer(now), 181, 4);
    reveal_strlit("WHERE session_id = ");
    assert(decimal(6) =~= seq!['6']);
    assert(value_views(r.params@)[5] == r.params@[5]@);
    assert(r.sql@.subrange(209, 230) =~= "WHERE session_id = "@ + "?"@ + decimal(6));
    lemma_asks_at(r, "WHERE session_id = "@, SqlView::Text(id@), 209, 5);
}

/// The messages that wait for the index are those of the assistant that are not in it, the oldest
/// first.
pub proof fn unindexed_messages_come_oldest_first(limit: usize, r: Statement)
    requires
        call_ensures(get_unindexed_messages, (limit,), r),
    ensures
        asks(r, "LIMIT "@, SqlView::Integer(limit as i64)),
        says(r.sql@, "WHERE vector_indexed = 0 AND type = 'assistant'"@),
        says(r.sql@, "ORDER BY id ASC"@),
        r.params@.len() == 1,
{
    reveal_strlit(
        "
            SELECT id, session_id, uuid, type, content_text, content_full, timestamp, sequence,
                   source, channel, model, tool_call_id, tool_name, tool_args, raw, vector_indexed,
                   approval_status, approval_resolved_at
            FROM messages
            WHERE vector_indexed = 0 AND type = 'assistant'
            ORDER BY id ASC
            LIMIT ?1
            ",
    );
    reveal_strlit("?");
    assert(value_views(r.params@).len() == 1);
    reveal_strlit("LIMIT ");
    assert(decimal(1) =~= seq!['1']);
    assert(value_views(r.params@)[0] == r.params@[0]@);
    assert(r.sql@.subrange(380, 388) =~= "LIMIT "@ + "?"@ + decimal(1));
    lemma_asks_at(r, "LIMIT "@, SqlView::Integer(limit as i64), 380, 0);
    reveal_strlit("WHERE vector_indexed = 0 AND type = 'assistant'");
    assert(r.sql@.subrange(292, 339) =~= "WHERE vector_indexed = 0 AND type = 'assistant'"@);
    lemma_says_at(r.sql@, "WHERE vector_indexed = 0 AND type = 'assistant'"@, 292);
    reveal_strlit("ORDER BY id ASC");
    assert(r.sql@.subrange(352, 367) =~= "ORDER BY id ASC"@);
    lemma_says_at(r.sql@, "ORDER BY id ASC"@, 352);
}

/// The messages that failed are those marked so, the oldest first.
pub proof fn failed_messages_come_oldest_first(limit: usize, r: Statement)
    requires
        call_ensures(get_failed_indexed_messages, (limit,), r),
    ensures
        asks(r, "LIMIT "@, SqlView::Integer(limit as i64)),
        says(r.sql@, "WHERE vector_indexed = -1"@),
        says(r.sql@, "ORDER BY id ASC"@),
        r.params@.len() == 1,
{
    reveal_strlit(
        "
            SELECT id, session_id, uuid, type, content_text, content_full, timestamp, sequence,
                   source, channel, model, tool_call_id, tool_name, tool_args, raw, vector_indexed,
                   approval_status, approval_resolved_at
            FROM messages
            WHERE vector_indexed = -1
            ORDER BY id ASC
            LIMIT ?1
            ",
    );
    reveal_strlit("?");
    assert(value_views(r.params@).len() == 1);
    reveal_strlit("LIMIT ");
    assert(decimal(1) =~= seq!['1']);
    assert(value_views(r.params@)[0] == r.params@[0]@);
    assert(r.sql@.subrange(358, 366) =~= "LIMIT "@ + "?"@ + decimal(1));
    lemma_asks_at(r, "LIMIT "@, SqlView::Integer(limit as i64), 358, 0);
    reveal_strlit("WHERE vector_indexed = -1");
    assert(r.sql@.subrange(292, 317) =~= "WHERE vector_indexed = -1"@);
    lemma_says_at(r.sql@, "WHERE vector_indexed = -1"@, 292);
    reveal_strlit("ORDER BY id ASC");
    assert(r.sql@.subrange(330, 345) =~= "ORDER BY id ASC"@);
    lemma_says_at(r.sql@, "ORDER BY id ASC"@, 330);
}

/// The approvals of a session that are pending come in the order of the session.
pub proof fn pending_approvals_come_in_order(id: &str, r: Statement)
    requires
        call_ensures(get_pending_approvals, (id,), r),
    ensures
        asks(r, "WHERE session_id = "@, SqlView::Text(id@)),
        says(r.sql@, "AND approval_status = 'pending'"@),
        says(r.sql@, "ORDER BY sequence ASC"@),
        r.params@.len() == 1,
{
    reveal_strlit(
        "
            SELECT id, session_id, uuid, type, content_text, content_full, timestamp, sequence,
                   source, channel, model, tool_call_id, tool_name, tool_args, raw, vector_indexed,
                   approval_status, approval_resolved_at
            FROM messages
            WHERE session_id = ?1 AND approval_status = 'pending'
            ORDER BY sequence ASC
            ",
    );
    reveal_strlit("?");
    assert(value_views(r.params@).len() == 1);
    reveal_strlit("WHERE session_id = ");
    assert(decimal(1) =~= seq!['1']);
    assert(value_views(r.params@)[0] == r.params@[0]@);
    assert(r.sql@.subrange(292, 313) =~= "WHERE session_id = "@ + "?"@ + decimal(1));
    lemma_asks_at(r, "WHERE session_id = "@, SqlView::Text(id@), 292, 0);
    reveal_strlit("AND approval_status = 'pending'");
    assert(r.sql@.subrange(314, 345) =~= "AND approval_status = 'pending'"@);
    lemma_says_at(r.sql@, "AND approval_status = 'pending'"@, 314);
    reveal_strlit("ORDER BY sequence ASC");
    assert(r.sql@.subrange(358, 379) =~= "ORDER BY sequence ASC"@);
    lemma_says_at(r.sql@, "ORDER BY sequence ASC"@, 358);
}

/// What became of an approval is noted with its time at the one message.
pub proof fn approval_is_noted_by_uuid(uuid: &str, status: ApprovalStatus, at: i64, r: Statement)
    requires
        call_ensures(update_approval_status, (uuid, status, at), r),
    ensures
        asks(r, "approval_status = "@, SqlView::Text(status.word())),
        asks(r, "approval_resolved_at = "@, SqlView::Integer(at)),
        asks(r, "WHERE uuid = "@, SqlView::Text(uuid@)),
        r.params@.len() == 3,
{
    reveal_strlit(
        "
            UPDATE messages
            SET approval_status = ?1, approval_resolved_at = ?2
            WHERE uuid = ?3
            ",
    );
    reveal_strlit("?");
    assert(value_views(r.params@).len() == 3);
    reveal_strlit("approval_status = ");
    assert(decimal(1) =~= seq!['1']);
    assert(value_views(r.params@)[0] == r.params@[0]@);
    assert(r.sql@.subrange(45, 65) =~= "approval_status = "@ + "?"@ + decimal(1));
    lemma_asks_at(r, "approval_status = "@, SqlView::Text(status.word()), 45, 0);
    reveal_strlit("approval_resolved_at = ");
    assert(decimal(2) =~= seq!['2']);
    assert(value_views(r.params@)[1] == r.params@[1]@);
    assert(r.sql@.subrange(67, 92) =~= "approval_resolved_at = "@ + "?"@ + decimal(2));
    lemma_asks_at(r, "approval_resolved_at = "@, SqlView::Integer(at), 67, 1);
    reveal_strlit("WHERE uuid = ");
    assert(decimal(3) =~= seq!['3']);
    assert(value_views(r.params@)[2] == r.params@[2]@);
    assert(r.sql@.subrange(105, 120) =~= "WHERE uuid = "@ + "?"@ + decimal(3));
    lemma_asks_at(r, "WHERE uuid = "@, SqlView::Text(uuid@), 105, 2);
}

/// What became of an approval is noted with its time at the one call.
pub proof fn approval_is_noted_by_call(call: &str, status: ApprovalStatus, at: i64, r: Statement)
    requires
        call_ensures(update_approval_status_by_tool_call_id, (call, status, at), r),
    ensures
        asks(r, "approval_status = "@, SqlView::Text(status.word())),
        asks(r, "approval_resolved_at = "@, SqlView::Integer(at)),
        asks(r, "WHERE tool_call_id = "@, SqlView::Text(call@)),
        r.params@.len() == 3,
{
    reveal_strlit(
        "
            UPDATE messages
            SET approval_status = ?1, approval_resolved_at = ?2
            WHERE tool_call_id = ?3
            ",
    );
    reveal_strlit("?");
    assert(value_views(r.params@).len() == 3);
    reveal_strlit("approval_status = ");
    assert(decimal(1) =~= seq!['1']);
    assert(value_views(r.params@)[0] == r.params@[0]@);
    assert(r.sql@.subrange(45, 65) =~= "approval_status = "@ + "?"@ + decimal(1));
    lemma_asks_at(r, "approval_status = "@, SqlView::Text(status.word()), 45, 0);
    reveal_strlit("approval_resolved_at = ");
    assert(decimal(2) =~= seq!['2']);
    assert(value_views(r.params@)[1] == r.params@[1]@);
    assert(r.sql@.subrange(67, 92) =~= "approval_resolved_at = "@ + "?"@ + decimal(2));
    lemma_asks_at(r, "approval_resolved_at = "@, SqlView::Integer(at), 67, 1);
    reveal_strlit("WHERE tool_call_id = ");
    assert(decimal(3) =~= seq!['3']);
    assert(value_views(r.params@)[2] == r.params@[2]@);
    assert(r.sql@.subrange(105, 128) =~= "WHERE tool_call_id = "@ + "?"@ + decimal(3));
    lemma_asks_at(r, "WHERE tool_call_id = "@, SqlView::Text(call@), 105, 2);
}

/// The summaries of a session come with the oldest first.
pub proof fn talks_come_oldest_first(id: &str, r: Statement)
    requires
        call_ensures(get_talk_summaries, (id,), r),
    ensures
        asks(r, "WHERE session_id = "@, SqlView::Text(id@)),
        says(r.sql@, "ORDER BY created_at ASC"@),
        r.params@.len() == 1,
{
    reveal_strlit(
        "
            SELECT id, session_id, talk_id, summary_l2, summary_l3, created_at, updated_at
            FROM talks
            WHERE session_id = ?1
            ORDER BY created_at ASC
            ",
    );
    reveal_strlit("?");
    assert(value_views(r.params@).len() == 1);
    reveal_strlit("WHERE session_id = ");
    assert(decimal(1) =~= seq!['1']);
    assert(value_views(r.params@)[0] == r.params@[0]@);
    assert(r.sql@.subrange(127, 148) =~= "WHERE session_id = "@ + "?"@ + decimal(1));
    lemma_asks_at(r, "WHERE session_id = "@, SqlView::Text(id@), 127, 0);
    reveal_strlit("ORDER BY created_at ASC");
    assert(r.sql@.subrange(161, 184) =~= "ORDER BY created_at ASC"@);
    lemma_says_at(r.sql@, "ORDER BY created_at ASC"@, 161);
}

/// A relation is stored from parent to child, unless it is stored already.
pub proof fn relation_is_stored_once(parent: &str, child: &str, kind: &str, source: &str, r: Statement)
    requires
        call_ensures(insert_session_relation, (parent, child, kind, source), r),
    ensures
        asks(r, "VALUES ("@, SqlView::Text(parent@)),
        asks(r, "VALUES (?1, "@, SqlView::Text(child@)),
        asks(r, "?2, "@, SqlView::Text(kind@)),
        asks(r, "?3, "@, SqlView::Text(source@)),
        says(r.sql@, "INSERT OR IGNORE INTO session_relations (parent_session_id, child_session_id, relation_type, source)"@),
        r.params@.len() == 4,
{
    reveal_strlit(
        "
            INSERT OR IGNORE INTO session_relations (parent_session_id, child_session_id, relation_type, source)
            VALUES (?1, ?2, ?3, ?4)
            ",
    );
    reveal_strlit("?");
    assert(value_views(r.params@).len() == 4);
    reveal_strlit("VALUES (");
    assert(decimal(1) =~= seq!['1']);
    assert(value_views(r.params@)[0] == r.params@[0]@);
    assert(r.sql@.subrange(126, 136) =~= "VALUES ("@ + "?"@ + decimal(1));
    lemma_asks_at(r, "VALUES ("@, SqlView::Text(parent@), 126, 0);
    reveal_strlit("VALUES (?1, ");
    assert(decimal(2) =~= seq!['2']);
    assert(value_views(r.params@)[1] == r.params@[1]@);
    assert(r.sql@.subrange(126, 140) =~= "VALUES (?1, "@ + "?"@ + decimal(2));
    lemma_asks_at(r, "VALUES (?1, "@, SqlView::Text(child@), 126, 1);
    reveal_strlit("?2, ");
    assert(decimal(3) =~= seq!['3']);
    assert(value_views(r.params@)[2] == r.params@[2]@);
    assert(r.sql@.subrange(138, 144) =~= "?2, "@ + "?"@ + decimal(3));
    lemma_asks_at(r, "?2, "@, SqlView::Text(kind@), 138, 2);
    reveal_strlit("?3, ");
    assert(decimal(4) =~= seq!['4']);
    assert(value_views(r.params@)[3] == r.params@[3]@);
    assert(r.sql@.subrange(142, 148) =~= "?3, "@ + "?"@ + decimal(4));
    lemma_asks_at(r, "?3, "@, SqlView::Text(source@), 142, 3);
    reveal_strlit("INSERT OR IGNORE INTO session_relations (parent_session_id, child_session_id, relation_type, source)");
    assert(r.sql@.subrange(13, 113) =~= "INSERT OR IGNORE INTO session_relations (parent_session_id, child_session_id, relation_type, source)"@);
    lemma_says_at(r.sql@, "INSERT OR IGNORE INTO session_relations (parent_session_id, child_session_id, relation_type, source)"@, 13);
}

/// A heartbeat renews the place of the writer that sends it and no other.
pub proof fn writer_renews_its_own_place(c: &Coordinator, now: i64, r: Statement)
    requires
        call_ensures(renew_writer, (c, now), r),
    ensures
        asks(r, "SET heartbeat = "@, SqlView::Integer(now)),
        asks(r, "AND writer_id = "@, SqlView::Text(c.writer_id@)),
        r.params@.len() == 2,
{
    reveal_strlit(
        "UPDATE writer_registry SET heartbeat = ?1 WHERE id = 1 AND writer_id = ?2",
    );
    reveal_strlit("?");
    assert(value_views(r.params@).len() == 2);
    reveal_strlit("SET heartbeat = ");
    assert(decimal(1) =~= seq!['1']);
    assert(value_views(r.params@)[0] == r.params@[0]@);
    assert(r.sql@.subrange(23, 41) =~= "SET heartbeat = "@ + "?"@ + decimal(1));
    lemma_asks_at(r, "SET heartbeat = "@, SqlView::Integer(now), 23, 0);
    reveal_strlit("AND writer_id = ");
    assert(decimal(2) =~= seq!['2']);
    assert(value_views(r.params@)[1] == r.params@[1]@);
    assert(r.sql@.subrange(55, 73) =~= "AND writer_id = "@ + "?"@ + decimal(2));
    lemma_asks_at(r, "AND writer_id = "@, SqlView::Text(c.writer_id@), 55, 1);
}

/// A writer that leaves empties its own place and no other.
pub proof fn writer_leaves_its_own_place(c: &Coordinator, r: Statement)
    requires
        call_ensures(release_writer, (c,), r),
    ensures
        asks(r, "AND writer_id = "@, SqlView::Text(c.writer_id@)),
        r.params@.len() == 1,
{
    reveal_strlit(
        "DELETE FROM writer_registry WHERE id = 1 AND writer_id = ?1",
    );
    reveal_strlit("?");
    assert(value_views(r.params@).len() == 1);
    reveal_strlit("AND writer_id = ");
    assert(decimal(1) =~= seq!['1']);
    assert(value_views(r.params@)[0] == r.params@[0]@);
    assert(r.sql@.subrange(41, 59) =~= "AND writer_id = "@ + "?"@ + decimal(1));
    lemma_asks_at(r, "AND writer_id = "@, SqlView::Text(c.writer_id@), 41, 0);
}

/// A place is claimed for the writer that claims it, from one that has been silent for longer than it
/// may or that ranks below.
pub proof fn place_is_claimed_from_the_silent_or_the_lesser(c: &Coordinator, now: i64, r: Statement)
    requires
        call_ensures(claim_writer, (c, now), r),
    ensures
        asks(r, "VALUES (1, "@, SqlView::Text(c.writer_type.word())),
        asks(r, "?1, "@, SqlView::Text(c.writer_id@)),
        asks(r, "?2, "@, SqlView::Integer(c.writer_type.rank() as i64)),
        asks(r, "?3, "@, SqlView::Integer(now)),
        asks(r, "- writer_registry.heartbeat) > "@, SqlView::Integer(c.config.timeout_threshold_ms as i64)),
        says(r.sql@, "OR excluded.priority > writer_registry.priority"@),
        r.params@.len() == 5,
{
    reveal_strlit(
        "
            INSERT INTO writer_registry (id, writer_type, writer_id, priority, heartbeat, registered_at)
            VALUES (1, ?1, ?2, ?3, ?4, ?4)
            ON CONFLICT(id) DO UPDATE SET
                writer_type = excluded.writer_type,
                writer_id = excluded.writer_id,
                priority = excluded.priority,
                heartbeat = excluded.heartbeat,
                registered_at = excluded.registered_at
            WHERE
                (?4 - writer_registry.heartbeat) > ?5
                OR excluded.priority > writer_registry.priority
            ",
    );
    reveal_strlit("?");
    assert(value_views(r.params@).len() == 5);
    reveal_strlit("VALUES (1, ");
    assert(decimal(1) =~= seq!['1']);
    assert(value_views(r.params@)[0] == r.params@[0]@);
    assert(r.sql@.subrange(118, 131) =~= "VALUES (1, "@ + "?"@ + decimal(1));
    lemma_asks_at(r, "VALUES (1, "@, SqlView::Text(c.writer_type.word()), 118, 0);
    reveal_strlit("?1, ");
    assert(decimal(2) =~= seq!['2']);
    assert(value_views(r.params@)[1] == r.params@[1]@);
    assert(r.sql@.subrange(129, 135) =~= "?1, "@ + "?"@ + decimal(2));
    lemma_asks_at(r, "?1, "@, SqlView::Text(c.writer_id@), 129, 1);
    reveal_strlit("?2, ");
    assert(decimal(3) =~= seq!['3']);
    assert(value_views(r.params@)[2] == r.params@[2]@);
    assert(r.sql@.subrange(133, 139) =~= "?2, "@ + "?"@ + decimal(3));
    lemma_asks_at(r, "?2, "@, SqlView::Integer(c.writer_type.rank() as i64), 133, 2);
    reveal_strlit("?3, ");
    assert(decimal(4) =~= seq!['4']);
    assert(value_views(r.params@)[3] == r.params@[3]@);
    assert(r.sql@.subrange(137, 143) =~= "?3, "@ + "?"@ + decimal(4));
    lemma_asks_at(r, "?3, "@, SqlView::Integer(now), 137, 3);
    reveal_strlit("- writer_registry.heartbeat) > ");
    assert(decimal(5) =~= seq!['5']);
    assert(value_views(r.params@)[4] == r.params@[4]@);
    assert(r.sql@.subrange(478, 511) =~= "- writer_registry.heartbeat) > "@ + "?"@ + decimal(5));
    lemma_asks_at(r, "- writer_registry.heartbeat) > "@, SqlView::Integer(c.config.timeout_threshold_ms as i64), 478, 4);
    reveal_strlit("OR excluded.priority > writer_registry.priority");
    assert(r.sql@.subrange(528, 575) =~= "OR excluded.priority > writer_registry.priority"@);
    lemma_says_at(r.sql@, "OR excluded.priority > writer_registry.priority"@, 528);
}

/// A place is taken over from a writer that has been silent for longer than it may.
pub proof fn place_is_taken_over_from_the_silent(c: &Coordinator, now: i64, r: Statement)
    requires
        call_ensures(take_over_writer, (c, now), r),
    ensures
        asks(r, "writer_type = "@, SqlView::Text(c.writer_type.word())),
        asks(r, "writer_id = "@, SqlView::Text(c.writer_id@)),
        asks(r, "priority = "@, SqlView::Integer(c.writer_type.rank() as i64)),
        asks(r, "heartbeat = "@, SqlView::Integer(now)),
        asks(r, "- heartbeat) > "@, SqlView::Integer(c.config.timeout_threshold_ms as i64)),
        r.params@.len() == 5,
{
    reveal_strlit(
        "
            UPDATE writer_registry SET
                writer_type = ?1,
                writer_id = ?2,
                priority = ?3,
                heartbeat = ?4,
                registered_at = ?4
            WHERE id = 1
              AND (?4 - heartbeat) > ?5
            ",
    );
    reveal_strlit("?");
    assert(value_views(r.params@).len() == 5);
    reveal_strlit("writer_type = ");
    assert(decimal(1) =~= seq!['1']);
    assert(value_views(r.params@)[0] == r.params@[0]@);
    assert(r.sql@.subrange(56, 72) =~= "writer_type = "@ + "?"@ + decimal(1));
    lemma_asks_at(r, "writer_type = "@, SqlView::Text(c.writer_type.word()), 56, 0);
    reveal_strlit("writer_id = ");
    assert(decimal(2) =~= seq!['2']);
    assert(value_views(r.params@)[1] == r.params@[1]@);
    assert(r.sql@.subrange(90, 104) =~= "writer_id = "@ + "?"@ + decimal(2));
    lemma_asks_at(r, "writer_id = "@, SqlView::Text(c.writer_id@), 90, 1);
    reveal_strlit("priority = ");
    assert(decimal(3) =~= seq!['3']);
    assert(value_views(r.params@)[2] == r.params@[2]@);
    assert(r.sql@.subrange(122, 135) =~= "priority = "@ + "?"@ + decimal(3));
    lemma_asks_at(r, "priority = "@, SqlView::Integer(c.writer_type.rank() as i64), 122, 2);
    reveal_strlit("heartbeat = ");
    assert(decimal(4) =~= seq!['4']);
    assert(value_views(r.params@)[3] == r.params@[3]@);
    assert(r.sql@.subrange(153, 167) =~= "heartbeat = "@ + "?"@ + decimal(4));
    lemma_asks_at(r, "heartbeat = "@, SqlView::Integer(now), 153, 3);
    reveal_strlit("- heartbeat) > ");
    assert(decimal(5) =~= seq!['5']);
    assert(value_views(r.params@)[4] == r.params@[4]@);
    assert(r.sql@.subrange(251, 268) =~= "- heartbeat) > "@ + "?"@ + decimal(5));
    lemma_asks_at(r, "- heartbeat) > "@, SqlView::Integer(c.config.timeout_threshold_ms as i64), 251, 4);
}

/// The messages of a session come in its order, the last first where that is asked for; a page at a
/// time, or all where no limit is given.
pub proof fn messages_come_in_the_order_asked_for(
    id: &str,
    limit: usize,
    offset: usize,
    last_first: bool,
    a: Statement,
    b: Statement,
    c: Statement,
    d: Statement,
    e: Statement,
)
    requires
        call_ensures(list_messages_ordered, (id, limit, offset, last_first), a),
        call_ensures(list_messages, (id, limit, offset), b),
        call_ensures(get_messages_with_options, (id, Some(limit), last_first), c),
        call_ensures(get_messages_with_options, (id, None, last_first), d),
        call_ensures(get_messages, (id,), e),
    ensures
        last_first ==> says(a.sql@, "ORDER BY sequence "@ + "DESC"@) && says(
            c.sql@,
            "ORDER BY sequence "@ + "DESC"@,
        ) && says(d.sql@, "ORDER BY sequence "@ + "DESC"@),
        !last_first ==> says(a.sql@, "ORDER BY sequence "@ + "ASC"@) && says(
            c.sql@,
            "ORDER BY sequence "@ + "ASC"@,
        ) && says(d.sql@, "ORDER BY sequence "@ + "ASC"@),
        says(b.sql@, "ORDER BY sequence "@ + "ASC"@),
        says(e.sql@, "ORDER BY sequence "@ + "ASC"@),
        says(a.sql@, " LIMIT ?2 OFFSET ?3"@) && says(b.sql@, " LIMIT ?2 OFFSET ?3"@),
        value_views(a.params@) == seq![
            SqlView::Text(id@),
            SqlView::Integer(limit as i64),
            SqlView::Integer(offset as i64),
        ],
        value_views(b.params@) == value_views(a.params@),
        value_views(c.params@) == seq![SqlView::Text(id@), SqlView::Integer(limit as i64)],
        value_views(d.params@) == seq![SqlView::Text(id@), SqlView::Integer(i64::MAX)],
        value_views(e.params@) == value_views(d.params@),
{
    reveal_strlit("session_id = ?1 ORDER BY sequence ");
    reveal_strlit("ORDER BY sequence ");
    reveal_strlit("DESC");
    reveal_strlit("ASC");
    let way = if last_first {
        "DESC"@
    } else {
        "ASC"@
    };
    lemma_ordered(a, way, " LIMIT ?2 OFFSET ?3"@);
    lemma_ordered(b, "ASC"@, " LIMIT ?2 OFFSET ?3"@);
    lemma_ordered(c, way, " LIMIT ?2"@);
    lemma_ordered(d, way, " LIMIT ?2"@);
    lemma_ordered(e, "ASC"@, " LIMIT ?2"@);
}

proof fn lemma_ordered(s: Statement, way: Seq<char>, tail: Seq<char>)
    requires
        s.sql@ == crate::db::MESSAGE_SELECT@ + "session_id = ?1 ORDER BY sequence "@ + way + tail,
    ensures
        says(s.sql@, "ORDER BY sequence "@ + way),
        says(s.sql@, tail),
{
    reveal_strlit("session_id = ?1 ORDER BY sequence ");
    reveal_strlit("ORDER BY sequence ");
    let head = crate::db::MESSAGE_SELECT@;
    let at = head.len() as int + 16;
    let part = "ORDER BY sequence "@ + way;
    assert("session_id = ?1 ORDER BY sequence "@.subrange(16, 34) =~= "ORDER BY sequence "@);
    assert(s.sql@.subrange(at, at + part.len()) =~= part);
    lemma_says_at(s.sql@, part, at);
    let end = s.sql@.len() - tail.len();
    assert(s.sql@.subrange(end, end + tail.len()) =~= tail);
    lemma_says_at(s.sql@, tail, end);
}

/// Messages that were indexed are marked so and messages that failed are marked so, each by its id; with
/// none there is nothing to mark.
pub proof fn messages_are_marked_by_id(
    ids: &Vec<i64>,
    a: Option<Statement>,
    b: Option<Statement>,
    c: Option<Statement>,
)
    requires
        call_ensures(mark_messages_indexed, (ids,), a),
        call_ensures(mark_messages_index_failed, (ids,), b),
        call_ensures(get_messages_by_ids, (ids,), c),
    ensures
        a is Some <==> ids@.len() > 0,
        b is Some <==> ids@.len() > 0,
        c is Some <==> ids@.len() > 0,
        ids@.len() > 0 ==> {
            &&& says(a->0.sql@, "SET vector_indexed = 1 WHERE id IN ("@)
            &&& says(b->0.sql@, "SET vector_indexed = -1 WHERE id IN ("@)
            &&& says(c->0.sql@, ") ORDER BY id ASC"@)
            &&& value_views(a->0.params@) == ids@.map_values(|n: i64| SqlView::Integer(n))
            &&& value_views(b->0.params@) == ids@.map_values(|n: i64| SqlView::Integer(n))
            &&& value_views(c->0.params@) == ids@.map_values(|n: i64| SqlView::Integer(n))
        },
{
    if ids@.len() > 0 {
        reveal_strlit("UPDATE messages SET vector_indexed = 1 WHERE id IN (");
        reveal_strlit("UPDATE messages SET vector_indexed = -1 WHERE id IN (");
        reveal_strlit("SET vector_indexed = 1 WHERE id IN (");
        reveal_strlit("SET vector_indexed = -1 WHERE id IN (");
        let one = "SET vector_indexed = 1 WHERE id IN ("@;
        let other = "SET vector_indexed = -1 WHERE id IN ("@;
        assert(a->0.sql@.subrange(16, 16 + one.len() as int) =~= one);
        lemma_says_at(a->0.sql@, one, 16);
        assert(b->0.sql@.subrange(16, 16 + other.len() as int) =~= other);
        lemma_says_at(b->0.sql@, other, 16);
        let tail = ") ORDER BY id ASC"@;
        let end = c->0.sql@.len() - tail.len();
        assert(c->0.sql@.subrange(end, end + tail.len()) =~= tail);
        lemma_says_at(c->0.sql@, tail, end);
    }
}

/// The sessions of a project, or all of them, come with the last changed first, no more than asked for.
pub proof fn sessions_come_last_changed_first(
    project: Option<i64>,
    limit: usize,
    r: Statement,
)
    requires
        call_ensures(get_sessions, (project, limit), r),
    ensures
        says(r.sql@, "ORDER BY updated_at DESC LIMIT "@),
        project is None ==> value_views(r.params@) == seq![SqlView::Integer(limit as i64)],
        project is Some ==> says(r.sql@, "WHERE project_id = ?1"@) && value_views(r.params@)
            == seq![SqlView::Integer(project->0), SqlView::Integer(limit as i64)],
{
    reveal_strlit("ORDER BY updated_at DESC LIMIT ");
    reveal_strlit("ORDER BY updated_at DESC LIMIT ?1");
    reveal_strlit("WHERE project_id = ?1");
    reveal_strlit("WHERE project_id = ?1 ORDER BY updated_at DESC LIMIT ?2");
    let order = "ORDER BY updated_at DESC LIMIT "@;
    let from = "WHERE project_id = ?1"@;
    let n = crate::db::SESSION_SELECT@.len() as int;
    if project is Some {
        assert(r.sql@.subrange(n, n + from.len()) =~= from);
        lemma_says_at(r.sql@, from, n);
        assert(r.sql@.subrange(n + 22, n + 22 + order.len()) =~= order);
        lemma_says_at(r.sql@, order, n + 22);
    } else {
        assert(r.sql@.subrange(n, n + order.len()) =~= order);
        lemma_says_at(r.sql@, order, n);
    }
}

/// A message is written with its own values, each in its own place, under the session it belongs to.
pub proof fn message_is_bound_place_by_place(id: &str, m: &MessageInput, r: Statement)
    requires
        call_ensures(insert_message_statement, (id, m), r),
    ensures
        r.params@.len() >= 14,
        r.params@[0]@ == SqlView::Text(id@),
        r.params@[1]@ == SqlView::Text(m.uuid@),
        r.params@[3]@ == SqlView::Text(m.content_text@),
        r.params@[4]@ == SqlView::Text(m.content_full@),
        r.params@[5]@ == SqlView::Integer(m.timestamp),
        r.params@[6]@ == SqlView::Integer(m.sequence),
        m.raw is Some ==> r.params@[13]@ == SqlView::Text(m.raw->0@),
        m.raw is None ==> r.params@[13]@ == SqlView::Null,
        says(r.sql@, "INSERT INTO messages (session_id, uuid, type, content_text, content_full, timestamp, sequence, source, channel, model, tool_call_id, tool_name, tool_args, raw, approval_status, approval_resolved_at)"@),
        says(r.sql@, "VALUES (?1, ?2, ?3, ?4, ?5, ?6, ?7, ?8, ?9, ?10, ?11, ?12, ?13, ?14, ?15, ?16)"@),
{
    reveal_strlit(
        "
                INSERT INTO messages (session_id, uuid, type, content_text, content_full, timestamp, sequence, source, channel, model, tool_call_id, tool_name, tool_args, raw, approval_status, approval_resolved_at)
                VALUES (?1, ?2, ?3, ?4, ?5, ?6, ?7, ?8, ?9, ?10, ?11, ?12, ?13, ?14, ?15, ?16)
                ON CONFLICT(uuid) DO NOTHING
                ",
    );
    reveal_strlit("INSERT INTO messages (session_id, uuid, type, content_text, content_full, timestamp, sequence, source, channel, model, tool_call_id, tool_name, tool_args, raw, approval_status, approval_resolved_at)");
    assert(r.sql@.subrange(17, 215) =~= "INSERT INTO messages (session_id, uuid, type, content_text, content_full, timestamp, sequence, source, channel, model, tool_call_id, tool_name, tool_args, raw, approval_status, approval_resolved_at)"@);
    lemma_says_at(r.sql@, "INSERT INTO messages (session_id, uuid, type, content_text, content_full, timestamp, sequence, source, channel, model, tool_call_id, tool_name, tool_args, raw, approval_status, approval_resolved_at)"@, 17);
    reveal_strlit("VALUES (?1, ?2, ?3, ?4, ?5, ?6, ?7, ?8, ?9, ?10, ?11, ?12, ?13, ?14, ?15, ?16)");
    assert(r.sql@.subrange(232, 310) =~= "VALUES (?1, ?2, ?3, ?4, ?5, ?6, ?7, ?8, ?9, ?10, ?11, ?12, ?13, ?14, ?15, ?16)"@);
    lemma_says_at(r.sql@, "VALUES (?1, ?2, ?3, ?4, ?5, ?6, ?7, ?8, ?9, ?10, ?11, ?12, ?13, ?14, ?15, ?16)"@, 232);
    let v = value_views(r.params@);
    assert(v.len() == r.params@.len());
    assert(v[0] == r.params@[0]@ && v[1] == r.params@[1]@ && v[3] == r.params@[3]@ && v[4]
        == r.params@[4]@ && v[5] == r.params@[5]@ && v[6] == r.params@[6]@ && v[13]
        == r.params@[13]@);
}

/// The children of many sessions are asked for by their parents, the parents by their children; each
/// session that is given is asked for.
pub proof fn kin_of_many_is_asked_for(ids: &Vec<String>, a: Statement, b: Statement)
    requires
        call_ensures(children_statement, (ids,), a),
        call_ensures(parents_statement, (ids,), b),
    ensures
        says(a.sql@, "WHERE parent_session_id IN ("@),
        says(b.sql@, "WHERE child_session_id IN ("@),
        a.params@.len() == ids@.len(),
        b.params@.len() == ids@.len(),
        forall|i: int|
            0 <= i < ids@.len() ==> (#[trigger] a.params@[i])@ == SqlView::Text(ids@[i]@),
        forall|i: int|
            0 <= i < ids@.len() ==> (#[trigger] b.params@[i])@ == SqlView::Text(ids@[i]@),
{
    reveal_strlit("WHERE parent_session_id IN (");
    reveal_strlit("WHERE child_session_id IN (");
    reveal_strlit(
        "SELECT parent_session_id, child_session_id FROM session_relations WHERE parent_session_id IN (",
    );
    reveal_strlit(
        "SELECT child_session_id, parent_session_id FROM session_relations WHERE child_session_id IN (",
    );
    assert(a.sql@.subrange(66, 94) =~= "WHERE parent_session_id IN ("@);
    lemma_says_at(a.sql@, "WHERE parent_session_id IN ("@, 66);
    assert(b.sql@.subrange(66, 93) =~= "WHERE child_session_id IN ("@);
    lemma_says_at(b.sql@, "WHERE child_session_id IN ("@, 66);
    assert(value_views(a.params@).len() == a.params@.len());
    assert(value_views(b.params@).len() == b.params@.len());
    assert forall|i: int| 0 <= i < ids@.len() implies (#[trigger] a.params@[i])@ == SqlView::Text(
        ids@[i]@,
    ) by {
        assert(value_views(a.params@)[i] == a.params@[i]@);
    }
    assert forall|i: int| 0 <= i < ids@.len() implies (#[trigger] b.params@[i])@ == SqlView::Text(
        ids@[i]@,
    ) by {
        assert(value_views(b.params@)[i] == b.params@[i]@);
    }
}

/// A session is written with what is said of it, each in its own column; what is not said does not take
/// the place of what was known.
pub proof fn session_is_bound_column_by_column(input: &SessionInput, now: i64, r: Statement)
    requires
        call_ensures(queries::upsert_session_full, (input, now), r),
    ensures
        says(r.sql@, "INSERT INTO sessions (session_id, project_id, cwd, model, channel, message_count, file_mtime, file_size, file_offset, file_inode, meta, session_type, source, created_at, updated_at)"@),
        says(r.sql@, "VALUES (?1, ?2, ?3, ?4, ?5, ?6, ?7, ?8, ?9, ?10, ?11, ?12, ?13, ?14, ?14)"@),
        says(r.sql@, "cwd = COALESCE(excluded.cwd, sessions.cwd)"@),
        says(r.sql@, "file_offset = COALESCE(excluded.file_offset, sessions.file_offset)"@),
        says(r.sql@, "updated_at = excluded.updated_at"@),
        r.params@.len() == 14,
        r.params@[0]@ == SqlView::Text(input.session_id@),
        r.params@[1]@ == SqlView::Integer(input.project_id),
        r.params@[2]@ == text_or_null(input.cwd),
        r.params@[3]@ == text_or_null(input.model),
        r.params@[4]@ == text_or_null(input.channel),
        r.params@[5]@ == integer_or_null(input.message_count),
        r.params@[6]@ == integer_or_null(input.file_mtime),
        r.params@[7]@ == integer_or_null(input.file_size),
        r.params@[8]@ == integer_or_null(input.file_offset),
        r.params@[9]@ == integer_or_null(input.file_inode),
        r.params@[10]@ == text_or_null(input.meta),
        r.params@[11]@ == text_or_null(input.session_type),
        r.params@[12]@ == text_or_null(input.source),
        r.params@[13]@ == SqlView::Integer(now),
{
    reveal_strlit(
        "
            INSERT INTO sessions (session_id, project_id, cwd, model, channel, message_count, file_mtime, file_size, file_offset, file_inode, meta, session_type, source, created_at, updated_at)
            VALUES (?1, ?2, ?3, ?4, ?5, ?6, ?7, ?8, ?9, ?10, ?11, ?12, ?13, ?14, ?14)
            ON CONFLICT(session_id) DO UPDATE SET
                cwd = COALESCE(excluded.cwd, sessions.cwd),
                model = COALESCE(excluded.model, sessions.model),
                channel = COALESCE(excluded.channel, sessions.channel),
                message_count = COALESCE(excluded.message_count, sessions.message_count),
                file_mtime = COALESCE(excluded.file_mtime, sessions.file_mtime),
                file_size = COALESCE(excluded.file_size, sessions.file_size),
                file_offset = COALESCE(excluded.file_offset, sessions.file_offset),
                file_inode = COALESCE(excluded.file_inode, sessions.file_inode),
                meta = COALESCE(excluded.meta, sessions.meta),
                session_type = COALESCE(excluded.session_type, sessions.session_type),
                source = COALESCE(excluded.source, sessions.source),
                updated_at = excluded.updated_at
            ",
    );
    reveal_strlit("INSERT INTO sessions (session_id, project_id, cwd, model, channel, message_count, file_mtime, file_size, file_offset, file_inode, meta, session_type, source, created_at, updated_at)");
    assert(r.sql@.subrange(13, 194) =~= "INSERT INTO sessions (session_id, project_id, cwd, model, channel, message_count, file_mtime, file_size, file_offset, file_inode, meta, session_type, source, created_at, updated_at)"@);
    lemma_says_at(r.sql@, "INSERT INTO sessions (session_id, project_id, cwd, model, channel, message_count, file_mtime, file_size, file_offset, file_inode, meta, session_type, source, created_at, updated_at)"@, 13);
    reveal_strlit("VALUES (?1, ?2, ?3, ?4, ?5, ?6, ?7, ?8, ?9, ?10, ?11, ?12, ?13, ?14, ?14)");
    assert(r.sql@.subrange(207, 280) =~= "VALUES (?1, ?2, ?3, ?4, ?5, ?6, ?7, ?8, ?9, ?10, ?11, ?12, ?13, ?14, ?14)"@);
    lemma_says_at(r.sql@, "VALUES (?1, ?2, ?3, ?4, ?5, ?6, ?7, ?8, ?9, ?10, ?11, ?12, ?13, ?14, ?14)"@, 207);
    reveal_strlit("cwd = COALESCE(excluded.cwd, sessions.cwd)");
    assert(r.sql@.subrange(347, 389) =~= "cwd = COALESCE(excluded.cwd, sessions.cwd)"@);
    lemma_says_at(r.sql@, "cwd = COALESCE(excluded.cwd, sessions.cwd)"@, 347);
    reveal_strlit("file_offset = COALESCE(excluded.file_offset, sessions.file_offset)");
    assert(r.sql@.subrange(794, 860) =~= "file_offset = COALESCE(excluded.file_offset, sessions.file_offset)"@);
    lemma_says_at(r.sql@, "file_offset = COALESCE(excluded.file_offset, sessions.file_offset)"@, 794);
    reveal_strlit("updated_at = excluded.updated_at");
    assert(r.sql@.subrange(1178, 1210) =~= "updated_at = excluded.updated_at"@);
    lemma_says_at(r.sql@, "updated_at = excluded.updated_at"@, 1178);
    let v = value_views(r.params@);
    assert(v.len() == r.params@.len());
    assert(v[0] == r.params@[0]@);
    assert(v[1] == r.params@[1]@);
    assert(v[2] == r.params@[2]@);
    assert(v[3] == r.params@[3]@);
    assert(v[4] == r.params@[4]@);
    assert(v[5] == r.params@[5]@);
    assert(v[6] == r.params@[6]@);
    assert(v[7] == r.params@[7]@);
    assert(v[8] == r.params@[8]@);
    assert(v[9] == r.params@[9]@);
    assert(v[10] == r.params@[10]@);
    assert(v[11] == r.params@[11]@);
    assert(v[12] == r.params@[12]@);
    assert(v[13] == r.params@[13]@);
}

/// A value that is there is bound as it is, and one that is not as none.
pub proof fn missing_values_are_none(text: String, number: i64)
    ensures
        text_or_null(Some(text)) == SqlView::Text(text@),
        text_or_null(None) == SqlView::Null,
        integer_or_null(Some(number)) == SqlView::Integer(number),
        integer_or_null(None) == SqlView::Null,
{
}

/// A session that is seen is written under its id and its project, at the time it was seen.
pub proof fn seen_session_is_bound(id: &str, project: i64, now: i64, r: Statement)
    requires
        call_ensures(queries::upsert_session, (id, project, now), r),
    ensures
        says(r.sql@, "INSERT INTO sessions (session_id, project_id, created_at, updated_at)"@),
        says(r.sql@, "VALUES (?1, ?2, ?3, ?3)"@),
        r.params@.len() == 3,
        r.params@[0]@ == SqlView::Text(id@),
        r.params@[1]@ == SqlView::Integer(project),
        r.params@[2]@ == SqlView::Integer(now),
{
    reveal_strlit(
        "
            INSERT INTO sessions (session_id, project_id, created_at, updated_at)
            VALUES (?1, ?2, ?3, ?3)
            ON CONFLICT(session_id) DO UPDATE SET
                updated_at = excluded.updated_at
            ",
    );
    reveal_strlit("INSERT INTO sessions (session_id, project_id, created_at, updated_at)");
    assert(r.sql@.subrange(13, 82) =~= "INSERT INTO sessions (session_id, project_id, created_at, updated_at)"@);
    lemma_says_at(r.sql@, "INSERT INTO sessions (session_id, project_id, created_at, updated_at)"@, 13);
    reveal_strlit("VALUES (?1, ?2, ?3, ?3)");
    assert(r.sql@.subrange(95, 118) =~= "VALUES (?1, ?2, ?3, ?3)"@);
    lemma_says_at(r.sql@, "VALUES (?1, ?2, ?3, ?3)"@, 95);
    let v = value_views(r.params@);
    assert(v.len() == r.params@.len());
    assert(v[0] == r.params@[0]@);
    assert(v[1] == r.params@[1]@);
    assert(v[2] == r.params@[2]@);
}

/// A talk is written with its summaries, each in its own column; a longer one that is not given does not
/// take the place of the one that was known.
pub proof fn talk_is_bound_column_by_column(
    session: &str,
    talk: &str,
    short: &str,
    long: Option<&str>,
    now: i64,
    r: Statement,
)
    requires
        call_ensures(queries::upsert_talk_summary, (session, talk, short, long, now), r),
    ensures
        says(r.sql@, "INSERT INTO talks (session_id, talk_id, summary_l2, summary_l3, created_at, updated_at)"@),
        says(r.sql@, "VALUES (?1, ?2, ?3, ?4, ?5, ?5)"@),
        says(r.sql@, "summary_l2 = excluded.summary_l2"@),
        says(r.sql@, "summary_l3 = COALESCE(excluded.summary_l3, talks.summary_l3)"@),
        r.params@.len() == 5,
        r.params@[0]@ == SqlView::Text(session@),
        r.params@[1]@ == SqlView::Text(talk@),
        r.params@[2]@ == SqlView::Text(short@),
        long is Some ==> r.params@[3]@ == SqlView::Text(long->0@),
        long is None ==> r.params@[3]@ == SqlView::Null,
        r.params@[4]@ == SqlView::Integer(now),
{
    reveal_strlit(
        "
            INSERT INTO talks (session_id, talk_id, summary_l2, summary_l3, created_at, updated_at)
            VALUES (?1, ?2, ?3, ?4, ?5, ?5)
            ON CONFLICT(session_id, talk_id) DO UPDATE SET
                summary_l2 = excluded.summary_l2,
                summary_l3 = COALESCE(excluded.summary_l3, talks.summary_l3),
                updated_at = excluded.updated_at
            ",
    );
    reveal_strlit("INSERT INTO talks (session_id, talk_id, summary_l2, summary_l3, created_at, updated_at)");
    assert(r.sql@.subrange(13, 100) =~= "INSERT INTO talks (session_id, talk_id, summary_l2, summary_l3, created_at, updated_at)"@);
    lemma_says_at(r.sql@, "INSERT INTO talks (session_id, talk_id, summary_l2, summary_l3, created_at, updated_at)"@, 13);
    reveal_strlit("VALUES (?1, ?2, ?3, ?4, ?5, ?5)");
    assert(r.sql@.subrange(113, 144) =~= "VALUES (?1, ?2, ?3, ?4, ?5, ?5)"@);
    lemma_says_at(r.sql@, "VALUES (?1, ?2, ?3, ?4, ?5, ?5)"@, 113);
    reveal_strlit("summary_l2 = excluded.summary_l2");
    assert(r.sql@.subrange(220, 252) =~= "summary_l2 = excluded.summary_l2"@);
    lemma_says_at(r.sql@, "summary_l2 = excluded.summary_l2"@, 220);
    reveal_strlit("summary_l3 = COALESCE(excluded.summary_l3, talks.summary_l3)");
    assert(r.sql@.subrange(270, 330) =~= "summary_l3 = COALESCE(excluded.summary_l3, talks.summary_l3)"@);
    lemma_says_at(r.sql@, "summary_l3 = COALESCE(excluded.summary_l3, talks.summary_l3)"@, 270);
    let v = value_views(r.params@);
    assert(v.len() == r.params@.len());
    assert(v[0] == r.params@[0]@);
    assert(v[1] == r.params@[1]@);
    assert(v[2] == r.params@[2]@);
    assert(v[3] == r.params@[3]@);
    assert(v[4] == r.params@[4]@);
}

/// A vacant place is filled by the writer that fills it.
pub proof fn vacancy_is_filled(c: &Coordinator, now: i64, r: Statement)
    requires
        call_ensures(fill_vacancy, (c, now), r),
    ensures
        says(r.sql@, "INSERT INTO writer_registry (id, writer_type, writer_id, priority, heartbeat, registered_at)"@),
        says(r.sql@, "VALUES (1, ?1, ?2, ?3, ?4, ?4)"@),
        r.params@.len() == 4,
        r.params@[0]@ == SqlView::Text(c.writer_type.word()),
        r.params@[1]@ == SqlView::Text(c.writer_id@),
        r.params@[2]@ == SqlView::Integer(c.writer_type.rank() as i64),
        r.params@[3]@ == SqlView::Integer(now),
{
    reveal_strlit(
        "
                INSERT INTO writer_registry (id, writer_type, writer_id, priority, heartbeat, registered_at)
                VALUES (1, ?1, ?2, ?3, ?4, ?4)
                ",
    );
    reveal_strlit("INSERT INTO writer_registry (id, writer_type, writer_id, priority, heartbeat, registered_at)");
    assert(r.sql@.subrange(17, 109) =~= "INSERT INTO writer_registry (id, writer_type, writer_id, priority, heartbeat, registered_at)"@);
    lemma_says_at(r.sql@, "INSERT INTO writer_registry (id, writer_type, writer_id, priority, heartbeat, registered_at)"@, 17);
    reveal_strlit("VALUES (1, ?1, ?2, ?3, ?4, ?4)");
    assert(r.sql@.subrange(126, 156) =~= "VALUES (1, ?1, ?2, ?3, ?4, ?4)"@);
    lemma_says_at(r.sql@, "VALUES (1, ?1, ?2, ?3, ?4, ?4)"@, 126);
    let v = value_views(r.params@);
    assert(v.len() == r.params@.len());
    assert(v[0] == r.params@[0]@);
    assert(v[1] == r.params@[1]@);
    assert(v[2] == r.params@[2]@);
    assert(v[3] == r.params@[3]@);
}

} // verus!

//! What holds of what is asked of the store for reading, pushing and archiving.
use vstd::prelude::*;
use crate::archive;
use crate::laws::searching::{asks, says};
use crate::laws::stating::{lemma_asks_at, lemma_says_at};
use crate::queries;
use crate::sql::{value_views, SqlView, Statement};
use crate::sync::client;
use crate::sync::db as sync_db;
use crate::text::decimal;

verus! {

/// A project is read by its id.
pub proof fn project_is_read_by_id(id: i64, r: Statement)
    requires
        call_ensures(queries::get_project, (id,), r),
    ensures
        asks(r, "FROM projects WHERE id = "@, SqlView::Integer(id)),
        r.params@.len() == 1,
{
    reveal_strlit(
        "SELECT id, name, path, source, encoded_dir_name, created_at, updated_at FROM projects WHERE id = ?1",
    );
    reveal_strlit("?");
    assert(value_views(r.params@).len() == 1);
    reveal_strlit("FROM projects WHERE id = ");
    assert(decimal(1) =~= seq!['1']);
    assert(value_views(r.params@)[0] == r.params@[0]@);
    assert(r.sql@.subrange(72, 99) =~= "FROM projects WHERE id = "@ + "?"@ + decimal(1));
    lemma_asks_at(r, "FROM projects WHERE id = "@, SqlView::Integer(id), 72, 0);
}

/// A project is read by its path.
pub proof fn project_is_read_by_path(path: &str, r: Statement)
    requires
        call_ensures(queries::get_project_by_path, (path,), r),
    ensures
        asks(r, "FROM projects WHERE path = "@, SqlView::Text(path@)),
        r.params@.len() == 1,
{
    reveal_strlit(
        "SELECT id, name, path, source, encoded_dir_name, created_at, updated_at FROM projects WHERE path = ?1",
    );
    reveal_strlit("?");
    assert(value_views(r.params@).len() == 1);
    reveal_strlit("FROM projects WHERE path = ");
    assert(decimal(1) =~= seq!['1']);
    assert(value_views(r.params@)[0] == r.params@[0]@);
    assert(r.sql@.subrange(72, 101) =~= "FROM projects WHERE path = "@ + "?"@ + decimal(1));
    lemma_asks_at(r, "FROM projects WHERE path = "@, SqlView::Text(path@), 72, 0);
}

/// A session is read with the project that it belongs to, by its id.
pub proof fn session_is_read_with_its_project(id: &str, r: Statement)
    requires
        call_ensures(queries::get_session_with_project, (id,), r),
    ensures
        asks(r, "WHERE s.session_id = "@, SqlView::Text(id@)),
        says(r.sql@, "INNER JOIN projects p ON s.project_id = p.id"@),
        r.params@.len() == 1,
{
    reveal_strlit(
        "
            SELECT s.id, s.session_id, s.project_id, p.name, p.path,
                   s.message_count, s.last_message_at,
                   s.cwd, s.model, s.channel, s.file_mtime, s.file_size, s.encoded_dir_name, s.meta,
                   s.session_type, s.source,
                   s.created_at, s.updated_at
            FROM sessions s
            INNER JOIN projects p ON s.project_id = p.id
            WHERE s.session_id = ?1
            ",
    );
    reveal_strlit("?");
    assert(value_views(r.params@).len() == 1);
    reveal_strlit("WHERE s.session_id = ");
    assert(decimal(1) =~= seq!['1']);
    assert(value_views(r.params@)[0] == r.params@[0]@);
    assert(r.sql@.subrange(414, 437) =~= "WHERE s.session_id = "@ + "?"@ + decimal(1));
    lemma_asks_at(r, "WHERE s.session_id = "@, SqlView::Text(id@), 414, 0);
    reveal_strlit("INNER JOIN projects p ON s.project_id = p.id");
    assert(r.sql@.subrange(357, 401) =~= "INNER JOIN projects p ON s.project_id = p.id"@);
    lemma_says_at(r.sql@, "INNER JOIN projects p ON s.project_id = p.id"@, 357);
}

/// A session is read by its id.
pub proof fn session_is_read_by_id(id: &str, r: Statement)
    requires
        call_ensures(queries::get_session, (id,), r),
    ensures
        asks(r, "WHERE session_id = "@, SqlView::Text(id@)),
        r.params@.len() == 1,
{
    reveal_strlit(
        "
            SELECT id, session_id, project_id, message_count, last_message_at,
                   cwd, model, channel, file_mtime, file_size, meta,
                   session_type, source, created_at, updated_at
            FROM sessions
            WHERE session_id = ?1
            ",
    );
    reveal_strlit("?");
    assert(value_views(r.params@).len() == 1);
    reveal_strlit("WHERE session_id = ");
    assert(decimal(1) =~= seq!['1']);
    assert(value_views(r.params@)[0] == r.params@[0]@);
    assert(r.sql@.subrange(251, 272) =~= "WHERE session_id = "@ + "?"@ + decimal(1));
    lemma_asks_at(r, "WHERE session_id = "@, SqlView::Text(id@), 251, 0);
}

/// The sessions of a prefix come with the last changed first.
pub proof fn sessions_of_a_prefix_come_newest_first(prefix: &str, limit: usize, r: Statement)
    requires
        call_ensures(queries::search_sessions_by_prefix, (prefix, limit), r),
    ensures
        asks(r, "WHERE session_id LIKE "@, SqlView::Text(prefix@ + "%"@)),
        asks(r, "LIMIT "@, SqlView::Integer(limit as i64)),
        says(r.sql@, "ORDER BY updated_at DESC"@),
        r.params@.len() == 2,
{
    reveal_strlit(
        "
            SELECT id, session_id, project_id, message_count, last_message_at,
                   cwd, model, channel, file_mtime, file_size, meta,
                   session_type, source, created_at, updated_at
            FROM sessions
            WHERE session_id LIKE ?1
            ORDER BY updated_at DESC
            LIMIT ?2
            ",
    );
    reveal_strlit("?");
    assert(value_views(r.params@).len() == 2);
    reveal_strlit("WHERE session_id LIKE ");
    assert(decimal(1) =~= seq!['1']);
    assert(value_views(r.params@)[0] == r.params@[0]@);
    assert(r.sql@.subrange(251, 275) =~= "WHERE session_id LIKE "@ + "?"@ + decimal(1));
    lemma_asks_at(r, "WHERE session_id LIKE "@, SqlView::Text(prefix@ + "%"@), 251, 0);
    reveal_strlit("LIMIT ");
    assert(decimal(2) =~= seq!['2']);
    assert(value_views(r.params@)[1] == r.params@[1]@);
    assert(r.sql@.subrange(325, 333) =~= "LIMIT "@ + "?"@ + decimal(2));
    lemma_asks_at(r, "LIMIT "@, SqlView::Integer(limit as i64), 325, 1);
    reveal_strlit("ORDER BY updated_at DESC");
    assert(r.sql@.subrange(288, 312) =~= "ORDER BY updated_at DESC"@);
    lemma_says_at(r.sql@, "ORDER BY updated_at DESC"@, 288);
}

/// The checkpoint of a session is the time of its last message.
pub proof fn checkpoint_is_the_last_message(id: &str, r: Statement)
    requires
        call_ensures(queries::scan_checkpoint, (id,), r),
    ensures
        asks(r, "WHERE session_id = "@, SqlView::Text(id@)),
        says(r.sql@, "SELECT last_message_at FROM sessions"@),
        r.params@.len() == 1,
{
    reveal_strlit(
        "SELECT last_message_at FROM sessions WHERE session_id = ?1",
    );
    reveal_strlit("?");
    assert(value_views(r.params@).len() == 1);
    reveal_strlit("WHERE session_id = ");
    assert(decimal(1) =~= seq!['1']);
    assert(value_views(r.params@)[0] == r.params@[0]@);
    assert(r.sql@.subrange(37, 58) =~= "WHERE session_id = "@ + "?"@ + decimal(1));
    lemma_asks_at(r, "WHERE session_id = "@, SqlView::Text(id@), 37, 0);
    reveal_strlit("SELECT last_message_at FROM sessions");
    assert(r.sql@.subrange(0, 36) =~= "SELECT last_message_at FROM sessions"@);
    lemma_says_at(r.sql@, "SELECT last_message_at FROM sessions"@, 0);
}

/// The time of a session file is asked for by its session.
pub proof fn file_time_is_asked_for(id: &str, r: Statement)
    requires
        call_ensures(queries::get_session_file_mtime, (id,), r),
    ensures
        asks(r, "WHERE session_id = "@, SqlView::Text(id@)),
        says(r.sql@, "SELECT file_mtime FROM sessions"@),
        r.params@.len() == 1,
{
    reveal_strlit(
        "SELECT file_mtime FROM sessions WHERE session_id = ?1",
    );
    reveal_strlit("?");
    assert(value_views(r.params@).len() == 1);
    reveal_strlit("WHERE session_id = ");
    assert(decimal(1) =~= seq!['1']);
    assert(value_views(r.params@)[0] == r.params@[0]@);
    assert(r.sql@.subrange(32, 53) =~= "WHERE session_id = "@ + "?"@ + decimal(1));
    lemma_asks_at(r, "WHERE session_id = "@, SqlView::Text(id@), 32, 0);
    reveal_strlit("SELECT file_mtime FROM sessions");
    assert(r.sql@.subrange(0, 31) =~= "SELECT file_mtime FROM sessions"@);
    lemma_says_at(r.sql@, "SELECT file_mtime FROM sessions"@, 0);
}

/// How far a file was read is asked for by its session.
pub proof fn reading_place_is_asked_for(id: &str, r: Statement)
    requires
        call_ensures(queries::incremental_state, (id,), r),
    ensures
        asks(r, "WHERE session_id = "@, SqlView::Text(id@)),
        says(r.sql@, "SELECT file_offset, file_mtime, file_size, file_inode"@),
        r.params@.len() == 1,
{
    reveal_strlit(
        "SELECT file_offset, file_mtime, file_size, file_inode FROM sessions WHERE session_id = ?1",
    );
    reveal_strlit("?");
    assert(value_views(r.params@).len() == 1);
    reveal_strlit("WHERE session_id = ");
    assert(decimal(1) =~= seq!['1']);
    assert(value_views(r.params@)[0] == r.params@[0]@);
    assert(r.sql@.subrange(68, 89) =~= "WHERE session_id = "@ + "?"@ + decimal(1));
    lemma_asks_at(r, "WHERE session_id = "@, SqlView::Text(id@), 68, 0);
    reveal_strlit("SELECT file_offset, file_mtime, file_size, file_inode");
    assert(r.sql@.subrange(0, 53) =~= "SELECT file_offset, file_mtime, file_size, file_inode"@);
    lemma_says_at(r.sql@, "SELECT file_offset, file_mtime, file_size, file_inode"@, 0);
}

/// The count of a session is that of its own messages.
pub proof fn message_count_is_brought_up_to_date(id: &str, now: i64, r: Statement)
    requires
        call_ensures(queries::update_message_count, (id, now), r),
    ensures
        asks(r, "FROM messages WHERE session_id = "@, SqlView::Text(id@)),
        asks(r, "updated_at = "@, SqlView::Integer(now)),
        r.params@.len() == 2,
{
    reveal_strlit(
        "
            UPDATE sessions SET
                message_count = (SELECT COUNT(*) FROM messages WHERE session_id = ?1),
                updated_at = ?2
            WHERE session_id = ?1
            ",
    );
    reveal_strlit("?");
    assert(value_views(r.params@).len() == 2);
    reveal_strlit("FROM messages WHERE session_id = ");
    assert(decimal(1) =~= seq!['1']);
    assert(value_views(r.params@)[0] == r.params@[0]@);
    assert(r.sql@.subrange(82, 117) =~= "FROM messages WHERE session_id = "@ + "?"@ + decimal(1));
    lemma_asks_at(r, "FROM messages WHERE session_id = "@, SqlView::Text(id@), 82, 0);
    reveal_strlit("updated_at = ");
    assert(decimal(2) =~= seq!['2']);
    assert(value_views(r.params@)[1] == r.params@[1]@);
    assert(r.sql@.subrange(136, 151) =~= "updated_at = "@ + "?"@ + decimal(2));
    lemma_asks_at(r, "updated_at = "@, SqlView::Integer(now), 136, 1);
}

/// The messages that failed are counted by their mark.
pub proof fn failed_messages_are_counted(r: Statement)
    requires
        call_ensures(queries::count_failed_indexed_messages, (), r),
    ensures
        says(r.sql@, "WHERE vector_indexed = -1"@),
        r.params@.len() == 0,
{
    reveal_strlit(
        "SELECT COUNT(*) FROM messages WHERE vector_indexed = -1",
    );
    reveal_strlit("?");
    reveal_strlit("WHERE vector_indexed = -1");
    assert(r.sql@.subrange(30, 55) =~= "WHERE vector_indexed = -1"@);
    lemma_says_at(r.sql@, "WHERE vector_indexed = -1"@, 30);
}

/// The messages that wait for the index are counted: the assistant's that are not in it.
pub proof fn unindexed_messages_are_counted(r: Statement)
    requires
        call_ensures(queries::count_unindexed_messages, (), r),
    ensures
        says(r.sql@, "WHERE vector_indexed = 0 AND type = 'assistant'"@),
        r.params@.len() == 0,
{
    reveal_strlit(
        "SELECT COUNT(*) FROM messages WHERE vector_indexed = 0 AND type = 'assistant'",
    );
    reveal_strlit("?");
    reveal_strlit("WHERE vector_indexed = 0 AND type = 'assistant'");
    assert(r.sql@.subrange(30, 77) =~= "WHERE vector_indexed = 0 AND type = 'assistant'"@);
    lemma_says_at(r.sql@, "WHERE vector_indexed = 0 AND type = 'assistant'"@, 30);
}

/// Messages that failed wait for the index again.
pub proof fn failed_messages_are_tried_again(r: Statement)
    requires
        call_ensures(queries::reset_failed_indexed_messages, (), r),
    ensures
        says(r.sql@, "SET vector_indexed = 0 WHERE vector_indexed = -1"@),
        r.params@.len() == 0,
{
    reveal_strlit(
        "UPDATE messages SET vector_indexed = 0 WHERE vector_indexed = -1",
    );
    reveal_strlit("?");
    reveal_strlit("SET vector_indexed = 0 WHERE vector_indexed = -1");
    assert(r.sql@.subrange(16, 64) =~= "SET vector_indexed = 0 WHERE vector_indexed = -1"@);
    lemma_says_at(r.sql@, "SET vector_indexed = 0 WHERE vector_indexed = -1"@, 16);
}

/// Projects that share a path are found together.
pub proof fn projects_of_one_path_are_found(r: Statement)
    requires
        call_ensures(queries::duplicate_projects, (), r),
    ensures
        says(r.sql@, "GROUP BY path"@),
        says(r.sql@, "HAVING COUNT(*) > 1"@),
        r.params@.len() == 0,
{
    reveal_strlit(
        "
            SELECT path, GROUP_CONCAT(id) as ids
            FROM projects
            GROUP BY path
            HAVING COUNT(*) > 1
            ",
    );
    reveal_strlit("?");
    reveal_strlit("GROUP BY path");
    assert(r.sql@.subrange(88, 101) =~= "GROUP BY path"@);
    lemma_says_at(r.sql@, "GROUP BY path"@, 88);
    reveal_strlit("HAVING COUNT(*) > 1");
    assert(r.sql@.subrange(114, 133) =~= "HAVING COUNT(*) > 1"@);
    lemma_says_at(r.sql@, "HAVING COUNT(*) > 1"@, 114);
}

/// A project to push is read by its path.
pub proof fn pushed_project_is_read_by_path(path: &str, r: Statement)
    requires
        call_ensures(client::read_project, (path,), r),
    ensures
        asks(r, "WHERE path = "@, SqlView::Text(path@)),
        r.params@.len() == 1,
{
    reveal_strlit(
        "SELECT path, name, source, repo_url FROM projects WHERE path = ?1",
    );
    reveal_strlit("?");
    assert(value_views(r.params@).len() == 1);
    reveal_strlit("WHERE path = ");
    assert(decimal(1) =~= seq!['1']);
    assert(value_views(r.params@)[0] == r.params@[0]@);
    assert(r.sql@.subrange(50, 65) =~= "WHERE path = "@ + "?"@ + decimal(1));
    lemma_asks_at(r, "WHERE path = "@, SqlView::Text(path@), 50, 0);
}

/// A session to push is read by its id.
pub proof fn pushed_session_is_read_by_id(id: &str, r: Statement)
    requires
        call_ensures(client::read_session, (id,), r),
    ensures
        asks(r, "WHERE s.session_id = "@, SqlView::Text(id@)),
        r.params@.len() == 1,
{
    reveal_strlit(
        "
            SELECT s.session_id, p.path, s.cwd, s.model, s.channel,
                   s.message_count, s.last_message_at,
                   s.session_type, s.source, s.meta,
                   s.created_at, s.updated_at
            FROM sessions s
            JOIN projects p ON s.project_id = p.id
            WHERE s.session_id = ?1
            ",
    );
    reveal_strlit("?");
    assert(value_views(r.params@).len() == 1);
    reveal_strlit("WHERE s.session_id = ");
    assert(decimal(1) =~= seq!['1']);
    assert(value_views(r.params@)[0] == r.params@[0]@);
    assert(r.sql@.subrange(314, 337) =~= "WHERE s.session_id = "@ + "?"@ + decimal(1));
    lemma_asks_at(r, "WHERE s.session_id = "@, SqlView::Text(id@), 314, 0);
}

/// The relations to push are those that name the session on either side.
pub proof fn pushed_relations_name_the_session(id: &str, r: Statement)
    requires
        call_ensures(client::read_relations, (id,), r),
    ensures
        asks(r, "WHERE parent_session_id = "@, SqlView::Text(id@)),
        asks(r, "OR child_session_id = "@, SqlView::Text(id@)),
        r.params@.len() == 1,
{
    reveal_strlit(
        "
            SELECT parent_session_id, child_session_id, relation_type, source
            FROM session_relations
            WHERE parent_session_id = ?1 OR child_session_id = ?1
            ",
    );
    reveal_strlit("?");
    assert(value_views(r.params@).len() == 1);
    reveal_strlit("WHERE parent_session_id = ");
    assert(decimal(1) =~= seq!['1']);
    assert(value_views(r.params@)[0] == r.params@[0]@);
    assert(r.sql@.subrange(126, 154) =~= "WHERE parent_session_id = "@ + "?"@ + decimal(1));
    lemma_asks_at(r, "WHERE parent_session_id = "@, SqlView::Text(id@), 126, 0);
    reveal_strlit("OR child_session_id = ");
    assert(decimal(1) =~= seq!['1']);
    assert(value_views(r.params@)[0] == r.params@[0]@);
    assert(r.sql@.subrange(155, 179) =~= "OR child_session_id = "@ + "?"@ + decimal(1));
    lemma_asks_at(r, "OR child_session_id = "@, SqlView::Text(id@), 155, 0);
}

/// The talks to push are those of the session.
pub proof fn pushed_talks_are_those_of_the_session(id: &str, r: Statement)
    requires
        call_ensures(client::read_talks, (id,), r),
    ensures
        asks(r, "WHERE session_id = "@, SqlView::Text(id@)),
        r.params@.len() == 1,
{
    reveal_strlit(
        "
            SELECT session_id, talk_id, summary_l2, summary_l3
            FROM talks
            WHERE session_id = ?1
            ",
    );
    reveal_strlit("?");
    assert(value_views(r.params@).len() == 1);
    reveal_strlit("WHERE session_id = ");
    assert(decimal(1) =~= seq!['1']);
    assert(value_views(r.params@)[0] == r.params@[0]@);
    assert(r.sql@.subrange(99, 120) =~= "WHERE session_id = "@ + "?"@ + decimal(1));
    lemma_asks_at(r, "WHERE session_id = "@, SqlView::Text(id@), 99, 0);
}

/// The chain of a session is that which it is a node of.
pub proof fn chain_of_a_session_is_found(id: &str, r: Statement)
    requires
        call_ensures(client::chain_of_session, (id,), r),
    ensures
        asks(r, "WHERE session_id = "@, SqlView::Text(id@)),
        r.params@.len() == 1,
{
    reveal_strlit(
        "SELECT chain_id FROM continuation_chain_nodes WHERE session_id = ?1",
    );
    reveal_strlit("?");
    assert(value_views(r.params@).len() == 1);
    reveal_strlit("WHERE session_id = ");
    assert(decimal(1) =~= seq!['1']);
    assert(value_views(r.params@)[0] == r.params@[0]@);
    assert(r.sql@.subrange(46, 67) =~= "WHERE session_id = "@ + "?"@ + decimal(1));
    lemma_asks_at(r, "WHERE session_id = "@, SqlView::Text(id@), 46, 0);
}

/// A chain is read by its id.
pub proof fn chain_is_read_by_id(id: &str, r: Statement)
    requires
        call_ensures(client::read_chain, (id,), r),
    ensures
        asks(r, "WHERE chain_id = "@, SqlView::Text(id@)),
        r.params@.len() == 1,
{
    reveal_strlit(
        "SELECT chain_id, root_session_id FROM continuation_chains WHERE chain_id = ?1",
    );
    reveal_strlit("?");
    assert(value_views(r.params@).len() == 1);
    reveal_strlit("WHERE chain_id = ");
    assert(decimal(1) =~= seq!['1']);
    assert(value_views(r.params@)[0] == r.params@[0]@);
    assert(r.sql@.subrange(58, 77) =~= "WHERE chain_id = "@ + "?"@ + decimal(1));
    lemma_asks_at(r, "WHERE chain_id = "@, SqlView::Text(id@), 58, 0);
}

/// The nodes of a chain are read by its id.
pub proof fn nodes_of_a_chain_are_read(id: &str, r: Statement)
    requires
        call_ensures(client::read_chain_nodes, (id,), r),
    ensures
        asks(r, "WHERE chain_id = "@, SqlView::Text(id@)),
        r.params@.len() == 1,
{
    reveal_strlit(
        "
            SELECT session_id, chain_id, prev_session_id, depth
            FROM continuation_chain_nodes
            WHERE chain_id = ?1
            ",
    );
    reveal_strlit("?");
    assert(value_views(r.params@).len() == 1);
    reveal_strlit("WHERE chain_id = ");
    assert(decimal(1) =~= seq!['1']);
    assert(value_views(r.params@)[0] == r.params@[0]@);
    assert(r.sql@.subrange(119, 138) =~= "WHERE chain_id = "@ + "?"@ + decimal(1));
    lemma_asks_at(r, "WHERE chain_id = "@, SqlView::Text(id@), 119, 0);
}

/// The cursor of a session is asked for by its id.
pub proof fn cursor_is_asked_for(id: &str, r: Statement)
    requires
        call_ensures(sync_db::cursor_statement, (id,), r),
    ensures
        asks(r, "FROM sync_cursors WHERE session_id = "@, SqlView::Text(id@)),
        says(r.sql@, "SELECT last_sequence, last_push_at"@),
        r.params@.len() == 1,
{
    reveal_strlit(
        "SELECT last_sequence, last_push_at FROM sync_cursors WHERE session_id = ?1",
    );
    reveal_strlit("?");
    assert(value_views(r.params@).len() == 1);
    reveal_strlit("FROM sync_cursors WHERE session_id = ");
    assert(decimal(1) =~= seq!['1']);
    assert(value_views(r.params@)[0] == r.params@[0]@);
    assert(r.sql@.subrange(35, 74) =~= "FROM sync_cursors WHERE session_id = "@ + "?"@ + decimal(1));
    lemma_asks_at(r, "FROM sync_cursors WHERE session_id = "@, SqlView::Text(id@), 35, 0);
    reveal_strlit("SELECT last_sequence, last_push_at");
    assert(r.sql@.subrange(0, 34) =~= "SELECT last_sequence, last_push_at"@);
    lemma_says_at(r.sql@, "SELECT last_sequence, last_push_at"@, 0);
}

/// The cursor of a level is asked for by session and level.
pub proof fn cursor_of_a_level_is_asked_for(id: &str, level: &str, r: Statement)
    requires
        call_ensures(sync_db::get_compact_cursor, (id, level), r),
    ensures
        asks(r, "WHERE session_id = "@, SqlView::Text(id@)),
        asks(r, "AND level = "@, SqlView::Text(level@)),
        r.params@.len() == 2,
{
    reveal_strlit(
        "SELECT last_id FROM compact_cursors WHERE session_id = ?1 AND level = ?2",
    );
    reveal_strlit("?");
    assert(value_views(r.params@).len() == 2);
    reveal_strlit("WHERE session_id = ");
    assert(decimal(1) =~= seq!['1']);
    assert(value_views(r.params@)[0] == r.params@[0]@);
    assert(r.sql@.subrange(36, 57) =~= "WHERE session_id = "@ + "?"@ + decimal(1));
    lemma_asks_at(r, "WHERE session_id = "@, SqlView::Text(id@), 36, 0);
    reveal_strlit("AND level = ");
    assert(decimal(2) =~= seq!['2']);
    assert(value_views(r.params@)[1] == r.params@[1]@);
    assert(r.sql@.subrange(58, 72) =~= "AND level = "@ + "?"@ + decimal(2));
    lemma_asks_at(r, "AND level = "@, SqlView::Text(level@), 58, 1);
}

/// The cursor of a level is written each value in its own column.
pub proof fn cursor_of_a_level_is_written(id: &str, level: &str, last: &str, now: i64, r: Statement)
    requires
        call_ensures(sync_db::update_compact_cursor, (id, level, last, now), r),
    ensures
        asks(r, "VALUES ("@, SqlView::Text(id@)),
        asks(r, "?1, "@, SqlView::Text(level@)),
        asks(r, "?2, "@, SqlView::Text(last@)),
        asks(r, "?3, "@, SqlView::Integer(now)),
        says(r.sql@, "INSERT INTO compact_cursors (session_id, level, last_id, last_push_at)"@),
        r.params@.len() == 4,
{
    reveal_strlit(
        "INSERT INTO compact_cursors (session_id, level, last_id, last_push_at)
             VALUES (?1, ?2, ?3, ?4)
             ON CONFLICT(session_id, level) DO UPDATE SET
                last_id = excluded.last_id,
                last_push_at = excluded.last_push_at",
    );
    reveal_strlit("?");
    assert(value_views(r.params@).len() == 4);
    reveal_strlit("VALUES (");
    assert(decimal(1) =~= seq!['1']);
    assert(value_views(r.params@)[0] == r.params@[0]@);
    assert(r.sql@.subrange(84, 94) =~= "VALUES ("@ + "?"@ + decimal(1));
    lemma_asks_at(r, "VALUES ("@, SqlView::Text(id@), 84, 0);
    reveal_strlit("?1, ");
    assert(decimal(2) =~= seq!['2']);
    assert(value_views(r.params@)[1] == r.params@[1]@);
    assert(r.sql@.subrange(92, 98) =~= "?1, "@ + "?"@ + decimal(2));
    lemma_asks_at(r, "?1, "@, SqlView::Text(level@), 92, 1);
    reveal_strlit("?2, ");
    assert(decimal(3) =~= seq!['3']);
    assert(value_views(r.params@)[2] == r.params@[2]@);
    assert(r.sql@.subrange(96, 102) =~= "?2, "@ + "?"@ + decimal(3));
    lemma_asks_at(r, "?2, "@, SqlView::Text(last@), 96, 2);
    reveal_strlit("?3, ");
    assert(decimal(4) =~= seq!['4']);
    assert(value_views(r.params@)[3] == r.params@[3]@);
    assert(r.sql@.subrange(100, 106) =~= "?3, "@ + "?"@ + decimal(4));
    lemma_asks_at(r, "?3, "@, SqlView::Integer(now), 100, 3);
    reveal_strlit("INSERT INTO compact_cursors (session_id, level, last_id, last_push_at)");
    assert(r.sql@.subrange(0, 70) =~= "INSERT INTO compact_cursors (session_id, level, last_id, last_push_at)"@);
    lemma_says_at(r.sql@, "INSERT INTO compact_cursors (session_id, level, last_id, last_push_at)"@, 0);
}

/// The cursor of the index is asked for by its session.
pub proof fn cursor_of_the_index_is_asked_for(id: &str, r: Statement)
    requires
        call_ensures(sync_db::vector_cursor_statement, (id,), r),
    ensures
        asks(r, "FROM vector_cursors WHERE session_id = "@, SqlView::Text(id@)),
        r.params@.len() == 1,
{
    reveal_strlit(
        "SELECT last_message_id FROM vector_cursors WHERE session_id = ?1",
    );
    reveal_strlit("?");
    assert(value_views(r.params@).len() == 1);
    reveal_strlit("FROM vector_cursors WHERE session_id = ");
    assert(decimal(1) =~= seq!['1']);
    assert(value_views(r.params@)[0] == r.params@[0]@);
    assert(r.sql@.subrange(23, 64) =~= "FROM vector_cursors WHERE session_id = "@ + "?"@ + decimal(1));
    lemma_asks_at(r, "FROM vector_cursors WHERE session_id = "@, SqlView::Text(id@), 23, 0);
}

/// The cursor of the index is written each value in its own column.
pub proof fn cursor_of_the_index_is_written(id: &str, last: i64, now: i64, r: Statement)
    requires
        call_ensures(sync_db::update_vector_cursor, (id, last, now), r),
    ensures
        asks(r, "VALUES ("@, SqlView::Text(id@)),
        asks(r, "?1, "@, SqlView::Integer(last)),
        asks(r, "?2, "@, SqlView::Integer(now)),
        says(r.sql@, "INSERT INTO vector_cursors (session_id, last_message_id, last_push_at)"@),
        r.params@.len() == 3,
{
    reveal_strlit(
        "INSERT INTO vector_cursors (session_id, last_message_id, last_push_at)
             VALUES (?1, ?2, ?3)
             ON CONFLICT(session_id) DO UPDATE SET
                last_message_id = excluded.last_message_id,
                last_push_at = excluded.last_push_at",
    );
    reveal_strlit("?");
    assert(value_views(r.params@).len() == 3);
    reveal_strlit("VALUES (");
    assert(decimal(1) =~= seq!['1']);
    assert(value_views(r.params@)[0] == r.params@[0]@);
    assert(r.sql@.subrange(84, 94) =~= "VALUES ("@ + "?"@ + decimal(1));
    lemma_asks_at(r, "VALUES ("@, SqlView::Text(id@), 84, 0);
    reveal_strlit("?1, ");
    assert(decimal(2) =~= seq!['2']);
    assert(value_views(r.params@)[1] == r.params@[1]@);
    assert(r.sql@.subrange(92, 98) =~= "?1, "@ + "?"@ + decimal(2));
    lemma_asks_at(r, "?1, "@, SqlView::Integer(last), 92, 1);
    reveal_strlit("?2, ");
    assert(decimal(3) =~= seq!['3']);
    assert(value_views(r.params@)[2] == r.params@[2]@);
    assert(r.sql@.subrange(96, 102) =~= "?2, "@ + "?"@ + decimal(3));
    lemma_asks_at(r, "?2, "@, SqlView::Integer(now), 96, 2);
    reveal_strlit("INSERT INTO vector_cursors (session_id, last_message_id, last_push_at)");
    assert(r.sql@.subrange(0, 70) =~= "INSERT INTO vector_cursors (session_id, last_message_id, last_push_at)"@);
    lemma_says_at(r.sql@, "INSERT INTO vector_cursors (session_id, last_message_id, last_push_at)"@, 0);
}

/// A state is asked for by its key.
pub proof fn state_is_asked_for(key: &str, r: Statement)
    requires
        call_ensures(sync_db::get_state, (key,), r),
    ensures
        asks(r, "WHERE key = "@, SqlView::Text(key@)),
        r.params@.len() == 1,
{
    reveal_strlit(
        "SELECT value FROM sync_state WHERE key = ?1",
    );
    reveal_strlit("?");
    assert(value_views(r.params@).len() == 1);
    reveal_strlit("WHERE key = ");
    assert(decimal(1) =~= seq!['1']);
    assert(value_views(r.params@)[0] == r.params@[0]@);
    assert(r.sql@.subrange(29, 43) =~= "WHERE key = "@ + "?"@ + decimal(1));
    lemma_asks_at(r, "WHERE key = "@, SqlView::Text(key@), 29, 0);
}

/// A project is added for the archive unless it is there.
pub proof fn archived_project_is_added_once(path: &str, name: &str, source: &str, r: Statement)
    requires
        call_ensures(archive::ensure_project, (path, name, source), r),
    ensures
        asks(r, "VALUES ("@, SqlView::Text(path@)),
        asks(r, "?1, "@, SqlView::Text(name@)),
        asks(r, "?2, "@, SqlView::Text(source@)),
        says(r.sql@, "INSERT OR IGNORE INTO projects (path, name, source)"@),
        r.params@.len() == 3,
{
    reveal_strlit(
        "INSERT OR IGNORE INTO projects (path, name, source) VALUES (?1, ?2, ?3)",
    );
    reveal_strlit("?");
    assert(value_views(r.params@).len() == 3);
    reveal_strlit("VALUES (");
    assert(decimal(1) =~= seq!['1']);
    assert(value_views(r.params@)[0] == r.params@[0]@);
    assert(r.sql@.subrange(52, 62) =~= "VALUES ("@ + "?"@ + decimal(1));
    lemma_asks_at(r, "VALUES ("@, SqlView::Text(path@), 52, 0);
    reveal_strlit("?1, ");
    assert(decimal(2) =~= seq!['2']);
    assert(value_views(r.params@)[1] == r.params@[1]@);
    assert(r.sql@.subrange(60, 66) =~= "?1, "@ + "?"@ + decimal(2));
    lemma_asks_at(r, "?1, "@, SqlView::Text(name@), 60, 1);
    reveal_strlit("?2, ");
    assert(decimal(3) =~= seq!['3']);
    assert(value_views(r.params@)[2] == r.params@[2]@);
    assert(r.sql@.subrange(64, 70) =~= "?2, "@ + "?"@ + decimal(3));
    lemma_asks_at(r, "?2, "@, SqlView::Text(source@), 64, 2);
    reveal_strlit("INSERT OR IGNORE INTO projects (path, name, source)");
    assert(r.sql@.subrange(0, 51) =~= "INSERT OR IGNORE INTO projects (path, name, source)"@);
    lemma_says_at(r.sql@, "INSERT OR IGNORE INTO projects (path, name, source)"@, 0);
}

/// A session is added for the archive unless it is there.
pub proof fn archived_session_is_added_once(id: &str, project: i64, path: &str, r: Statement)
    requires
        call_ensures(archive::ensure_session, (id, project, path), r),
    ensures
        asks(r, "VALUES ("@, SqlView::Text(id@)),
        asks(r, "?1, "@, SqlView::Integer(project)),
        asks(r, "0, "@, SqlView::Text(path@)),
        says(r.sql@, "INSERT OR IGNORE INTO sessions (session_id, project_id, message_count, cwd)"@),
        r.params@.len() == 3,
{
    reveal_strlit(
        "INSERT OR IGNORE INTO sessions (session_id, project_id, message_count, cwd)
         VALUES (?1, ?2, 0, ?3)",
    );
    reveal_strlit("?");
    assert(value_views(r.params@).len() == 3);
    reveal_strlit("VALUES (");
    assert(decimal(1) =~= seq!['1']);
    assert(value_views(r.params@)[0] == r.params@[0]@);
    assert(r.sql@.subrange(85, 95) =~= "VALUES ("@ + "?"@ + decimal(1));
    lemma_asks_at(r, "VALUES ("@, SqlView::Text(id@), 85, 0);
    reveal_strlit("?1, ");
    assert(decimal(2) =~= seq!['2']);
    assert(value_views(r.params@)[1] == r.params@[1]@);
    assert(r.sql@.subrange(93, 99) =~= "?1, "@ + "?"@ + decimal(2));
    lemma_asks_at(r, "?1, "@, SqlView::Integer(project), 93, 1);
    reveal_strlit("0, ");
    assert(decimal(3) =~= seq!['3']);
    assert(value_views(r.params@)[2] == r.params@[2]@);
    assert(r.sql@.subrange(101, 106) =~= "0, "@ + "?"@ + decimal(3));
    lemma_asks_at(r, "0, "@, SqlView::Text(path@), 101, 2);
    reveal_strlit("INSERT OR IGNORE INTO sessions (session_id, project_id, message_count, cwd)");
    assert(r.sql@.subrange(0, 75) =~= "INSERT OR IGNORE INTO sessions (session_id, project_id, message_count, cwd)"@);
    lemma_says_at(r.sql@, "INSERT OR IGNORE INTO sessions (session_id, project_id, message_count, cwd)"@, 0);
}

} // verus!

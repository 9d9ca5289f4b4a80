//! The statements by which the store is read and written.
use vstd::prelude::*;
use crate::coordination::Coordinator;
use crate::db::{prefix_pattern, ProjectWrite, SessionInput};
use crate::sql::{
    integer_or_null, opt_integer, opt_text, text, text_or_null, value_views, SqlValue, SqlView,
    Statement,
};
use crate::types::ApprovalStatus;

verus! {

// ---- Projects ----

/// Asks for the id of the project of a path.
pub fn project_id_of_path(path: &str) -> (r: Statement)
    ensures
        r.sql@ == "SELECT id FROM projects WHERE path = ?1"@,
        value_views(r.params@) == seq![SqlView::Text(path@)],
{
    let params: Vec<SqlValue> = vec![text(path)];
    assert(value_views(params@) =~= seq![SqlView::Text(path@)]);
    Statement { sql: "SELECT id FROM projects WHERE path = ?1".to_owned(), params }
}

/// Lists all projects, those that were seen last first.
pub fn list_projects() -> (r: Statement)
    ensures
        r.sql@ == "SELECT id, name, path, source, encoded_dir_name, created_at, updated_at FROM projects ORDER BY updated_at DESC"@,
        r.params@.len() == 0,
{
    Statement { sql: "SELECT id, name, path, source, encoded_dir_name, created_at, updated_at FROM projects ORDER BY updated_at DESC".to_owned(), params: Vec::new() }
}

/// Lists projects with numbers.
pub const PROJECTS_WITH_STATS: &'static str = "
            SELECT
                p.id,
                p.name,
                p.path,
                COUNT(DISTINCT s.id) as session_count,
                COALESCE(SUM(s.message_count), 0) as message_count,
                MAX(COALESCE(s.last_message_at, s.updated_at)) as last_active
            FROM projects p
            LEFT JOIN sessions s ON s.project_id = p.id
            GROUP BY p.id
            ORDER BY last_active DESC NULLS LAST
            LIMIT ?1 OFFSET ?2
            ";

/// Lists projects with the numbers of their sessions and messages, those that were active last
/// first, `limit` of them behind the first `offset`.
pub fn list_projects_with_stats(limit: usize, offset: usize) -> (r: Statement)
    ensures
        r.sql@ == PROJECTS_WITH_STATS@,
        value_views(r.params@) == seq![SqlView::Integer(limit as i64), SqlView::Integer(offset as i64)],
{
    let params: Vec<SqlValue> = vec![SqlValue::Integer(limit as i64), SqlValue::Integer(offset as i64)];
    assert(value_views(params@) =~= seq![SqlView::Integer(limit as i64), SqlView::Integer(offset as i64)]);
    Statement { sql: PROJECTS_WITH_STATS.to_owned(), params }
}

/// Asks for the project of an id.
pub fn get_project(id: i64) -> (r: Statement)
    ensures
        r.sql@ == "SELECT id, name, path, source, encoded_dir_name, created_at, updated_at FROM projects WHERE id = ?1"@,
        value_views(r.params@) == seq![SqlView::Integer(id)],
{
    let params: Vec<SqlValue> = vec![SqlValue::Integer(id)];
    assert(value_views(params@) =~= seq![SqlView::Integer(id)]);
    Statement { sql: "SELECT id, name, path, source, encoded_dir_name, created_at, updated_at FROM projects WHERE id = ?1".to_owned(), params }
}

/// Asks for the project of a path.
pub fn get_project_by_path(path: &str) -> (r: Statement)
    ensures
        r.sql@ == "SELECT id, name, path, source, encoded_dir_name, created_at, updated_at FROM projects WHERE path = ?1"@,
        value_views(r.params@) == seq![SqlView::Text(path@)],
{
    let params: Vec<SqlValue> = vec![text(path)];
    assert(value_views(params@) =~= seq![SqlView::Text(path@)]);
    Statement { sql: "SELECT id, name, path, source, encoded_dir_name, created_at, updated_at FROM projects WHERE path = ?1".to_owned(), params }
}

/// Lists all projects with the tools that they belong to.
pub fn get_all_projects_with_source() -> (r: Statement)
    ensures
        r.sql@ == "SELECT id, name, path, source FROM projects"@,
        r.params@.len() == 0,
{
    Statement { sql: "SELECT id, name, path, source FROM projects".to_owned(), params: Vec::new() }
}

/// Deletes a project.
pub fn delete_project(project_id: i64) -> (r: Statement)
    ensures
        r.sql@ == "DELETE FROM projects WHERE id = ?1"@,
        value_views(r.params@) == seq![SqlView::Integer(project_id)],
{
    let params: Vec<SqlValue> = vec![SqlValue::Integer(project_id)];
    assert(value_views(params@) =~= seq![SqlView::Integer(project_id)]);
    Statement { sql: "DELETE FROM projects WHERE id = ?1".to_owned(), params }
}

/// Lists paths that occur more than once.
pub const DUPLICATE_PROJECTS: &'static str = "
            SELECT path, GROUP_CONCAT(id) as ids
            FROM projects
            GROUP BY path
            HAVING COUNT(*) > 1
            ";

/// Lists the paths that more than one project has, with the ids of those projects.
pub fn duplicate_projects() -> (r: Statement)
    ensures
        r.sql@ == DUPLICATE_PROJECTS@,
        r.params@.len() == 0,
{
    Statement { sql: DUPLICATE_PROJECTS.to_owned(), params: Vec::new() }
}

/// Counts the sessions of a project.
pub fn count_project_sessions(project_id: i64) -> (r: Statement)
    ensures
        r.sql@ == "SELECT COUNT(*) FROM sessions WHERE project_id = ?1"@,
        value_views(r.params@) == seq![SqlView::Integer(project_id)],
{
    let params: Vec<SqlValue> = vec![SqlValue::Integer(project_id)];
    assert(value_views(params@) =~= seq![SqlView::Integer(project_id)]);
    Statement { sql: "SELECT COUNT(*) FROM sessions WHERE project_id = ?1".to_owned(), params }
}

/// Writes what becomes of the row of a project.
pub fn store_project(w: &ProjectWrite) -> (r: Statement)
    ensures
        match *w {
            ProjectWrite::Touch { id, updated_at } => r.sql@
                == "UPDATE projects SET updated_at = ?1 WHERE id = ?2"@ && value_views(r.params@)
                == seq![SqlView::Integer(updated_at), SqlView::Integer(id)],
            ProjectWrite::Rename { id, updated_at, encoded_dir_name } => r.sql@
                == "UPDATE projects SET updated_at = ?1, encoded_dir_name = ?2 WHERE id = ?3"@
                && value_views(r.params@) == seq![
                SqlView::Integer(updated_at),
                SqlView::Text(encoded_dir_name@),
                SqlView::Integer(id),
            ],
            ProjectWrite::Create { name, path, source, encoded_dir_name, created_at } => r.sql@
                == "INSERT INTO projects (name, path, source, encoded_dir_name, created_at, updated_at) VALUES (?1, ?2, ?3, ?4, ?5, ?5)"@
                && value_views(r.params@) == seq![
                SqlView::Text(name@),
                SqlView::Text(path@),
                SqlView::Text(source@),
                text_or_null(encoded_dir_name),
                SqlView::Integer(created_at),
            ],
        },
{
    match w {
        ProjectWrite::Touch { id, updated_at } => {
            let params: Vec<SqlValue> = vec![
                SqlValue::Integer(*updated_at),
                SqlValue::Integer(*id),
            ];
            assert(value_views(params@) =~= seq![
                SqlView::Integer(*updated_at),
                SqlView::Integer(*id),
            ]);
            Statement {
                sql: "UPDATE projects SET updated_at = ?1 WHERE id = ?2".to_owned(),
                params,
            }
        },
        ProjectWrite::Rename { id, updated_at, encoded_dir_name } => {
            let params: Vec<SqlValue> = vec![
                SqlValue::Integer(*updated_at),
                text(encoded_dir_name.as_str()),
                SqlValue::Integer(*id),
            ];
            assert(value_views(params@) =~= seq![
                SqlView::Integer(*updated_at),
                SqlView::Text(encoded_dir_name@),
                SqlView::Integer(*id),
            ]);
            Statement {
                sql:
                    "UPDATE projects SET updated_at = ?1, encoded_dir_name = ?2 WHERE id = ?3".to_owned(),
                params,
            }
        },
        ProjectWrite::Create { name, path, source, encoded_dir_name, created_at } => {
            let params: Vec<SqlValue> = vec![
                text(name.as_str()),
                text(path.as_str()),
                text(source.as_str()),
                opt_text(encoded_dir_name),
                SqlValue::Integer(*created_at),
            ];
            assert(value_views(params@) =~= seq![
                SqlView::Text(name@),
                SqlView::Text(path@),
                SqlView::Text(source@),
                text_or_null(*encoded_dir_name),
                SqlView::Integer(*created_at),
            ]);
            Statement {
                sql:
                    "INSERT INTO projects (name, path, source, encoded_dir_name, created_at, updated_at) VALUES (?1, ?2, ?3, ?4, ?5, ?5)".to_owned(),
                params,
            }
        },
    }
}

// ---- Sessions ----

/// Writes a session that was seen.
pub const UPSERT_SESSION: &'static str = "
            INSERT INTO sessions (session_id, project_id, created_at, updated_at)
            VALUES (?1, ?2, ?3, ?3)
            ON CONFLICT(session_id) DO UPDATE SET
                updated_at = excluded.updated_at
            ";

/// What is bound to it.
pub open spec fn seen_values(session_id: Seq<char>, project_id: i64, now: i64) -> Seq<SqlView> {
    seq![SqlView::Text(session_id), SqlView::Integer(project_id), SqlView::Integer(now)]
}

/// Writes a session that was seen at `now`. One that is there stays in its project.
pub fn upsert_session(session_id: &str, project_id: i64, now: i64) -> (r: Statement)
    ensures
        r.sql@ == UPSERT_SESSION@,
        value_views(r.params@) == seen_values(session_id@, project_id, now),
{
    let params: Vec<SqlValue> = vec![text(session_id), SqlValue::Integer(project_id), SqlValue::Integer(now)];
    assert(value_views(params@) =~= seq![SqlView::Text(session_id@), SqlView::Integer(project_id), SqlView::Integer(now)]);
    Statement { sql: UPSERT_SESSION.to_owned(), params }
}

/// Writes what is known of a session. What is not given stays as it is.
pub const UPSERT_SESSION_FULL: &'static str = "
            INSERT INTO sessions (session_id, project_id, cwd, model, channel, message_count, file_mtime, file_size, file_offset, file_inode, meta, session_type, source, created_at, updated_at)
            VALUES (?1, ?2, ?3, ?4, ?5, ?6, ?7, ?8, ?9, ?10, ?11, ?12, ?13, ?14, ?14)
            ON CONFLICT(session_id) DO UPDATE SET
                cwd = COALESCE(excluded.cwd, sessions.cwd),
                model = COALESCE(excluded.model, sessions.model),
                channel = COALESCE(excluded.channel, sessions.channel),
                message_count = COALESCE(excluded.message_count, sessions.message_count),
                file_mtime = COALESCE(excluded.file_mtime, sessions.file_mtime),
                file_size = COALESCE(excluded.file_size, sessions.file_size),
                file_offset = COALESCE(excluded.file_offset, sessions.file_offset),
                file_inode = COALESCE(excluded.file_inode, sessions.file_inode),
                meta = COALESCE(excluded.meta, sessions.meta),
                session_type = COALESCE(excluded.session_type, sessions.session_type),
                source = COALESCE(excluded.source, sessions.source),
                updated_at = excluded.updated_at
            ";

/// What is bound to it.
pub open spec fn session_values(input: SessionInput, now: i64) -> Seq<SqlView> {
    seq![
        SqlView::Text(input.session_id@),
        SqlView::Integer(input.project_id),
        text_or_null(input.cwd),
        text_or_null(input.model),
        text_or_null(input.channel),
        integer_or_null(input.message_count),
        integer_or_null(input.file_mtime),
        integer_or_null(input.file_size),
        integer_or_null(input.file_offset),
        integer_or_null(input.file_inode),
        text_or_null(input.meta),
        text_or_null(input.session_type),
        text_or_null(input.source),
        SqlView::Integer(now),
    ]
}

/// Writes what `input` says of a session at `now`.
pub fn upsert_session_full(input: &SessionInput, now: i64) -> (r: Statement)
    ensures
        r.sql@ == UPSERT_SESSION_FULL@,
        value_views(r.params@) == session_values(*input, now),
{
    let params: Vec<SqlValue> = vec![
        text(input.session_id.as_str()),
        SqlValue::Integer(input.project_id),
        opt_text(&input.cwd),
        opt_text(&input.model),
        opt_text(&input.channel),
        opt_integer(input.message_count),
        opt_integer(input.file_mtime),
        opt_integer(input.file_size),
        opt_integer(input.file_offset),
        opt_integer(input.file_inode),
        opt_text(&input.meta),
        opt_text(&input.session_type),
        opt_text(&input.source),
        SqlValue::Integer(now),
    ];
    assert(value_views(params@) =~= session_values(*input, now));
    Statement { sql: UPSERT_SESSION_FULL.to_owned(), params }
}

/// Lists the sessions of a project.
pub const SESSIONS_OF_PROJECT: &'static str = "
            SELECT id, session_id, project_id, message_count, last_message_at,
                   cwd, model, channel, file_mtime, file_size, meta,
                   session_type, source, created_at, updated_at
            FROM sessions
            WHERE project_id = ?1
            ORDER BY updated_at DESC
            ";

/// Lists the sessions of a project, those that were seen last first.
pub fn list_sessions(project_id: i64) -> (r: Statement)
    ensures
        r.sql@ == SESSIONS_OF_PROJECT@,
        value_views(r.params@) == seq![SqlView::Integer(project_id)],
{
    let params: Vec<SqlValue> = vec![SqlValue::Integer(project_id)];
    assert(value_views(params@) =~= seq![SqlView::Integer(project_id)]);
    Statement { sql: SESSIONS_OF_PROJECT.to_owned(), params }
}

/// Lists the sessions of the project of a path.
pub const SESSIONS_OF_PATH: &'static str = "
            SELECT s.id, s.session_id, s.project_id, p.name, p.path,
                   s.message_count, s.last_message_at,
                   s.cwd, s.model, s.channel, s.file_mtime, s.file_size, s.encoded_dir_name, s.meta,
                   s.session_type, s.source,
                   s.created_at, s.updated_at
            FROM sessions s
            INNER JOIN projects p ON s.project_id = p.id
            WHERE p.path = ?1 AND s.session_id NOT LIKE 'agent-%'
            ORDER BY s.updated_at DESC
            LIMIT ?2 OFFSET ?3
            ";

/// Lists the sessions of the project of a path without those of agents, those that were seen last
/// first, `limit` of them behind the first `offset`.
pub fn list_sessions_of_path(project_path: &str, limit: usize, offset: usize) -> (r: Statement)
    ensures
        r.sql@ == SESSIONS_OF_PATH@,
        value_views(r.params@) == seq![
            SqlView::Text(project_path@),
            SqlView::Integer(limit as i64),
            SqlView::Integer(offset as i64),
        ],
{
    let params: Vec<SqlValue> = vec![text(project_path), SqlValue::Integer(limit as i64), SqlValue::Integer(offset as i64)];
    assert(value_views(params@) =~= seq![SqlView::Text(project_path@), SqlView::Integer(limit as i64), SqlView::Integer(offset as i64)]);
    Statement { sql: SESSIONS_OF_PATH.to_owned(), params }
}

/// Asks for the last message of a conversation.
pub const LAST_MESSAGE: &'static str = "
            SELECT type, content_text, content_full
            FROM messages
            WHERE session_id = ?1 AND type IN ('user', 'assistant')
            ORDER BY sequence DESC
            LIMIT 1
            ";

/// Asks for the last message of a session that a user or the assistant wrote.
pub fn last_message(session_id: &str) -> (r: Statement)
    ensures
        r.sql@ == LAST_MESSAGE@,
        value_views(r.params@) == seq![SqlView::Text(session_id@)],
{
    let params: Vec<SqlValue> = vec![text(session_id)];
    assert(value_views(params@) =~= seq![SqlView::Text(session_id@)]);
    Statement { sql: LAST_MESSAGE.to_owned(), params }
}

/// Asks for a session together with its project.
pub const SESSION_WITH_PROJECT: &'static str = "
            SELECT s.id, s.session_id, s.project_id, p.name, p.path,
                   s.message_count, s.last_message_at,
                   s.cwd, s.model, s.channel, s.file_mtime, s.file_size, s.encoded_dir_name, s.meta,
                   s.session_type, s.source,
                   s.created_at, s.updated_at
            FROM sessions s
            INNER JOIN projects p ON s.project_id = p.id
            WHERE s.session_id = ?1
            ";

/// Asks for a session together with its project.
pub fn get_session_with_project(session_id: &str) -> (r: Statement)
    ensures
        r.sql@ == SESSION_WITH_PROJECT@,
        value_views(r.params@) == seq![SqlView::Text(session_id@)],
{
    let params: Vec<SqlValue> = vec![text(session_id)];
    assert(value_views(params@) =~= seq![SqlView::Text(session_id@)]);
    Statement { sql: SESSION_WITH_PROJECT.to_owned(), params }
}

/// Lists the sessions that a session has started, the first of them first.
pub fn children_of_session(session_id: &str) -> (r: Statement)
    ensures
        r.sql@ == "SELECT DISTINCT child_session_id FROM session_relations WHERE parent_session_id = ?1 ORDER BY created_at ASC"@,
        value_views(r.params@) == seq![SqlView::Text(session_id@)],
{
    let params: Vec<SqlValue> = vec![text(session_id)];
    assert(value_views(params@) =~= seq![SqlView::Text(session_id@)]);
    Statement { sql: "SELECT DISTINCT child_session_id FROM session_relations WHERE parent_session_id = ?1 ORDER BY created_at ASC".to_owned(), params }
}

/// Asks for a session that has started a session.
pub fn parent_of_session(session_id: &str) -> (r: Statement)
    ensures
        r.sql@ == "SELECT parent_session_id FROM session_relations WHERE child_session_id = ?1 LIMIT 1"@,
        value_views(r.params@) == seq![SqlView::Text(session_id@)],
{
    let params: Vec<SqlValue> = vec![text(session_id)];
    assert(value_views(params@) =~= seq![SqlView::Text(session_id@)]);
    Statement { sql: "SELECT parent_session_id FROM session_relations WHERE child_session_id = ?1 LIMIT 1".to_owned(), params }
}

/// Asks for a session.
pub const SESSION_OF_ID: &'static str = "
            SELECT id, session_id, project_id, message_count, last_message_at,
                   cwd, model, channel, file_mtime, file_size, meta,
                   session_type, source, created_at, updated_at
            FROM sessions
            WHERE session_id = ?1
            ";

/// Asks for a session.
pub fn get_session(session_id: &str) -> (r: Statement)
    ensures
        r.sql@ == SESSION_OF_ID@,
        value_views(r.params@) == seq![SqlView::Text(session_id@)],
{
    let params: Vec<SqlValue> = vec![text(session_id)];
    assert(value_views(params@) =~= seq![SqlView::Text(session_id@)]);
    Statement { sql: SESSION_OF_ID.to_owned(), params }
}

/// Counts the sessions of an id.
pub fn session_exists(session_id: &str) -> (r: Statement)
    ensures
        r.sql@ == "SELECT COUNT(*) FROM sessions WHERE session_id = ?1"@,
        value_views(r.params@) == seq![SqlView::Text(session_id@)],
{
    let params: Vec<SqlValue> = vec![text(session_id)];
    assert(value_views(params@) =~= seq![SqlView::Text(session_id@)]);
    Statement { sql: "SELECT COUNT(*) FROM sessions WHERE session_id = ?1".to_owned(), params }
}

/// Counts the messages of a session.
pub fn get_session_message_count(session_id: &str) -> (r: Statement)
    ensures
        r.sql@ == "SELECT COUNT(*) FROM messages WHERE session_id = ?1"@,
        value_views(r.params@) == seq![SqlView::Text(session_id@)],
{
    let params: Vec<SqlValue> = vec![text(session_id)];
    assert(value_views(params@) =~= seq![SqlView::Text(session_id@)]);
    Statement { sql: "SELECT COUNT(*) FROM messages WHERE session_id = ?1".to_owned(), params }
}

/// Asks for the time of the latest message of a session.
pub fn get_session_latest_timestamp(session_id: &str) -> (r: Statement)
    ensures
        r.sql@ == "SELECT MAX(timestamp) FROM messages WHERE session_id = ?1"@,
        value_views(r.params@) == seq![SqlView::Text(session_id@)],
{
    let params: Vec<SqlValue> = vec![text(session_id)];
    assert(value_views(params@) =~= seq![SqlView::Text(session_id@)]);
    Statement { sql: "SELECT MAX(timestamp) FROM messages WHERE session_id = ?1".to_owned(), params }
}

/// Asks for the greatest number of a message of a session.
pub fn get_session_max_sequence(session_id: &str) -> (r: Statement)
    ensures
        r.sql@ == "SELECT MAX(sequence) FROM messages WHERE session_id = ?1"@,
        value_views(r.params@) == seq![SqlView::Text(session_id@)],
{
    let params: Vec<SqlValue> = vec![text(session_id)];
    assert(value_views(params@) =~= seq![SqlView::Text(session_id@)]);
    Statement { sql: "SELECT MAX(sequence) FROM messages WHERE session_id = ?1".to_owned(), params }
}

/// Asks for a session whose id begins as given.
pub fn resolve_session_id(prefix: &str) -> (r: Statement)
    ensures
        r.sql@ == "SELECT session_id FROM sessions WHERE session_id LIKE ?1 LIMIT 1"@,
        value_views(r.params@) == seq![SqlView::Text(prefix@ + "%"@)],
{
    let pattern = prefix_pattern(prefix);
    let params: Vec<SqlValue> = vec![text(pattern.as_str())];
    assert(value_views(params@) =~= seq![SqlView::Text(prefix@ + "%"@)]);
    Statement {
        sql: "SELECT session_id FROM sessions WHERE session_id LIKE ?1 LIMIT 1".to_owned(),
        params,
    }
}

/// Lists sessions whose ids begin alike.
pub const SESSIONS_BY_PREFIX: &'static str = "
            SELECT id, session_id, project_id, message_count, last_message_at,
                   cwd, model, channel, file_mtime, file_size, meta,
                   session_type, source, created_at, updated_at
            FROM sessions
            WHERE session_id LIKE ?1
            ORDER BY updated_at DESC
            LIMIT ?2
            ";

/// Lists at most `limit` sessions whose ids begin as given, those that were seen last first.
pub fn search_sessions_by_prefix(prefix: &str, limit: usize) -> (r: Statement)
    ensures
        r.sql@ == SESSIONS_BY_PREFIX@,
        value_views(r.params@) == seq![
            SqlView::Text(prefix@ + "%"@),
            SqlView::Integer(limit as i64),
        ],
{
    let pattern = prefix_pattern(prefix);
    let params: Vec<SqlValue> = vec![text(pattern.as_str()), SqlValue::Integer(limit as i64)];
    assert(value_views(params@) =~= seq![
        SqlView::Text(prefix@ + "%"@),
        SqlView::Integer(limit as i64),
    ]);
    Statement { sql: SESSIONS_BY_PREFIX.to_owned(), params }
}

/// Asks for the time up to which a session was scanned.
pub fn scan_checkpoint(session_id: &str) -> (r: Statement)
    ensures
        r.sql@ == "SELECT last_message_at FROM sessions WHERE session_id = ?1"@,
        value_views(r.params@) == seq![SqlView::Text(session_id@)],
{
    let params: Vec<SqlValue> = vec![text(session_id)];
    assert(value_views(params@) =~= seq![SqlView::Text(session_id@)]);
    Statement { sql: "SELECT last_message_at FROM sessions WHERE session_id = ?1".to_owned(), params }
}

/// Asks for the time at which the file of a session was changed when it was read.
pub fn get_session_file_mtime(session_id: &str) -> (r: Statement)
    ensures
        r.sql@ == "SELECT file_mtime FROM sessions WHERE session_id = ?1"@,
        value_views(r.params@) == seq![SqlView::Text(session_id@)],
{
    let params: Vec<SqlValue> = vec![text(session_id)];
    assert(value_views(params@) =~= seq![SqlView::Text(session_id@)]);
    Statement { sql: "SELECT file_mtime FROM sessions WHERE session_id = ?1".to_owned(), params }
}

/// Asks how far the file of a session was read, and what it was then.
pub fn incremental_state(session_id: &str) -> (r: Statement)
    ensures
        r.sql@ == "SELECT file_offset, file_mtime, file_size, file_inode FROM sessions WHERE session_id = ?1"@,
        value_views(r.params@) == seq![SqlView::Text(session_id@)],
{
    let params: Vec<SqlValue> = vec![text(session_id)];
    assert(value_views(params@) =~= seq![SqlView::Text(session_id@)]);
    Statement { sql: "SELECT file_offset, file_mtime, file_size, file_inode FROM sessions WHERE session_id = ?1".to_owned(), params }
}

/// Writes how far the file of a session was read.
pub const UPDATE_INCREMENTAL_STATE: &'static str = "
            UPDATE sessions SET
                file_offset = ?1,
                file_mtime = ?2,
                file_size = ?3,
                file_inode = ?4,
                updated_at = ?5
            WHERE session_id = ?6
            ";

/// Writes how far the file of a session was read, and what it was then.
pub fn update_session_incremental_state(offset: i64, mtime: i64, size: i64, inode: i64, now: i64, session_id: &str) -> (r: Statement)
    ensures
        r.sql@ == UPDATE_INCREMENTAL_STATE@,
        value_views(r.params@) == seq![
            SqlView::Integer(offset),
            SqlView::Integer(mtime),
            SqlView::Integer(size),
            SqlView::Integer(inode),
            SqlView::Integer(now),
            SqlView::Text(session_id@),
        ],
{
    let params: Vec<SqlValue> = vec![SqlValue::Integer(offset), SqlValue::Integer(mtime), SqlValue::Integer(size), SqlValue::Integer(inode), SqlValue::Integer(now), text(session_id)];
    assert(value_views(params@) =~= seq![SqlView::Integer(offset), SqlView::Integer(mtime), SqlView::Integer(size), SqlView::Integer(inode), SqlView::Integer(now), SqlView::Text(session_id@)]);
    Statement { sql: UPDATE_INCREMENTAL_STATE.to_owned(), params }
}

/// Writes the time of the last message of a session.
pub fn update_session_last_message(timestamp: i64, now: i64, session_id: &str) -> (r: Statement)
    ensures
        r.sql@ == "UPDATE sessions SET last_message_at = ?1, updated_at = ?2 WHERE session_id = ?3"@,
        value_views(r.params@) == seq![
            SqlView::Integer(timestamp),
            SqlView::Integer(now),
            SqlView::Text(session_id@),
        ],
{
    let params: Vec<SqlValue> = vec![SqlValue::Integer(timestamp), SqlValue::Integer(now), text(session_id)];
    assert(value_views(params@) =~= seq![SqlView::Integer(timestamp), SqlView::Integer(now), SqlView::Text(session_id@)]);
    Statement { sql: "UPDATE sessions SET last_message_at = ?1, updated_at = ?2 WHERE session_id = ?3".to_owned(), params }
}

/// Moves the sessions of one project to another.
pub fn update_sessions_project_id(from_project_id: i64, to_project_id: i64) -> (r: Statement)
    ensures
        r.sql@ == "UPDATE sessions SET project_id = ?1 WHERE project_id = ?2"@,
        value_views(r.params@) == seq![SqlView::Integer(to_project_id), SqlView::Integer(from_project_id)],
{
    let params: Vec<SqlValue> = vec![SqlValue::Integer(to_project_id), SqlValue::Integer(from_project_id)];
    assert(value_views(params@) =~= seq![SqlView::Integer(to_project_id), SqlView::Integer(from_project_id)]);
    Statement { sql: "UPDATE sessions SET project_id = ?1 WHERE project_id = ?2".to_owned(), params }
}

/// Counts the sessions of which no working directory is known.
pub fn count_sessions_without_cwd() -> (r: Statement)
    ensures
        r.sql@ == "SELECT COUNT(*) FROM sessions WHERE cwd IS NULL OR cwd = ''"@,
        r.params@.len() == 0,
{
    Statement { sql: "SELECT COUNT(*) FROM sessions WHERE cwd IS NULL OR cwd = ''".to_owned(), params: Vec::new() }
}

// ---- Messages ----

/// Writes the number of messages that a session has.
pub const UPDATE_MESSAGE_COUNT: &'static str = "
            UPDATE sessions SET
                message_count = (SELECT COUNT(*) FROM messages WHERE session_id = ?1),
                updated_at = ?2
            WHERE session_id = ?1
            ";

/// Writes the number of messages that a session has.
pub fn update_message_count(session_id: &str, now: i64) -> (r: Statement)
    ensures
        r.sql@ == UPDATE_MESSAGE_COUNT@,
        value_views(r.params@) == seq![SqlView::Text(session_id@), SqlView::Integer(now)],
{
    let params: Vec<SqlValue> = vec![text(session_id), SqlValue::Integer(now)];
    assert(value_views(params@) =~= seq![SqlView::Text(session_id@), SqlView::Integer(now)]);
    Statement { sql: UPDATE_MESSAGE_COUNT.to_owned(), params }
}

/// Lists messages that are not indexed.
pub const UNINDEXED_MESSAGES: &'static str = "
            SELECT id, session_id, uuid, type, content_text, content_full, timestamp, sequence,
                   source, channel, model, tool_call_id, tool_name, tool_args, raw, vector_indexed,
                   approval_status, approval_resolved_at
            FROM messages
            WHERE vector_indexed = 0 AND type = 'assistant'
            ORDER BY id ASC
            LIMIT ?1
            ";

/// Lists at most `limit` messages of the assistant that are not indexed, the oldest first.
pub fn get_unindexed_messages(limit: usize) -> (r: Statement)
    ensures
        r.sql@ == UNINDEXED_MESSAGES@,
        value_views(r.params@) == seq![SqlView::Integer(limit as i64)],
{
    let params: Vec<SqlValue> = vec![SqlValue::Integer(limit as i64)];
    assert(value_views(params@) =~= seq![SqlView::Integer(limit as i64)]);
    Statement { sql: UNINDEXED_MESSAGES.to_owned(), params }
}

/// Counts the messages of the assistant that are not indexed.
pub fn count_unindexed_messages() -> (r: Statement)
    ensures
        r.sql@ == "SELECT COUNT(*) FROM messages WHERE vector_indexed = 0 AND type = 'assistant'"@,
        r.params@.len() == 0,
{
    Statement { sql: "SELECT COUNT(*) FROM messages WHERE vector_indexed = 0 AND type = 'assistant'".to_owned(), params: Vec::new() }
}

/// Notes that a message could not be indexed.
pub fn mark_message_index_failed(message_id: i64) -> (r: Statement)
    ensures
        r.sql@ == "UPDATE messages SET vector_indexed = -1 WHERE id = ?1"@,
        value_views(r.params@) == seq![SqlView::Integer(message_id)],
{
    let params: Vec<SqlValue> = vec![SqlValue::Integer(message_id)];
    assert(value_views(params@) =~= seq![SqlView::Integer(message_id)]);
    Statement { sql: "UPDATE messages SET vector_indexed = -1 WHERE id = ?1".to_owned(), params }
}

/// Lists messages that could not be indexed.
pub const FAILED_MESSAGES: &'static str = "
            SELECT id, session_id, uuid, type, content_text, content_full, timestamp, sequence,
                   source, channel, model, tool_call_id, tool_name, tool_args, raw, vector_indexed,
                   approval_status, approval_resolved_at
            FROM messages
            WHERE vector_indexed = -1
            ORDER BY id ASC
            LIMIT ?1
            ";

/// Lists at most `limit` messages that could not be indexed, the oldest first.
pub fn get_failed_indexed_messages(limit: usize) -> (r: Statement)
    ensures
        r.sql@ == FAILED_MESSAGES@,
        value_views(r.params@) == seq![SqlView::Integer(limit as i64)],
{
    let params: Vec<SqlValue> = vec![SqlValue::Integer(limit as i64)];
    assert(value_views(params@) =~= seq![SqlView::Integer(limit as i64)]);
    Statement { sql: FAILED_MESSAGES.to_owned(), params }
}

/// Counts the messages that could not be indexed.
pub fn count_failed_indexed_messages() -> (r: Statement)
    ensures
        r.sql@ == "SELECT COUNT(*) FROM messages WHERE vector_indexed = -1"@,
        r.params@.len() == 0,
{
    Statement { sql: "SELECT COUNT(*) FROM messages WHERE vector_indexed = -1".to_owned(), params: Vec::new() }
}

/// Has the messages indexed again that could not be.
pub fn reset_failed_indexed_messages() -> (r: Statement)
    ensures
        r.sql@ == "UPDATE messages SET vector_indexed = 0 WHERE vector_indexed = -1"@,
        r.params@.len() == 0,
{
    Statement { sql: "UPDATE messages SET vector_indexed = 0 WHERE vector_indexed = -1".to_owned(), params: Vec::new() }
}

/// Lists messages that wait for an approval.
pub const PENDING_APPROVALS: &'static str = "
            SELECT id, session_id, uuid, type, content_text, content_full, timestamp, sequence,
                   source, channel, model, tool_call_id, tool_name, tool_args, raw, vector_indexed,
                   approval_status, approval_resolved_at
            FROM messages
            WHERE session_id = ?1 AND approval_status = 'pending'
            ORDER BY sequence ASC
            ";

/// Lists the messages of a session that wait for an approval.
pub fn get_pending_approvals(session_id: &str) -> (r: Statement)
    ensures
        r.sql@ == PENDING_APPROVALS@,
        value_views(r.params@) == seq![SqlView::Text(session_id@)],
{
    let params: Vec<SqlValue> = vec![text(session_id)];
    assert(value_views(params@) =~= seq![SqlView::Text(session_id@)]);
    Statement { sql: PENDING_APPROVALS.to_owned(), params }
}

/// Writes how the approval of a message was resolved.
pub const UPDATE_APPROVAL: &'static str = "
            UPDATE messages
            SET approval_status = ?1, approval_resolved_at = ?2
            WHERE uuid = ?3
            ";

/// Writes how the approval of a message was resolved.
pub fn update_approval_status(uuid: &str, status: ApprovalStatus, resolved_at: i64) -> (r: Statement)
    ensures
        r.sql@ == UPDATE_APPROVAL@,
        value_views(r.params@) == seq![
            SqlView::Text(status.word()),
            SqlView::Integer(resolved_at),
            SqlView::Text(uuid@),
        ],
{
    let word = status.to_string();
    let params: Vec<SqlValue> = vec![
        text(word.as_str()),
        SqlValue::Integer(resolved_at),
        text(uuid),
    ];
    assert(value_views(params@) =~= seq![
        SqlView::Text(status.word()),
        SqlView::Integer(resolved_at),
        SqlView::Text(uuid@),
    ]);
    Statement { sql: UPDATE_APPROVAL.to_owned(), params }
}

/// Writes how the approval of a tool call was resolved.
pub const UPDATE_APPROVAL_BY_CALL: &'static str = "
            UPDATE messages
            SET approval_status = ?1, approval_resolved_at = ?2
            WHERE tool_call_id = ?3
            ";

/// Writes how the approval of a tool call was resolved.
pub fn update_approval_status_by_tool_call_id(tool_call_id: &str, status: ApprovalStatus, resolved_at: i64) -> (r: Statement)
    ensures
        r.sql@ == UPDATE_APPROVAL_BY_CALL@,
        value_views(r.params@) == seq![
            SqlView::Text(status.word()),
            SqlView::Integer(resolved_at),
            SqlView::Text(tool_call_id@),
        ],
{
    let word = status.to_string();
    let params: Vec<SqlValue> = vec![
        text(word.as_str()),
        SqlValue::Integer(resolved_at),
        text(tool_call_id),
    ];
    assert(value_views(params@) =~= seq![
        SqlView::Text(status.word()),
        SqlView::Integer(resolved_at),
        SqlView::Text(tool_call_id@),
    ]);
    Statement { sql: UPDATE_APPROVAL_BY_CALL.to_owned(), params }
}

// ---- Numbers of the store ----

/// Counts the projects.
pub fn count_projects() -> (r: Statement)
    ensures
        r.sql@ == "SELECT COUNT(*) FROM projects"@,
        r.params@.len() == 0,
{
    Statement { sql: "SELECT COUNT(*) FROM projects".to_owned(), params: Vec::new() }
}

/// Counts the sessions.
pub fn count_sessions() -> (r: Statement)
    ensures
        r.sql@ == "SELECT COUNT(*) FROM sessions"@,
        r.params@.len() == 0,
{
    Statement { sql: "SELECT COUNT(*) FROM sessions".to_owned(), params: Vec::new() }
}

/// Counts the messages.
pub fn count_messages() -> (r: Statement)
    ensures
        r.sql@ == "SELECT COUNT(*) FROM messages"@,
        r.params@.len() == 0,
{
    Statement { sql: "SELECT COUNT(*) FROM messages".to_owned(), params: Vec::new() }
}

// ---- Talks ----

/// Writes the summary of a talk. The longer summary stays as it is where none is given.
pub const UPSERT_TALK: &'static str = "
            INSERT INTO talks (session_id, talk_id, summary_l2, summary_l3, created_at, updated_at)
            VALUES (?1, ?2, ?3, ?4, ?5, ?5)
            ON CONFLICT(session_id, talk_id) DO UPDATE SET
                summary_l2 = excluded.summary_l2,
                summary_l3 = COALESCE(excluded.summary_l3, talks.summary_l3),
                updated_at = excluded.updated_at
            ";

/// What is bound to it.
pub open spec fn talk_values(
    session_id: Seq<char>,
    talk_id: Seq<char>,
    summary_l2: Seq<char>,
    summary_l3: Option<&str>,
    now: i64,
) -> Seq<SqlView> {
    seq![
        SqlView::Text(session_id),
        SqlView::Text(talk_id),
        SqlView::Text(summary_l2),
        match summary_l3 {
            Some(s) => SqlView::Text(s@),
            None => SqlView::Null,
        },
        SqlView::Integer(now),
    ]
}

/// Writes the summary of a talk at `now`.
pub fn upsert_talk_summary(
    session_id: &str,
    talk_id: &str,
    summary_l2: &str,
    summary_l3: Option<&str>,
    now: i64,
) -> (r: Statement)
    ensures
        r.sql@ == UPSERT_TALK@,
        value_views(r.params@) == talk_values(session_id@, talk_id@, summary_l2@, summary_l3, now),
{
    let params: Vec<SqlValue> = vec![
        text(session_id),
        text(talk_id),
        text(summary_l2),
        match summary_l3 {
            Some(s) => text(s),
            None => SqlValue::Null,
        },
        SqlValue::Integer(now),
    ];
    assert(value_views(params@) =~= talk_values(session_id@, talk_id@, summary_l2@, summary_l3, now));
    Statement { sql: UPSERT_TALK.to_owned(), params }
}

/// Lists the summaries of the talks of a session.
pub const TALKS_OF_SESSION: &'static str = "
            SELECT id, session_id, talk_id, summary_l2, summary_l3, created_at, updated_at
            FROM talks
            WHERE session_id = ?1
            ORDER BY created_at ASC
            ";

/// Lists the summaries of the talks of a session, the oldest first.
pub fn get_talk_summaries(session_id: &str) -> (r: Statement)
    ensures
        r.sql@ == TALKS_OF_SESSION@,
        value_views(r.params@) == seq![SqlView::Text(session_id@)],
{
    let params: Vec<SqlValue> = vec![text(session_id)];
    assert(value_views(params@) =~= seq![SqlView::Text(session_id@)]);
    Statement { sql: TALKS_OF_SESSION.to_owned(), params }
}

// ---- Relations between sessions ----

/// Writes that one session has started another.
pub const STORE_RELATION: &'static str = "
            INSERT OR IGNORE INTO session_relations (parent_session_id, child_session_id, relation_type, source)
            VALUES (?1, ?2, ?3, ?4)
            ";

/// Writes that one session has started another, unless that is known.
pub fn insert_session_relation(parent_id: &str, child_id: &str, relation_type: &str, source: &str) -> (r: Statement)
    ensures
        r.sql@ == STORE_RELATION@,
        value_views(r.params@) == seq![
            SqlView::Text(parent_id@),
            SqlView::Text(child_id@),
            SqlView::Text(relation_type@),
            SqlView::Text(source@),
        ],
{
    let params: Vec<SqlValue> = vec![text(parent_id), text(child_id), text(relation_type), text(source)];
    assert(value_views(params@) =~= seq![SqlView::Text(parent_id@), SqlView::Text(child_id@), SqlView::Text(relation_type@), SqlView::Text(source@)]);
    Statement { sql: STORE_RELATION.to_owned(), params }
}

/// Lists what a session has started.
pub const CHILDREN_OF_SESSION: &'static str = "
            SELECT parent_session_id, child_session_id, relation_type, source, created_at
            FROM session_relations
            WHERE parent_session_id = ?1
            ORDER BY created_at ASC
            ";

/// Lists what a session has started, the first first.
pub fn get_children_sessions(parent_session_id: &str) -> (r: Statement)
    ensures
        r.sql@ == CHILDREN_OF_SESSION@,
        value_views(r.params@) == seq![SqlView::Text(parent_session_id@)],
{
    let params: Vec<SqlValue> = vec![text(parent_session_id)];
    assert(value_views(params@) =~= seq![SqlView::Text(parent_session_id@)]);
    Statement { sql: CHILDREN_OF_SESSION.to_owned(), params }
}

/// Asks for what has started a session.
pub const PARENT_OF_SESSION: &'static str = "
            SELECT parent_session_id, child_session_id, relation_type, source, created_at
            FROM session_relations
            WHERE child_session_id = ?1
            LIMIT 1
            ";

/// Asks for what has started a session.
pub fn get_parent_session(child_session_id: &str) -> (r: Statement)
    ensures
        r.sql@ == PARENT_OF_SESSION@,
        value_views(r.params@) == seq![SqlView::Text(child_session_id@)],
{
    let params: Vec<SqlValue> = vec![text(child_session_id)];
    assert(value_views(params@) =~= seq![SqlView::Text(child_session_id@)]);
    Statement { sql: PARENT_OF_SESSION.to_owned(), params }
}

// ---- The registered writer ----

/// Asks for the registered writer.
pub fn current_writer() -> (r: Statement)
    ensures
        r.sql@ == "SELECT writer_type, writer_id, priority, heartbeat, registered_at FROM writer_registry WHERE id = 1"@,
        r.params@.len() == 0,
{
    Statement { sql: "SELECT writer_type, writer_id, priority, heartbeat, registered_at FROM writer_registry WHERE id = 1".to_owned(), params: Vec::new() }
}

/// Registers a process where nobody is registered, or who is has been silent for too long or is of a
/// lower priority; otherwise it changes nothing. One statement decides and writes.
pub const CLAIM_WRITER: &'static str = "
            INSERT INTO writer_registry (id, writer_type, writer_id, priority, heartbeat, registered_at)
            VALUES (1, ?1, ?2, ?3, ?4, ?4)
            ON CONFLICT(id) DO UPDATE SET
                writer_type = excluded.writer_type,
                writer_id = excluded.writer_id,
                priority = excluded.priority,
                heartbeat = excluded.heartbeat,
                registered_at = excluded.registered_at
            WHERE
                (?4 - writer_registry.heartbeat) > ?5
                OR excluded.priority > writer_registry.priority
            ";

/// What is bound where a process is registered.
pub open spec fn writer_values(c: Coordinator, now: i64) -> Seq<SqlView> {
    seq![
        SqlView::Text(c.writer_type.word()),
        SqlView::Text(c.writer_id@),
        SqlView::Integer(c.writer_type.rank() as i64),
        SqlView::Integer(now),
    ]
}

/// What is bound where a process is registered in the place of one that has been silent for too
/// long.
pub open spec fn claim_values(c: Coordinator, now: i64) -> Seq<SqlView> {
    writer_values(c, now).push(SqlView::Integer(c.config.timeout_threshold_ms as i64))
}

fn writer_params(c: &Coordinator, now: i64) -> (r: Vec<SqlValue>)
    ensures
        value_views(r@) == writer_values(*c, now),
{
    let params: Vec<SqlValue> = vec![
        text(c.writer_type.name()),
        text(c.writer_id.as_str()),
        SqlValue::Integer(c.writer_type.priority() as i64),
        SqlValue::Integer(now),
    ];
    assert(value_views(params@) =~= writer_values(*c, now));
    params
}

fn threshold_param(c: &Coordinator) -> (r: SqlValue)
    ensures
        r@ == SqlView::Integer(c.config.timeout_threshold_ms as i64),
{
    SqlValue::Integer(c.config.timeout_threshold_ms as i64)
}

/// Registers the process where it may register.
pub fn claim_writer(c: &Coordinator, now: i64) -> (r: Statement)
    ensures
        r.sql@ == CLAIM_WRITER@,
        value_views(r.params@) == claim_values(*c, now),
{
    let mut params = writer_params(c, now);
    let ghost before = params@;
    params.push(threshold_param(c));
    assert(value_views(params@) =~= value_views(before).push(params@.last()@));
    Statement { sql: CLAIM_WRITER.to_owned(), params }
}

/// What is bound where a process is heard of.
pub open spec fn renewal_values(c: Coordinator, now: i64) -> Seq<SqlView> {
    seq![SqlView::Integer(now), SqlView::Text(c.writer_id@)]
}

/// What is bound where a process is removed.
pub open spec fn release_values(c: Coordinator) -> Seq<SqlView> {
    seq![SqlView::Text(c.writer_id@)]
}

/// Lets the process be heard of where it is registered.
pub fn renew_writer(c: &Coordinator, now: i64) -> (r: Statement)
    ensures
        r.sql@ == "UPDATE writer_registry SET heartbeat = ?1 WHERE id = 1 AND writer_id = ?2"@,
        value_views(r.params@) == renewal_values(*c, now),
{
    let params: Vec<SqlValue> = vec![SqlValue::Integer(now), text(c.writer_id.as_str())];
    assert(value_views(params@) =~= seq![SqlView::Integer(now), SqlView::Text(c.writer_id@)]);
    Statement { sql: "UPDATE writer_registry SET heartbeat = ?1 WHERE id = 1 AND writer_id = ?2".to_owned(), params }
}

/// Removes the process where it is registered.
pub fn release_writer(c: &Coordinator) -> (r: Statement)
    ensures
        r.sql@ == "DELETE FROM writer_registry WHERE id = 1 AND writer_id = ?1"@,
        value_views(r.params@) == release_values(*c),
{
    let params: Vec<SqlValue> = vec![text(c.writer_id.as_str())];
    assert(value_views(params@) =~= seq![SqlView::Text(c.writer_id@)]);
    Statement { sql: "DELETE FROM writer_registry WHERE id = 1 AND writer_id = ?1".to_owned(), params }
}

/// Puts a process in the place of a writer that has been silent for too long.
pub const TAKE_OVER_WRITER: &'static str = "
            UPDATE writer_registry SET
                writer_type = ?1,
                writer_id = ?2,
                priority = ?3,
                heartbeat = ?4,
                registered_at = ?4
            WHERE id = 1
              AND (?4 - heartbeat) > ?5
            ";

/// Puts the process in the place of a writer that has been silent for too long.
pub fn take_over_writer(c: &Coordinator, now: i64) -> (r: Statement)
    ensures
        r.sql@ == TAKE_OVER_WRITER@,
        value_views(r.params@) == claim_values(*c, now),
{
    let mut params = writer_params(c, now);
    let ghost before = params@;
    params.push(threshold_param(c));
    assert(value_views(params@) =~= value_views(before).push(params@.last()@));
    Statement { sql: TAKE_OVER_WRITER.to_owned(), params }
}

/// Asks how many writers are registered.
pub fn count_writers() -> (r: Statement)
    ensures
        r.sql@ == "SELECT COUNT(*) FROM writer_registry WHERE id = 1"@,
        r.params@.len() == 0,
{
    Statement { sql: "SELECT COUNT(*) FROM writer_registry WHERE id = 1".to_owned(), params: Vec::new() }
}

/// Registers a process where nobody is; it fails where somebody is.
pub const FILL_VACANCY: &'static str = "
                INSERT INTO writer_registry (id, writer_type, writer_id, priority, heartbeat, registered_at)
                VALUES (1, ?1, ?2, ?3, ?4, ?4)
                ";

/// Registers the process where nobody is.
pub fn fill_vacancy(c: &Coordinator, now: i64) -> (r: Statement)
    ensures
        r.sql@ == FILL_VACANCY@,
        value_views(r.params@) == writer_values(*c, now),
{
    Statement { sql: FILL_VACANCY.to_owned(), params: writer_params(c, now) }
}

} // verus!

//! What the database of the sync state keeps: how far each session is pushed, and
//! who this device is. It can be thrown away; the server knows messages by their
//! uuid, so the worst is that they are pushed once more.
use vstd::prelude::*;
use crate::host::{is_random_id, new_id};
use crate::sql::{text, value_views, SqlValue, SqlView, Statement};

verus! {

/// The tables of the sync state.
pub const SYNC_DB_SCHEMA: &'static str = "
CREATE TABLE IF NOT EXISTS sync_cursors (
    session_id    TEXT PRIMARY KEY,
    last_sequence INTEGER NOT NULL DEFAULT 0,
    last_push_at  INTEGER NOT NULL DEFAULT 0
);

CREATE TABLE IF NOT EXISTS compact_cursors (
    session_id   TEXT NOT NULL,
    level        TEXT NOT NULL,
    last_id      TEXT NOT NULL,
    last_push_at INTEGER NOT NULL DEFAULT 0,
    PRIMARY KEY (session_id, level)
);

CREATE TABLE IF NOT EXISTS vector_cursors (
    session_id      TEXT PRIMARY KEY,
    last_message_id INTEGER NOT NULL DEFAULT 0,
    last_push_at    INTEGER NOT NULL DEFAULT 0
);

CREATE TABLE IF NOT EXISTS sync_state (
    key        TEXT PRIMARY KEY,
    value      TEXT NOT NULL,
    updated_at INTEGER NOT NULL DEFAULT (strftime('%s','now')*1000)
);
";

/// The column that the first version of the tables lacks.
pub const ADD_SYNCED_COUNT: &'static str =
    "ALTER TABLE sync_cursors ADD COLUMN synced_message_count INTEGER NOT NULL DEFAULT 0;";

/// How far a session is pushed and when that was: not at all where nothing is kept of it.
pub open spec fn cursor_of(row: Option<(i64, i64)>) -> (i64, i64) {
    match row {
        Some(c) => c,
        None => (0, 0),
    }
}

/// How far a session is pushed and when that was: not at all where nothing is kept of it.
pub fn get_cursor(row: Option<(i64, i64)>) -> (r: (i64, i64))
    ensures
        r == cursor_of(row),
{
    match row {
        Some(c) => c,
        None => (0, 0),
    }
}

/// Up to which message the vectors of a session are pushed.
pub fn get_vector_cursor(row: Option<i64>) -> (r: i64)
    ensures
        r == match row {
            Some(id) => id,
            None => 0,
        },
{
    row.unwrap_or(0)
}

/// Who this device is: as is kept, or else as chance says, which is then to be kept.
pub fn get_or_init_device_id(kept: Option<String>) -> (r: (String, bool))
    ensures
        match kept {
            Some(id) => r == (id, false),
            None => is_random_id(r.0@) && r.1,
        },
{
    match kept {
        Some(id) => (id, false),
        None => device_id_or(None, new_id()),
    }
}

/// Who this device is: as is kept, or else as `fresh` says, which is then to be kept.
pub fn device_id_or(kept: Option<String>, fresh: String) -> (r: (String, bool))
    ensures
        match kept {
            Some(id) => r == (id, false),
            None => r == (fresh, true),
        },
{
    match kept {
        Some(id) => (id, false),
        None => (fresh, true),
    }
}

/// Asks how far a session is pushed and when that was.
pub fn cursor_statement(session_id: &str) -> (r: Statement)
    ensures
        r.sql@ == "SELECT last_sequence, last_push_at FROM sync_cursors WHERE session_id = ?1"@,
        value_views(r.params@) == seq![SqlView::Text(session_id@)],
{
    let params: Vec<SqlValue> = vec![text(session_id)];
    assert(value_views(params@) =~= seq![SqlView::Text(session_id@)]);
    Statement { sql: "SELECT last_sequence, last_push_at FROM sync_cursors WHERE session_id = ?1".to_owned(), params }
}

/// Writes how far a session is pushed.
pub const UPDATE_CURSOR: &'static str = "INSERT INTO sync_cursors (session_id, last_sequence, last_push_at)
             VALUES (?1, ?2, ?3)
             ON CONFLICT(session_id) DO UPDATE SET
                last_sequence = excluded.last_sequence,
                last_push_at = excluded.last_push_at";

/// What is bound to it.
pub open spec fn cursor_values(session_id: Seq<char>, last_sequence: i64, now: i64) -> Seq<SqlView> {
    seq![SqlView::Text(session_id), SqlView::Integer(last_sequence), SqlView::Integer(now)]
}

/// Writes how far a session is pushed.
pub fn update_cursor(session_id: &str, last_sequence: i64, now: i64) -> (r: Statement)
    ensures
        r.sql@ == UPDATE_CURSOR@,
        value_views(r.params@) == cursor_values(session_id@, last_sequence, now),
{
    let params: Vec<SqlValue> = vec![text(session_id), SqlValue::Integer(last_sequence), SqlValue::Integer(now)];
    assert(value_views(params@) =~= seq![SqlView::Text(session_id@), SqlView::Integer(last_sequence), SqlView::Integer(now)]);
    Statement { sql: UPDATE_CURSOR.to_owned(), params }
}

/// Writes how far a session is pushed, and how many messages that are.
pub const UPDATE_CURSOR_WITH_COUNT: &'static str = "INSERT INTO sync_cursors (session_id, last_sequence, last_push_at, synced_message_count)
             VALUES (?1, ?2, ?3, ?4)
             ON CONFLICT(session_id) DO UPDATE SET
                last_sequence = excluded.last_sequence,
                last_push_at = excluded.last_push_at,
                synced_message_count = excluded.synced_message_count";

/// Writes how far a session is pushed, and how many messages that are.
pub fn update_cursor_with_count(session_id: &str, last_sequence: i64, now: i64, message_count: i64) -> (r: Statement)
    ensures
        r.sql@ == UPDATE_CURSOR_WITH_COUNT@,
        value_views(r.params@) == seq![
            SqlView::Text(session_id@),
            SqlView::Integer(last_sequence),
            SqlView::Integer(now),
            SqlView::Integer(message_count),
        ],
{
    let params: Vec<SqlValue> = vec![text(session_id), SqlValue::Integer(last_sequence), SqlValue::Integer(now), SqlValue::Integer(message_count)];
    assert(value_views(params@) =~= seq![SqlView::Text(session_id@), SqlView::Integer(last_sequence), SqlView::Integer(now), SqlView::Integer(message_count)]);
    Statement { sql: UPDATE_CURSOR_WITH_COUNT.to_owned(), params }
}

/// Lists how far all sessions are pushed.
pub fn get_all_cursors() -> (r: Statement)
    ensures
        r.sql@ == "SELECT session_id, last_sequence FROM sync_cursors"@,
        r.params@.len() == 0,
{
    Statement { sql: "SELECT session_id, last_sequence FROM sync_cursors".to_owned(), params: Vec::new() }
}

/// Asks up to which summary of a level a session is pushed.
pub fn get_compact_cursor(session_id: &str, level: &str) -> (r: Statement)
    ensures
        r.sql@ == "SELECT last_id FROM compact_cursors WHERE session_id = ?1 AND level = ?2"@,
        value_views(r.params@) == seq![SqlView::Text(session_id@), SqlView::Text(level@)],
{
    let params: Vec<SqlValue> = vec![text(session_id), text(level)];
    assert(value_views(params@) =~= seq![SqlView::Text(session_id@), SqlView::Text(level@)]);
    Statement { sql: "SELECT last_id FROM compact_cursors WHERE session_id = ?1 AND level = ?2".to_owned(), params }
}

/// Writes up to which summary of a level a session is pushed.
pub const UPDATE_COMPACT_CURSOR: &'static str = "INSERT INTO compact_cursors (session_id, level, last_id, last_push_at)
             VALUES (?1, ?2, ?3, ?4)
             ON CONFLICT(session_id, level) DO UPDATE SET
                last_id = excluded.last_id,
                last_push_at = excluded.last_push_at";

/// Writes up to which summary of a level a session is pushed.
pub fn update_compact_cursor(session_id: &str, level: &str, last_id: &str, now: i64) -> (r: Statement)
    ensures
        r.sql@ == UPDATE_COMPACT_CURSOR@,
        value_views(r.params@) == seq![
            SqlView::Text(session_id@),
            SqlView::Text(level@),
            SqlView::Text(last_id@),
            SqlView::Integer(now),
        ],
{
    let params: Vec<SqlValue> = vec![text(session_id), text(level), text(last_id), SqlValue::Integer(now)];
    assert(value_views(params@) =~= seq![SqlView::Text(session_id@), SqlView::Text(level@), SqlView::Text(last_id@), SqlView::Integer(now)]);
    Statement { sql: UPDATE_COMPACT_CURSOR.to_owned(), params }
}

/// Asks up to which message the vectors of a session are pushed.
pub fn vector_cursor_statement(session_id: &str) -> (r: Statement)
    ensures
        r.sql@ == "SELECT last_message_id FROM vector_cursors WHERE session_id = ?1"@,
        value_views(r.params@) == seq![SqlView::Text(session_id@)],
{
    let params: Vec<SqlValue> = vec![text(session_id)];
    assert(value_views(params@) =~= seq![SqlView::Text(session_id@)]);
    Statement { sql: "SELECT last_message_id FROM vector_cursors WHERE session_id = ?1".to_owned(), params }
}

/// Writes up to which message the vectors of a session are pushed.
pub const UPDATE_VECTOR_CURSOR: &'static str = "INSERT INTO vector_cursors (session_id, last_message_id, last_push_at)
             VALUES (?1, ?2, ?3)
             ON CONFLICT(session_id) DO UPDATE SET
                last_message_id = excluded.last_message_id,
                last_push_at = excluded.last_push_at";

/// Writes up to which message the vectors of a session are pushed.
pub fn update_vector_cursor(session_id: &str, last_message_id: i64, now: i64) -> (r: Statement)
    ensures
        r.sql@ == UPDATE_VECTOR_CURSOR@,
        value_views(r.params@) == seq![
            SqlView::Text(session_id@),
            SqlView::Integer(last_message_id),
            SqlView::Integer(now),
        ],
{
    let params: Vec<SqlValue> = vec![text(session_id), SqlValue::Integer(last_message_id), SqlValue::Integer(now)];
    assert(value_views(params@) =~= seq![SqlView::Text(session_id@), SqlView::Integer(last_message_id), SqlView::Integer(now)]);
    Statement { sql: UPDATE_VECTOR_CURSOR.to_owned(), params }
}

/// Asks for what is kept under a key.
pub fn get_state(key: &str) -> (r: Statement)
    ensures
        r.sql@ == "SELECT value FROM sync_state WHERE key = ?1"@,
        value_views(r.params@) == seq![SqlView::Text(key@)],
{
    let params: Vec<SqlValue> = vec![text(key)];
    assert(value_views(params@) =~= seq![SqlView::Text(key@)]);
    Statement { sql: "SELECT value FROM sync_state WHERE key = ?1".to_owned(), params }
}

/// Keeps a value under a key.
pub const SET_STATE: &'static str = "INSERT INTO sync_state (key, value, updated_at)
             VALUES (?1, ?2, ?3)
             ON CONFLICT(key) DO UPDATE SET
                value = excluded.value,
                updated_at = excluded.updated_at";

/// Keeps a value under a key.
pub fn set_state(key: &str, value: &str, now: i64) -> (r: Statement)
    ensures
        r.sql@ == SET_STATE@,
        value_views(r.params@) == seq![
            SqlView::Text(key@),
            SqlView::Text(value@),
            SqlView::Integer(now),
        ],
{
    let params: Vec<SqlValue> = vec![text(key), text(value), SqlValue::Integer(now)];
    assert(value_views(params@) =~= seq![SqlView::Text(key@), SqlView::Text(value@), SqlView::Integer(now)]);
    Statement { sql: SET_STATE.to_owned(), params }
}

/// Forgets how far anything is pushed, so that all of it is pushed again; what is kept under keys
/// stays.
pub const RESET: &'static str = "DELETE FROM sync_cursors;
             DELETE FROM compact_cursors;
             DELETE FROM vector_cursors;";

/// How far the sessions are pushed, as the table of cursors keeps it: each session has at most one
/// row there.
pub type CursorTable = Map<Seq<char>, (i64, i64)>;

/// The table once `UPDATE_CURSOR` has run with the values bound to it.
pub open spec fn after_update(table: CursorTable, values: Seq<SqlView>) -> CursorTable {
    match (values[0], values[1], values[2]) {
        (SqlView::Text(s), SqlView::Integer(n), SqlView::Integer(t)) => table.insert(s, (n, t)),
        _ => table,
    }
}

/// The row of the table that is found for a session.
pub open spec fn row_of(table: CursorTable, session_id: Seq<char>) -> Option<(i64, i64)> {
    if table.contains_key(session_id) {
        Some(table[session_id])
    } else {
        None
    }
}

/// The table once `RESET` has run: it is empty, as in the beginning.
pub open spec fn after_reset() -> CursorTable {
    Map::empty()
}

/// What is read of a session's cursor is what was last written for that session; other sessions
/// keep theirs; and before any write, as after a reset, nothing of any session is pushed.
pub proof fn cursor_reads_back(
    table: CursorTable,
    session: Seq<char>,
    other: Seq<char>,
    earlier: (i64, i64),
    latest: (i64, i64),
)
    ensures
        ({
            let once = after_update(table, cursor_values(session, earlier.0, earlier.1));
            let twice = after_update(once, cursor_values(session, latest.0, latest.1));
            &&& cursor_of(row_of(once, session)) == earlier
            &&& cursor_of(row_of(twice, session)) == latest
            &&& other != session ==> row_of(twice, other) == row_of(table, other)
        }),
        cursor_of(row_of(after_reset(), session)) == (0i64, 0i64),
{
}

} // verus!

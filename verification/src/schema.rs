//! The tables of the session store.
//!
//! Rows that do not say which tool they come from belong to one tool, whose word
//! the tables are made with.
use vstd::prelude::*;

verus! {

/// The table of projects, up to the tool that is taken for granted.
pub const PROJECTS_SQL: &'static str = "
CREATE TABLE IF NOT EXISTS projects (
    id INTEGER PRIMARY KEY AUTOINCREMENT,
    path TEXT NOT NULL UNIQUE,
    name TEXT NOT NULL,
    source TEXT NOT NULL DEFAULT ";

/// The rest of it, the table of sessions, and that of messages up to the tool.
pub const SESSIONS_SQL: &'static str = ",
    encoded_dir_name TEXT,
    created_at INTEGER NOT NULL DEFAULT (strftime('%s', 'now') * 1000),
    updated_at INTEGER NOT NULL DEFAULT (strftime('%s', 'now') * 1000)
);

CREATE TABLE IF NOT EXISTS sessions (
    id INTEGER PRIMARY KEY AUTOINCREMENT,
    session_id TEXT NOT NULL UNIQUE,
    project_id INTEGER NOT NULL REFERENCES projects(id),
    message_count INTEGER NOT NULL DEFAULT 0,
    last_message_at INTEGER,
    cwd TEXT,
    model TEXT,
    channel TEXT,
    file_mtime INTEGER,
    file_size INTEGER,
    file_offset INTEGER DEFAULT 0,
    file_inode INTEGER,
    encoded_dir_name TEXT,
    meta TEXT,
    created_at INTEGER NOT NULL DEFAULT (strftime('%s', 'now') * 1000),
    updated_at INTEGER NOT NULL DEFAULT (strftime('%s', 'now') * 1000)
);

CREATE TABLE IF NOT EXISTS messages (
    id INTEGER PRIMARY KEY AUTOINCREMENT,
    session_id TEXT NOT NULL,
    uuid TEXT NOT NULL UNIQUE,
    type TEXT NOT NULL,
    content_text TEXT NOT NULL,
    content_full TEXT NOT NULL,
    timestamp INTEGER NOT NULL,
    sequence INTEGER NOT NULL,
    source TEXT DEFAULT ";

/// The rest of the table of messages, and the tables behind it.
pub const MESSAGES_SQL: &'static str = ",
    channel TEXT,
    model TEXT,
    tool_call_id TEXT,
    tool_name TEXT,
    tool_args TEXT,
    raw TEXT,
    vector_indexed INTEGER DEFAULT 0,
    approval_status TEXT,
    approval_resolved_at INTEGER,

    FOREIGN KEY (session_id) REFERENCES sessions(session_id)
);

CREATE TABLE IF NOT EXISTS talks (
    id INTEGER PRIMARY KEY AUTOINCREMENT,
    session_id TEXT NOT NULL,
    talk_id TEXT NOT NULL,
    summary_l2 TEXT NOT NULL,
    summary_l3 TEXT,
    created_at INTEGER NOT NULL DEFAULT (strftime('%s', 'now') * 1000),
    updated_at INTEGER NOT NULL DEFAULT (strftime('%s', 'now') * 1000),
    UNIQUE(session_id, talk_id),
    FOREIGN KEY (session_id) REFERENCES sessions(session_id)
);

CREATE TABLE IF NOT EXISTS session_relations (
    parent_session_id TEXT NOT NULL,
    child_session_id  TEXT NOT NULL,
    relation_type     TEXT NOT NULL,
    source            TEXT NOT NULL,
    created_at        INTEGER NOT NULL DEFAULT (strftime('%s','now')*1000),
    PRIMARY KEY (parent_session_id, child_session_id, relation_type),
    CHECK (parent_session_id <> child_session_id)
);
";

/// The indexes of the store.
pub const INDEXES_SQL: &'static str = "
CREATE INDEX IF NOT EXISTS idx_projects_path ON projects(path);
CREATE INDEX IF NOT EXISTS idx_sessions_project ON sessions(project_id);
CREATE INDEX IF NOT EXISTS idx_sessions_updated ON sessions(updated_at DESC);
CREATE INDEX IF NOT EXISTS idx_sessions_last_message ON sessions(last_message_at);
CREATE INDEX IF NOT EXISTS idx_messages_session ON messages(session_id);
CREATE INDEX IF NOT EXISTS idx_messages_timestamp ON messages(timestamp);
CREATE INDEX IF NOT EXISTS idx_messages_uuid ON messages(uuid);
CREATE INDEX IF NOT EXISTS idx_messages_type ON messages(type);
CREATE INDEX IF NOT EXISTS idx_messages_vector_indexed ON messages(vector_indexed);
CREATE INDEX IF NOT EXISTS idx_messages_approval_status ON messages(approval_status) WHERE approval_status IS NOT NULL;
CREATE INDEX IF NOT EXISTS idx_messages_approval_pending ON messages(session_id, approval_status) WHERE approval_status = 'pending';
CREATE INDEX IF NOT EXISTS idx_talks_session ON talks(session_id);
CREATE INDEX IF NOT EXISTS idx_talks_talk_id ON talks(talk_id);
CREATE INDEX IF NOT EXISTS idx_session_relations_parent ON session_relations(parent_session_id);
CREATE INDEX IF NOT EXISTS idx_session_relations_child ON session_relations(child_session_id);
";

/// The full-text index of the messages, and the triggers that keep it up to date.
pub const FTS_SCHEMA_SQL: &'static str = "
CREATE VIRTUAL TABLE IF NOT EXISTS messages_fts USING fts5(
    content_full,
    content='messages',
    content_rowid='id',
    tokenize='unicode61'
);

CREATE TRIGGER IF NOT EXISTS messages_ai AFTER INSERT ON messages BEGIN
    INSERT INTO messages_fts(rowid, content_full) VALUES (new.id, new.content_full);
END;

CREATE TRIGGER IF NOT EXISTS messages_ad AFTER DELETE ON messages BEGIN
    INSERT INTO messages_fts(messages_fts, rowid, content_full) VALUES('delete', old.id, old.content_full);
END;

CREATE TRIGGER IF NOT EXISTS messages_au AFTER UPDATE ON messages BEGIN
    INSERT INTO messages_fts(messages_fts, rowid, content_full) VALUES('delete', old.id, old.content_full);
    INSERT INTO messages_fts(rowid, content_full) VALUES (new.id, new.content_full);
END;
";

/// The older form of the tables and indexes, up to the tool that is taken for granted.
pub const OLD_PROJECTS_SQL: &'static str = "
CREATE TABLE IF NOT EXISTS projects (
    id INTEGER PRIMARY KEY AUTOINCREMENT,
    path TEXT NOT NULL UNIQUE,
    name TEXT NOT NULL,
    source TEXT NOT NULL DEFAULT ";

/// The next part of it, up to the tool of messages.
pub const OLD_SESSIONS_SQL: &'static str = ",
    encoded_dir_name TEXT,
    created_at INTEGER NOT NULL DEFAULT (strftime('%s', 'now') * 1000),
    updated_at INTEGER NOT NULL DEFAULT (strftime('%s', 'now') * 1000)
);

CREATE TABLE IF NOT EXISTS sessions (
    id INTEGER PRIMARY KEY AUTOINCREMENT,
    session_id TEXT NOT NULL UNIQUE,
    project_id INTEGER NOT NULL REFERENCES projects(id),
    message_count INTEGER NOT NULL DEFAULT 0,
    last_message_at INTEGER,
    cwd TEXT,
    model TEXT,
    channel TEXT,
    file_mtime INTEGER,
    file_size INTEGER,
    file_offset INTEGER DEFAULT 0,
    file_inode INTEGER,
    encoded_dir_name TEXT,
    meta TEXT,
    created_at INTEGER NOT NULL DEFAULT (strftime('%s', 'now') * 1000),
    updated_at INTEGER NOT NULL DEFAULT (strftime('%s', 'now') * 1000)
);

CREATE TABLE IF NOT EXISTS messages (
    id INTEGER PRIMARY KEY AUTOINCREMENT,
    session_id TEXT NOT NULL,
    uuid TEXT NOT NULL UNIQUE,
    type TEXT NOT NULL,
    content_text TEXT NOT NULL,
    content_full TEXT NOT NULL,
    timestamp INTEGER NOT NULL,
    sequence INTEGER NOT NULL,
    source TEXT DEFAULT ";

/// The rest of it.
pub const OLD_MESSAGES_SQL: &'static str = ",
    channel TEXT,
    model TEXT,
    tool_call_id TEXT,
    tool_name TEXT,
    tool_args TEXT,
    raw TEXT,
    vector_indexed INTEGER DEFAULT 0,
    approval_status TEXT,
    approval_resolved_at INTEGER,
    FOREIGN KEY (session_id) REFERENCES sessions(session_id)
);

CREATE INDEX IF NOT EXISTS idx_projects_path ON projects(path);
CREATE INDEX IF NOT EXISTS idx_sessions_project ON sessions(project_id);
CREATE INDEX IF NOT EXISTS idx_sessions_updated ON sessions(updated_at DESC);
CREATE INDEX IF NOT EXISTS idx_sessions_last_message ON sessions(last_message_at);
CREATE INDEX IF NOT EXISTS idx_messages_session ON messages(session_id);
CREATE INDEX IF NOT EXISTS idx_messages_timestamp ON messages(timestamp);
CREATE INDEX IF NOT EXISTS idx_messages_uuid ON messages(uuid);
CREATE INDEX IF NOT EXISTS idx_messages_type ON messages(type);
CREATE INDEX IF NOT EXISTS idx_messages_vector_indexed ON messages(vector_indexed);
CREATE INDEX IF NOT EXISTS idx_messages_approval_status ON messages(approval_status) WHERE approval_status IS NOT NULL;
CREATE INDEX IF NOT EXISTS idx_messages_approval_pending ON messages(session_id, approval_status) WHERE approval_status = 'pending';

CREATE TABLE IF NOT EXISTS talks (
    id INTEGER PRIMARY KEY AUTOINCREMENT,
    session_id TEXT NOT NULL,
    talk_id TEXT NOT NULL,
    summary_l2 TEXT NOT NULL,
    summary_l3 TEXT,
    created_at INTEGER NOT NULL DEFAULT (strftime('%s', 'now') * 1000),
    updated_at INTEGER NOT NULL DEFAULT (strftime('%s', 'now') * 1000),
    UNIQUE(session_id, talk_id),
    FOREIGN KEY (session_id) REFERENCES sessions(session_id)
);

CREATE TABLE IF NOT EXISTS session_relations (
    parent_session_id TEXT NOT NULL,
    child_session_id  TEXT NOT NULL,
    relation_type     TEXT NOT NULL,
    source            TEXT NOT NULL,
    created_at        INTEGER NOT NULL DEFAULT (strftime('%s','now')*1000),
    PRIMARY KEY (parent_session_id, child_session_id, relation_type),
    CHECK (parent_session_id <> child_session_id)
);

CREATE INDEX IF NOT EXISTS idx_talks_session ON talks(session_id);
CREATE INDEX IF NOT EXISTS idx_talks_talk_id ON talks(talk_id);
CREATE INDEX IF NOT EXISTS idx_session_relations_parent ON session_relations(parent_session_id);
CREATE INDEX IF NOT EXISTS idx_session_relations_child ON session_relations(child_session_id);
";

/// The table that holds the one registered writer.
pub const COORDINATION_SCHEMA_SQL: &'static str = "
CREATE TABLE IF NOT EXISTS writer_registry (
    id INTEGER PRIMARY KEY,
    writer_type TEXT NOT NULL,
    writer_id TEXT NOT NULL,
    priority INTEGER NOT NULL,
    heartbeat INTEGER NOT NULL,
    registered_at INTEGER NOT NULL
);
";

/// A word as a statement holds it.
pub open spec fn literal(word: Seq<char>) -> Seq<char> {
    "'"@ + word + "'"@
}

/// The tables of the store, with the tool that is taken for granted.
pub open spec fn tables(source: Seq<char>) -> Seq<char> {
    PROJECTS_SQL@ + literal(source) + SESSIONS_SQL@ + literal(source) + MESSAGES_SQL@
}

fn push_literal(sql: &mut String, word: &str)
    ensures
        final(sql)@ == old(sql)@ + literal(word@),
{
    sql.push_str("'");
    sql.push_str(word);
    sql.push_str("'");
    assert(sql@ =~= old(sql)@ + literal(word@));
}

fn assembled(first: &str, second: &str, third: &str, source: &str) -> (r: String)
    ensures
        r@ == first@ + literal(source@) + second@ + literal(source@) + third@,
{
    let mut sql = first.to_owned();
    push_literal(&mut sql, source);
    sql.push_str(second);
    push_literal(&mut sql, source);
    sql.push_str(third);
    sql
}

/// The tables of the store, where `source` is the tool that is taken for granted.
pub fn tables_sql(source: &str) -> (r: String)
    requires
        !source@.contains('\''),
    ensures
        r@ == tables(source@),
{
    assembled(PROJECTS_SQL, SESSIONS_SQL, MESSAGES_SQL, source)
}

/// The older form of the tables and indexes in one, where `source` is the tool that is taken for
/// granted.
pub fn schema_sql(source: &str) -> (r: String)
    requires
        !source@.contains('\''),
    ensures
        r@ == OLD_PROJECTS_SQL@ + literal(source@) + OLD_SESSIONS_SQL@ + literal(source@)
            + OLD_MESSAGES_SQL@,
{
    assembled(OLD_PROJECTS_SQL, OLD_SESSIONS_SQL, OLD_MESSAGES_SQL, source)
}

/// All statements that create the store, with full-text search on request.
pub fn full_schema(fts: bool, source: &str) -> (r: String)
    requires
        !source@.contains('\''),
    ensures
        r@ == tables(source@) + INDEXES_SQL@ + if fts {
            FTS_SCHEMA_SQL@
        } else {
            Seq::empty()
        },
{
    let mut sql = tables_sql(source);
    sql.push_str(INDEXES_SQL);
    if fts {
        sql.push_str(FTS_SCHEMA_SQL);
    }
    assert(sql@ =~= tables(source@) + INDEXES_SQL@ + if fts {
        FTS_SCHEMA_SQL@
    } else {
        Seq::empty()
    });
    sql
}

/// The statements that create the tables, the indexes and, on request, full-text search, to be run
/// one after the other.
pub fn full_schema_parts(fts: bool, source: &str) -> (r: (String, String, Option<String>))
    requires
        !source@.contains('\''),
    ensures
        r.0@ == tables(source@),
        r.1@ == INDEXES_SQL@,
        match r.2 {
            Some(s) => fts && s@ == FTS_SCHEMA_SQL@,
            None => !fts,
        },
{
    let fts_sql = if fts {
        Some(FTS_SCHEMA_SQL.to_owned())
    } else {
        None
    };
    (tables_sql(source), INDEXES_SQL.to_owned(), fts_sql)
}

} // verus!

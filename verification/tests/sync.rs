//! Pushing: what is read, what is held back, and how far a session is pushed.
use ai_cli_session_db::session::SourceKind;
use ai_cli_session_db::sql::{SqlValue, Statement};
use ai_cli_session_db::sync::client;
use ai_cli_session_db::sync::client::{BatchStats, SessionSync, SyncStats, SyncStep};
use ai_cli_session_db::sync::db as sync_db;
use ai_cli_session_db::sync::filter::{FilterConfig, FilterMode, ProjectFilter, SensitiveWordFilter};
use ai_cli_session_db::sync::stream::{
    authenticate, http_to_ws_url, recv_ack, AckStep, AuthAck, Received,
};
use ai_cli_session_db::sync::worker;
use ai_cli_session_db::sync::worker::{
    Failures, StreamOutcome, WorkerAction, WorkerEvent, WorkerLoop, WorkerStep,
};
use ai_cli_session_db::sync::{
    SyncBatch, SyncChainNode, SyncConfig, SyncContinuationChain, SyncMessage, SyncProject,
    SyncSession, SyncSessionRelation, SyncTalk,
};
use rusqlite::types::Value;
use rusqlite::{Connection, OpenFlags, OptionalExtension, Row};
use std::path::Path;
use tempfile::TempDir;

/// The word that stands in the store for the tool whose sessions are read first.
fn tool() -> String {
    format!("{:?}", SourceKind::Claude).to_lowercase()
}

fn values(params: &[SqlValue]) -> Vec<Value> {
    params
        .iter()
        .map(|p| match p {
            SqlValue::Null => Value::Null,
            SqlValue::Integer(n) => Value::Integer(*n),
            SqlValue::Text(s) => Value::Text(s.clone()),
        })
        .collect()
}

fn execute(conn: &Connection, s: &Statement) -> usize {
    conn.execute(&s.sql, rusqlite::params_from_iter(values(&s.params))).unwrap()
}

fn rows<T>(conn: &Connection, s: &Statement, read: fn(&Row) -> rusqlite::Result<T>) -> Vec<T> {
    let mut stmt = conn.prepare(&s.sql).unwrap();
    let found = stmt
        .query_map(rusqlite::params_from_iter(values(&s.params)), |r| read(r))
        .unwrap();
    found.map(|r| r.unwrap()).collect()
}

fn one<T>(conn: &Connection, s: &Statement, read: fn(&Row) -> rusqlite::Result<T>) -> Option<T> {
    conn.query_row(&s.sql, rusqlite::params_from_iter(values(&s.params)), |r| read(r))
        .optional()
        .unwrap()
}

// ---- What is read of the store ----

fn setup_test_db(dir: &Path) -> String {
    let db_path = dir.join("ai-cli-session.db");
    let conn = Connection::open(&db_path).unwrap();
    conn.execute_batch(
        "
        PRAGMA journal_mode=WAL;
        CREATE TABLE projects (
            id INTEGER PRIMARY KEY AUTOINCREMENT,
            path TEXT NOT NULL UNIQUE,
            name TEXT NOT NULL,
            source TEXT NOT NULL,
            encoded_dir_name TEXT,
            repo_url TEXT,
            created_at INTEGER NOT NULL DEFAULT 0,
            updated_at INTEGER NOT NULL DEFAULT 0
        );
        CREATE TABLE sessions (
            id INTEGER PRIMARY KEY AUTOINCREMENT,
            session_id TEXT NOT NULL UNIQUE,
            project_id INTEGER NOT NULL REFERENCES projects(id),
            message_count INTEGER NOT NULL DEFAULT 0,
            last_message_at INTEGER,
            cwd TEXT,
            model TEXT,
            channel TEXT,
            file_mtime INTEGER,
            file_size INTEGER,
            file_offset INTEGER DEFAULT 0,
            file_inode INTEGER,
            encoded_dir_name TEXT,
            meta TEXT,
            session_type TEXT,
            source TEXT,
            created_at INTEGER NOT NULL DEFAULT 0,
            updated_at INTEGER NOT NULL DEFAULT 0
        );
        CREATE TABLE messages (
            id INTEGER PRIMARY KEY AUTOINCREMENT,
            session_id TEXT NOT NULL,
            uuid TEXT NOT NULL UNIQUE,
            type TEXT NOT NULL,
            content_text TEXT NOT NULL,
            content_full TEXT NOT NULL,
            timestamp INTEGER NOT NULL,
            sequence INTEGER NOT NULL,
            source TEXT,
            channel TEXT,
            model TEXT,
            tool_call_id TEXT,
            tool_name TEXT,
            tool_args TEXT,
            raw TEXT,
            vector_indexed INTEGER DEFAULT 0,
            approval_status TEXT,
            approval_resolved_at INTEGER
        );
        CREATE TABLE talks (
            id INTEGER PRIMARY KEY AUTOINCREMENT,
            session_id TEXT NOT NULL,
            talk_id TEXT NOT NULL,
            summary_l2 TEXT NOT NULL,
            summary_l3 TEXT,
            created_at INTEGER NOT NULL DEFAULT 0,
            updated_at INTEGER NOT NULL DEFAULT 0,
            UNIQUE(session_id, talk_id)
        );
        CREATE TABLE session_relations (
            parent_session_id TEXT NOT NULL,
            child_session_id TEXT NOT NULL,
            relation_type TEXT NOT NULL,
            source TEXT NOT NULL,
            created_at INTEGER NOT NULL DEFAULT 0,
            PRIMARY KEY (parent_session_id, child_session_id, relation_type)
        );
        CREATE TABLE continuation_chains (
            chain_id TEXT PRIMARY KEY,
            root_session_id TEXT NOT NULL UNIQUE,
            created_at INTEGER NOT NULL DEFAULT 0
        );
        CREATE TABLE continuation_chain_nodes (
            session_id TEXT PRIMARY KEY,
            chain_id TEXT NOT NULL,
            prev_session_id TEXT,
            depth INTEGER NOT NULL DEFAULT 0,
            created_at INTEGER NOT NULL DEFAULT 0
        );
        ",
    )
    .unwrap();
    db_path.to_string_lossy().to_string()
}

fn insert_project(conn: &Connection, path: &str, name: &str, repo_url: Option<&str>) -> i64 {
    conn.execute(
        "INSERT INTO projects (path, name, source, repo_url) VALUES (?1, ?2, ?3, ?4)",
        (path, name, tool(), repo_url),
    )
    .unwrap();
    conn.last_insert_rowid()
}

fn insert_session(conn: &Connection, session_id: &str, project_id: i64, msg_count: i64) {
    conn.execute(
        "INSERT INTO sessions (session_id, project_id, message_count, created_at, updated_at) VALUES (?1, ?2, ?3, 1000, 1000)",
        (session_id, project_id, msg_count),
    )
    .unwrap();
}

fn insert_message(
    conn: &Connection,
    uuid: &str,
    session_id: &str,
    sequence: i64,
    content: &str,
    raw: Option<&str>,
) {
    conn.execute(
        "INSERT INTO messages (session_id, uuid, type, content_text, content_full, timestamp, sequence, raw)
         VALUES (?1, ?2, 'assistant', ?3, ?3, ?4, ?4, ?5)",
        (session_id, uuid, content, sequence, raw),
    )
    .unwrap();
}

fn default_config() -> SyncConfig {
    SyncConfig {
        enabled: true,
        server: "http://localhost:10013".to_string(),
        api_key: "test-key".to_string(),
        batch_size: 500,
        ..Default::default()
    }
}

fn open_readonly(path: &str) -> Connection {
    let conn = Connection::open_with_flags(
        path,
        OpenFlags::SQLITE_OPEN_READ_ONLY | OpenFlags::SQLITE_OPEN_NO_MUTEX,
    )
    .unwrap();
    conn.execute_batch("PRAGMA query_only=ON;").unwrap();
    conn
}

fn message_of(r: &Row) -> rusqlite::Result<SyncMessage> {
    Ok(SyncMessage {
        uuid: r.get(0)?,
        session_id: r.get(1)?,
        msg_type: r.get(2)?,
        content_text: r.get(3)?,
        content_full: r.get(4)?,
        timestamp: r.get(5)?,
        sequence: r.get(6)?,
        source: r.get(7)?,
        channel: r.get(8)?,
        model: r.get(9)?,
        tool_call_id: r.get(10)?,
        tool_name: r.get(11)?,
        tool_args: r.get(12)?,
        raw: r.get(13)?,
        approval_status: r.get(14)?,
        approval_resolved_at: r.get(15)?,
    })
}

fn read_messages(conn: &Connection, config: &SyncConfig, id: &str, after: i64) -> Vec<SyncMessage> {
    let s = client::read_messages(id, after, config.sync_raw, config.batch_size);
    rows(conn, &s, message_of)
}

fn read_project(conn: &Connection, path: &str) -> Option<SyncProject> {
    one(conn, &client::read_project(path), |r| {
        Ok(SyncProject {
            path: r.get(0)?,
            name: r.get(1)?,
            source: r.get::<_, Option<String>>(2)?.unwrap_or_default(),
            repo_url: r.get(3)?,
        })
    })
}

fn read_session(conn: &Connection, id: &str) -> Option<SyncSession> {
    one(conn, &client::read_session(id), |r| {
        Ok(SyncSession {
            session_id: r.get(0)?,
            project_path: r.get(1)?,
            cwd: r.get(2)?,
            model: r.get(3)?,
            channel: r.get(4)?,
            message_count: r.get(5)?,
            last_message_at: r.get(6)?,
            session_type: r.get(7)?,
            source: r.get(8)?,
            meta: r.get(9)?,
            created_at: r.get(10)?,
            updated_at: r.get(11)?,
        })
    })
}

fn read_chains(conn: &Connection, id: &str) -> (Vec<SyncContinuationChain>, Vec<SyncChainNode>) {
    let chain: Option<String> = one(conn, &client::chain_of_session(id), |r| r.get(0));
    match chain {
        None => (vec![], vec![]),
        Some(chain_id) => {
            let chains = rows(conn, &client::read_chain(&chain_id), |r| {
                Ok(SyncContinuationChain { chain_id: r.get(0)?, root_session_id: r.get(1)? })
            });
            let nodes = rows(conn, &client::read_chain_nodes(&chain_id), |r| {
                Ok(SyncChainNode {
                    session_id: r.get(0)?,
                    chain_id: r.get(1)?,
                    prev_session_id: r.get(2)?,
                    depth: r.get(3)?,
                })
            });
            (chains, nodes)
        }
    }
}

fn list_syncable_sessions(conn: &Connection, config: &SyncConfig) -> Vec<(String, String)> {
    let filter = ProjectFilter::new(&config.include_projects, &config.exclude_projects).unwrap();
    let mut stmt = conn.prepare(client::SYNCABLE_SESSIONS).unwrap();
    let all: Vec<(String, String)> = stmt
        .query_map([], |r| Ok((r.get(0)?, r.get(1)?)))
        .unwrap()
        .map(|p| p.unwrap())
        .collect();
    client::list_syncable_sessions(&filter, all)
}

#[test]
fn test_readonly_prevents_writes() {
    let dir = TempDir::new().unwrap();
    let path = setup_test_db(dir.path());
    let conn = open_readonly(&path);
    let result = conn.execute("INSERT INTO projects (path, name) VALUES ('x', 'x')", []);
    assert!(result.is_err());
}

#[test]
fn test_read_messages_incremental() {
    let dir = TempDir::new().unwrap();
    let db_path = setup_test_db(dir.path());
    {
        let conn = Connection::open(&db_path).unwrap();
        let pid = insert_project(&conn, "/code/test", "test", None);
        insert_session(&conn, "sess-1", pid, 5);
        for i in 1..=5 {
            insert_message(&conn, &format!("uuid-{i}"), "sess-1", i, &format!("msg {i}"), None);
        }
    }
    let conn = open_readonly(&db_path);
    let config = default_config();
    assert_eq!(read_messages(&conn, &config, "sess-1", 0).len(), 5);
    let msgs = read_messages(&conn, &config, "sess-1", 3);
    assert_eq!(msgs.len(), 2);
    assert_eq!(msgs[0].sequence, 4);
    assert_eq!(msgs[1].sequence, 5);
    assert_eq!(read_messages(&conn, &config, "sess-1", 5).len(), 0);
}

fn raw_of_first(sync_raw: bool) -> Option<String> {
    let dir = TempDir::new().unwrap();
    let db_path = setup_test_db(dir.path());
    let mut config = default_config();
    config.sync_raw = sync_raw;
    {
        let conn = Connection::open(&db_path).unwrap();
        let pid = insert_project(&conn, "/code/test", "test", None);
        insert_session(&conn, "sess-1", pid, 1);
        insert_message(&conn, "uuid-1", "sess-1", 1, "hello", Some("{\"huge\":\"raw data\"}"));
    }
    let msgs = read_messages(&open_readonly(&db_path), &config, "sess-1", 0);
    assert_eq!(msgs.len(), 1);
    msgs[0].raw.clone()
}

#[test]
fn test_sync_raw_false_skips_raw_field() {
    assert!(raw_of_first(false).is_none());
}

#[test]
fn test_sync_raw_true_includes_raw_field() {
    assert_eq!(raw_of_first(true).as_deref(), Some("{\"huge\":\"raw data\"}"));
}

#[test]
fn test_batch_size_limits_messages() {
    let dir = TempDir::new().unwrap();
    let db_path = setup_test_db(dir.path());
    let mut config = default_config();
    config.batch_size = 3;
    {
        let conn = Connection::open(&db_path).unwrap();
        let pid = insert_project(&conn, "/code/test", "test", None);
        insert_session(&conn, "sess-1", pid, 10);
        for i in 1..=10 {
            insert_message(&conn, &format!("uuid-{i}"), "sess-1", i, &format!("msg {i}"), None);
        }
    }
    let msgs = read_messages(&open_readonly(&db_path), &config, "sess-1", 0);
    assert_eq!(msgs.len(), 3);
    assert_eq!(msgs[2].sequence, 3);
}

#[test]
fn test_list_syncable_sessions_filters_by_project() {
    let dir = TempDir::new().unwrap();
    let db_path = setup_test_db(dir.path());
    let mut config = default_config();
    config.include_projects = vec!["/Users/*/code/*".to_string()];
    {
        let conn = Connection::open(&db_path).unwrap();
        let pid1 = insert_project(&conn, "/Users/alice/code/ETerm", "ETerm", None);
        let pid2 = insert_project(&conn, "/Users/alice/scratch/test", "test", None);
        insert_session(&conn, "sess-1", pid1, 5);
        insert_session(&conn, "sess-2", pid2, 3);
    }
    let sessions = list_syncable_sessions(&open_readonly(&db_path), &config);
    assert_eq!(sessions.len(), 1);
    assert_eq!(sessions[0].0, "sess-1");
    assert_eq!(sessions[0].1, "/Users/alice/code/ETerm");
}

#[test]
fn test_collect_batch_assembles_all_data() {
    let dir = TempDir::new().unwrap();
    let db_path = setup_test_db(dir.path());
    {
        let conn = Connection::open(&db_path).unwrap();
        let pid = insert_project(
            &conn,
            "/code/ETerm",
            "ETerm",
            Some("git@github.com:vimo-ai/ETerm.git"),
        );
        insert_session(&conn, "sess-1", pid, 2);
        insert_message(&conn, "uuid-1", "sess-1", 1, "hello", None);
        insert_message(&conn, "uuid-2", "sess-1", 2, "world", None);
        conn.execute(
            "INSERT INTO talks (session_id, talk_id, summary_l2) VALUES ('sess-1', 'talk-1', 'summary here')",
            [],
        )
        .unwrap();
        conn.execute(
            "INSERT INTO session_relations (parent_session_id, child_session_id, relation_type, source) VALUES ('sess-1', 'agent-abc', 'subagent', ?1)",
            [tool()],
        )
        .unwrap();
    }
    let conn = open_readonly(&db_path);
    let (chains, nodes) = read_chains(&conn, "sess-1");
    let batch = client::collect_batch(
        read_project(&conn, "/code/ETerm"),
        read_session(&conn, "sess-1"),
        read_messages(&conn, &default_config(), "sess-1", 0),
        rows(&conn, &client::read_relations("sess-1"), |r| {
            Ok(SyncSessionRelation {
                parent_session_id: r.get(0)?,
                child_session_id: r.get(1)?,
                relation_type: r.get(2)?,
                source: r.get(3)?,
            })
        }),
        chains,
        nodes,
        rows(&conn, &client::read_talks("sess-1"), |r| {
            Ok(SyncTalk {
                session_id: r.get(0)?,
                talk_id: r.get(1)?,
                summary_l2: r.get(2)?,
                summary_l3: r.get(3)?,
            })
        }),
    );
    assert_eq!(batch.projects.len(), 1);
    assert_eq!(batch.projects[0].repo_url.as_deref(), Some("git@github.com:vimo-ai/ETerm.git"));
    assert_eq!(batch.sessions.len(), 1);
    assert_eq!(batch.messages.len(), 2);
    assert_eq!(batch.talks.len(), 1);
    assert_eq!(batch.talks[0].summary_l2, "summary here");
    assert_eq!(batch.session_relations.len(), 1);
    assert_eq!(batch.session_relations[0].child_session_id, "agent-abc");
}

#[test]
fn test_read_project_with_repo_url() {
    let dir = TempDir::new().unwrap();
    let db_path = setup_test_db(dir.path());
    {
        let conn = Connection::open(&db_path).unwrap();
        insert_project(&conn, "/code/ETerm", "ETerm", Some("git@github.com:vimo-ai/ETerm.git"));
    }
    let project = read_project(&open_readonly(&db_path), "/code/ETerm").unwrap();
    assert_eq!(project.name, "ETerm");
    assert_eq!(project.repo_url.as_deref(), Some("git@github.com:vimo-ai/ETerm.git"));
}

#[test]
fn test_read_project_without_repo_url() {
    let dir = TempDir::new().unwrap();
    let db_path = setup_test_db(dir.path());
    {
        let conn = Connection::open(&db_path).unwrap();
        insert_project(&conn, "/code/local-only", "local", None);
    }
    let project = read_project(&open_readonly(&db_path), "/code/local-only").unwrap();
    assert!(project.repo_url.is_none());
}

#[test]
fn test_empty_sessions_not_synced() {
    let dir = TempDir::new().unwrap();
    let db_path = setup_test_db(dir.path());
    {
        let conn = Connection::open(&db_path).unwrap();
        let pid = insert_project(&conn, "/code/test", "test", None);
        insert_session(&conn, "sess-empty", pid, 0);
        insert_session(&conn, "sess-has-msg", pid, 3);
    }
    let sessions = list_syncable_sessions(&open_readonly(&db_path), &default_config());
    assert_eq!(sessions.len(), 1);
    assert_eq!(sessions[0].0, "sess-has-msg");
}

#[test]
fn test_read_chains() {
    let dir = TempDir::new().unwrap();
    let db_path = setup_test_db(dir.path());
    {
        let conn = Connection::open(&db_path).unwrap();
        conn.execute_batch(
            "INSERT INTO continuation_chains (chain_id, root_session_id) VALUES ('chain-1', 'sess-root');
             INSERT INTO continuation_chain_nodes (session_id, chain_id, prev_session_id, depth) VALUES ('sess-root', 'chain-1', NULL, 0);
             INSERT INTO continuation_chain_nodes (session_id, chain_id, prev_session_id, depth) VALUES ('sess-cont', 'chain-1', 'sess-root', 1);",
        )
        .unwrap();
    }
    let (chains, nodes) = read_chains(&open_readonly(&db_path), "sess-root");
    assert_eq!(chains.len(), 1);
    assert_eq!(chains[0].root_session_id, "sess-root");
    assert_eq!(nodes.len(), 2);
}

#[test]
fn test_read_chains_no_chain() {
    let dir = TempDir::new().unwrap();
    let db_path = setup_test_db(dir.path());
    let (chains, nodes) = read_chains(&open_readonly(&db_path), "sess-no-chain");
    assert!(chains.is_empty());
    assert!(nodes.is_empty());
}

// ---- The sync state ----

struct SyncDb {
    conn: Connection,
    path: std::path::PathBuf,
}

impl SyncDb {
    fn open(dir: &Path) -> SyncDb {
        let path = dir.join("sync.db");
        let conn = Connection::open(&path).unwrap();
        conn.execute_batch(sync_db::SYNC_DB_SCHEMA).unwrap();
        let _ = conn.execute_batch(sync_db::ADD_SYNCED_COUNT);
        SyncDb { conn, path }
    }

    fn get_cursor(&self, id: &str) -> (i64, i64) {
        sync_db::get_cursor(one(&self.conn, &sync_db::cursor_statement(id), |r| {
            Ok((r.get(0)?, r.get(1)?))
        }))
    }

    fn get_compact_cursor(&self, id: &str, level: &str) -> Option<String> {
        one(&self.conn, &sync_db::get_compact_cursor(id, level), |r| r.get(0))
    }

    fn get_state(&self, key: &str) -> Option<String> {
        one(&self.conn, &sync_db::get_state(key), |r| r.get(0))
    }

    fn get_or_init_device_id(&self) -> String {
        let (id, keep) = sync_db::get_or_init_device_id(self.get_state("device_id"));
        if keep {
            execute(&self.conn, &sync_db::set_state("device_id", &id, 1));
        }
        id
    }
}

#[test]
fn test_sync_db_init() {
    let dir = TempDir::new().unwrap();
    let db = SyncDb::open(dir.path());
    assert!(db.path.exists());
}

#[test]
fn test_cursor_operations() {
    let dir = TempDir::new().unwrap();
    let db = SyncDb::open(dir.path());
    assert_eq!(db.get_cursor("sess-1"), (0, 0));
    execute(&db.conn, &sync_db::update_cursor("sess-1", 42, 7));
    let (seq, push_at) = db.get_cursor("sess-1");
    assert_eq!(seq, 42);
    assert!(push_at > 0);
    execute(&db.conn, &sync_db::update_cursor("sess-1", 100, 8));
    assert_eq!(db.get_cursor("sess-1").0, 100);
    execute(&db.conn, &sync_db::update_cursor_with_count("sess-1", 101, 9, 55));
    let n: i64 = db
        .conn
        .query_row("SELECT synced_message_count FROM sync_cursors", [], |r| r.get(0))
        .unwrap();
    assert_eq!(n, 55);
    let all: Vec<(String, i64)> =
        rows(&db.conn, &sync_db::get_all_cursors(), |r| Ok((r.get(0)?, r.get(1)?)));
    assert_eq!(all, vec![("sess-1".to_string(), 101)]);
}

#[test]
fn test_compact_cursor() {
    let dir = TempDir::new().unwrap();
    let db = SyncDb::open(dir.path());
    assert_eq!(db.get_compact_cursor("sess-1", "L2"), None);
    execute(&db.conn, &sync_db::update_compact_cursor("sess-1", "L2", "talk-abc", 1));
    assert_eq!(db.get_compact_cursor("sess-1", "L2"), Some("talk-abc".to_string()));
}

#[test]
fn test_device_id() {
    let dir = TempDir::new().unwrap();
    let db = SyncDb::open(dir.path());
    let id1 = db.get_or_init_device_id();
    let id2 = db.get_or_init_device_id();
    assert_eq!(id1, id2);
    assert_eq!(id1.len(), 36);
    assert_eq!(sync_db::device_id_or(None, "one".to_string()), ("one".to_string(), true));
    let kept = sync_db::device_id_or(Some("one".to_string()), "two".to_string());
    assert_eq!(kept, ("one".to_string(), false));
}

#[test]
fn test_reset() {
    let dir = TempDir::new().unwrap();
    let db = SyncDb::open(dir.path());
    execute(&db.conn, &sync_db::update_cursor("sess-1", 42, 7));
    let id = db.get_or_init_device_id();
    db.conn.execute_batch(sync_db::RESET).unwrap();
    assert_eq!(db.get_cursor("sess-1"), (0, 0));
    assert_eq!(db.get_state("device_id").as_deref(), Some(id.as_str()));
}

#[test]
fn vectors_have_a_cursor() {
    let dir = TempDir::new().unwrap();
    let db = SyncDb::open(dir.path());
    let read = |db: &SyncDb| {
        sync_db::get_vector_cursor(one(&db.conn, &sync_db::vector_cursor_statement("s"), |r| {
            r.get(0)
        }))
    };
    assert_eq!(read(&db), 0);
    execute(&db.conn, &sync_db::update_vector_cursor("s", 12, 1));
    assert_eq!(read(&db), 12);
}

// ---- What is held back ----

fn make_test_batch() -> SyncBatch {
    SyncBatch {
        projects: vec![],
        sessions: vec![],
        messages: vec![],
        session_relations: vec![],
        continuation_chains: vec![],
        chain_nodes: vec![],
        talks: vec![],
    }
}

fn make_msg(uuid: &str, content: &str) -> SyncMessage {
    make_msg_with_session(uuid, "sess-default", content)
}

fn make_msg_with_session(uuid: &str, session_id: &str, content: &str) -> SyncMessage {
    SyncMessage {
        uuid: uuid.to_string(),
        session_id: session_id.to_string(),
        msg_type: "assistant".to_string(),
        content_text: content.to_string(),
        content_full: content.to_string(),
        timestamp: 0,
        sequence: 0,
        source: None,
        channel: None,
        model: None,
        tool_call_id: None,
        tool_name: None,
        tool_args: None,
        raw: None,
        approval_status: None,
        approval_resolved_at: None,
    }
}

fn make_session(id: &str, path: &str) -> SyncSession {
    SyncSession {
        session_id: id.to_string(),
        project_path: path.to_string(),
        cwd: None,
        model: None,
        channel: None,
        message_count: 0,
        last_message_at: None,
        session_type: None,
        source: None,
        meta: None,
        created_at: 0,
        updated_at: 0,
    }
}

fn make_project(path: &str, name: &str) -> SyncProject {
    SyncProject {
        path: path.to_string(),
        name: name.to_string(),
        source: tool(),
        repo_url: None,
    }
}

#[test]
fn test_sensitive_word_filter_redact() {
    let filter =
        SensitiveWordFilter::from_str("password\nsecret_key\napi_token", FilterMode::Redact)
            .unwrap();
    assert_eq!(filter.patterns_count(), 3);
    assert!(filter.contains_sensitive("my password is 123"));
    assert!(!filter.contains_sensitive("nothing here"));
    assert_eq!(filter.redact("my password is 123"), "my *** is 123");
    assert_eq!(filter.redact("use secret_key and api_token"), "use *** and ***");
}

#[test]
fn every_word_is_blotted_out_and_all_else_kept() {
    let filter = SensitiveWordFilter::from_str("key\ntoken", FilterMode::Redact).unwrap();
    assert_eq!(filter.redact("keytoken, KEY and Token."), "******, *** and ***.");
    assert_eq!(filter.redact("好key好"), "好***好");
    assert_eq!(filter.redact("key"), "***");
    assert_eq!(filter.redact("Ke y"), "Ke y");
    assert_eq!(filter.redact(""), "");
}

#[test]
fn test_sensitive_word_filter_comments() {
    let filter = SensitiveWordFilter::from_str(
        "# comment line\npassword\n  \n# another comment\nsecret",
        FilterMode::Redact,
    )
    .unwrap();
    assert_eq!(filter.patterns_count(), 2);
}

#[test]
fn test_sensitive_word_filter_block() {
    let filter = SensitiveWordFilter::from_str("secret", FilterMode::Block).unwrap();
    let mut batch = make_test_batch();
    batch.messages.push(make_msg("msg-1", "contains secret data"));
    batch.messages.push(make_msg("msg-2", "safe message"));
    filter.filter_batch(&mut batch);
    assert_eq!(batch.messages.len(), 1);
    assert_eq!(batch.messages[0].uuid, "msg-2");
}

#[test]
fn test_sensitive_word_filter_redact_batch() {
    let filter = SensitiveWordFilter::from_str("secret", FilterMode::Redact).unwrap();
    let mut batch = make_test_batch();
    batch.messages.push(make_msg("msg-1", "my secret value"));
    filter.filter_batch(&mut batch);
    assert_eq!(batch.messages[0].content_text, "my *** value");
    assert_eq!(batch.messages[0].content_full, "my *** value");
}

#[test]
fn test_project_filter_include() {
    let filter = ProjectFilter::new(&vec!["/Users/*/code/*".to_string()], &vec![]).unwrap();
    assert!(filter.is_allowed("/Users/alice/code/ETerm"));
    assert!(!filter.is_allowed("/Users/alice/scratch/test"));
}

#[test]
fn test_project_filter_exclude() {
    let filter = ProjectFilter::new(
        &vec![],
        &vec!["**/playground-*".to_string(), "**/scratch".to_string()],
    )
    .unwrap();
    assert!(filter.is_allowed("/Users/alice/code/ETerm"));
    assert!(!filter.is_allowed("/Users/alice/playground-test"));
    assert!(!filter.is_allowed("/Users/alice/scratch"));
}

#[test]
fn test_project_filter_exclude_overrides_include() {
    let filter = ProjectFilter::new(
        &vec!["/Users/*/code/*".to_string()],
        &vec!["**/code/scratch".to_string()],
    )
    .unwrap();
    assert!(filter.is_allowed("/Users/alice/code/ETerm"));
    assert!(!filter.is_allowed("/Users/alice/code/scratch"));
}

#[test]
fn test_project_filter_empty_allows_all() {
    let filter = ProjectFilter::new(&vec![], &vec![]).unwrap();
    assert!(filter.is_allowed("/any/path/here"));
}

#[test]
fn test_project_filter_batch() {
    let filter = ProjectFilter::new(&vec!["/Users/*/code/*".to_string()], &vec![]).unwrap();
    let mut batch = make_test_batch();
    batch.projects.push(make_project("/Users/alice/code/ETerm", "ETerm"));
    batch.projects.push(make_project("/Users/alice/scratch/test", "test"));
    batch.sessions.push(make_session("sess-1", "/Users/alice/code/ETerm"));
    batch.sessions.push(make_session("sess-2", "/Users/alice/scratch/test"));
    batch.messages.push(make_msg_with_session("msg-1", "sess-1", "hello"));
    batch.messages.push(make_msg_with_session("msg-2", "sess-2", "world"));
    filter.filter_batch(&mut batch);
    assert_eq!(batch.projects.len(), 1);
    assert_eq!(batch.sessions.len(), 1);
    assert_eq!(batch.messages.len(), 1);
    assert_eq!(batch.messages[0].session_id, "sess-1");
}

#[test]
fn a_glob_that_is_none_is_refused() {
    assert!(ProjectFilter::new(&vec!["[".to_string()], &vec![]).is_err());
    assert!(ProjectFilter::new(&vec![], &vec!["[".to_string()]).is_err());
}

// ---- Rounds ----

#[test]
fn a_session_is_pushed_in_batches() {
    let all = ProjectFilter::new(&vec![], &vec![]).unwrap();
    let mut batch = make_test_batch();
    batch.projects.push(make_project("/p", "p"));
    batch.sessions.push(make_session("s", "/p"));
    for n in 1..=2 {
        let mut m = make_msg_with_session(&format!("m{n}"), "s", "text");
        m.sequence = n + 10;
        m.timestamp = n;
        batch.messages.push(m);
    }
    let cursors = client::push_cursors(&batch.messages);
    assert_eq!(cursors.len(), 1);
    assert_eq!((cursors[0].1.last_sequence, cursors[0].1.last_timestamp), (12, 2));
    let state = match SessionSync::start(10, 2).collected(batch.clone(), &all, None) {
        SyncStep::Push(p) => {
            assert_eq!(p.next_cursor, 12);
            let (state, done) = p.pushed(2, 0);
            assert!(!done);
            state
        }
        _ => panic!("nothing is pushed"),
    };
    assert_eq!((state.cursor, state.messages_pushed), (12, 2));
    let nobody = ProjectFilter::new(&vec!["/other".to_string()], &vec![]).unwrap();
    match SessionSync::start(10, 2).collected(batch, &nobody, None) {
        SyncStep::Skip(s) => assert_eq!(s.cursor, 12),
        _ => panic!("what is held back is pushed"),
    }
    match state.collected(make_test_batch(), &all, None) {
        SyncStep::Done(s) => assert_eq!(s, BatchStats { messages_pushed: 2, messages_skipped: 0 }),
        _ => panic!("an empty batch is pushed"),
    }
    let mut stats = SyncStats::default();
    stats.record(Some(BatchStats { messages_pushed: 2, messages_skipped: 1 }));
    stats.record(None);
    assert_eq!((stats.sessions_synced, stats.sessions_failed), (1, 1));
    assert_eq!((stats.messages_pushed, stats.messages_skipped), (2, 1));
}

#[test]
fn words_are_blocked_in_a_round() {
    let all = ProjectFilter::new(&vec![], &vec![]).unwrap();
    let words = SensitiveWordFilter::from_str("secret", FilterMode::Block).unwrap();
    let mut batch = make_test_batch();
    batch.sessions.push(make_session("s", "/p"));
    let mut m = make_msg_with_session("m", "s", "a secret");
    m.sequence = 4;
    batch.messages.push(m);
    match SessionSync::start(0, 10).collected(batch, &all, Some(&words)) {
        SyncStep::Skip(s) => assert_eq!(s.cursor, 4),
        _ => panic!("a blocked message is pushed"),
    }
}

#[test]
fn pushes_have_an_address() {
    assert_eq!(client::push_url("http://host:1/"), "http://host:1/api/sync/push");
    assert_eq!(client::push_failure("500", "no"), "push 失败 (500): no");
}

#[test]
fn test_http_to_ws_url() {
    assert_eq!(http_to_ws_url("http://localhost:10013"), "ws://localhost:10013/api/sync/stream");
    assert_eq!(
        http_to_ws_url("https://nas.example.com:10013/"),
        "wss://nas.example.com:10013/api/sync/stream"
    );
    assert_eq!(
        http_to_ws_url("192.168.1.100:10013"),
        "ws://192.168.1.100:10013/api/sync/stream"
    );
}

#[test]
fn the_stream_answers() {
    let ok = AuthAck::Accepted { server_version: "1".to_string() };
    assert_eq!(authenticate(ok), Ok("1".to_string()));
    let no = AuthAck::Refused { message: "who?".to_string() };
    assert_eq!(authenticate(no), Err("ws auth failed: who?".to_string()));
    let odd = AuthAck::Other { shown: "Pong".to_string() };
    assert_eq!(authenticate(odd), Err("unexpected auth response: Pong".to_string()));
    assert!(matches!(recv_ack(Received::Text("t".to_string())), AckStep::Parse(t) if t == "t"));
    assert!(matches!(recv_ack(Received::Other), AckStep::Wait));
    match recv_ack(Received::Close) {
        AckStep::Failed(e) => assert_eq!(e, "ws connection closed by server"),
        _ => panic!("a closed stream answers"),
    }
    match recv_ack(Received::Ended) {
        AckStep::Failed(e) => assert_eq!(e, "ws connection closed"),
        _ => panic!("an ended stream answers"),
    }
}

#[test]
fn the_worker_waits_longer_each_time() {
    let mut w = WorkerLoop::new();
    assert_eq!(w.next_round(true, true, true), WorkerAction::Exit);
    assert_eq!(w.next_round(false, true, true), WorkerAction::Sleep);
    assert_eq!(w.next_round(false, false, false), WorkerAction::HttpOnly);
    assert_eq!(w.next_round(false, false, true), WorkerAction::OpenStream);
    let mut waits = Vec::new();
    for _ in 0..8 {
        match w.after_stream(StreamOutcome::ConnectFailed) {
            WorkerAction::Fallback(s) => waits.push(s),
            _ => panic!("a failed stream ends the worker"),
        }
        assert!(w.after_fallback(false));
    }
    assert_eq!(waits, vec![1, 2, 4, 8, 16, 32, 60, 60]);
    assert_eq!(w.after_stream(StreamOutcome::Disconnected), WorkerAction::Fallback(1));
    assert!(!w.after_fallback(true));
    assert_eq!(w.after_stream(StreamOutcome::Shutdown), WorkerAction::Exit);
    assert_eq!(w.after_stream(StreamOutcome::AuthFailed), WorkerAction::Fallback(1));
}

/// A second in nanoseconds.
const SECOND: u64 = 1_000_000_000;

#[test]
fn a_failed_session_is_left_alone_for_a_while() {
    let mut f = Failures::new();
    assert!(!f.in_cooldown("s", 0));
    f.failed("s", 100 * SECOND);
    assert!(f.in_cooldown("s", 159 * SECOND));
    assert!(f.in_cooldown("s", 160 * SECOND - 1));
    assert!(!f.in_cooldown("s", 160 * SECOND));
    assert!(!f.in_cooldown("t", 100 * SECOND));
    f.succeeded("s");
    assert!(!f.in_cooldown("s", 101 * SECOND));
    f.failed("s", 900_000_000);
    assert!(f.in_cooldown("s", 60_500_000_000));
    assert!(!f.in_cooldown("s", 60_900_000_000));
    let ids = vec!["a".to_string(), "b".to_string(), "a".to_string()];
    assert_eq!(worker::distinct(&ids), vec!["a".to_string(), "b".to_string()]);
    assert!(worker::restored_paused(&Some("true".to_string())));
    assert!(!worker::restored_paused(&None));
    assert!(worker::must_register(false, "key", "name"));
    assert!(!worker::must_register(true, "key", "name"));
}

#[test]
fn a_tilde_is_the_home_directory() {
    let mut f = FilterConfig::default();
    assert_eq!(client::sensitive_words_path(&f), None);
    f.sensitive_words_file = "/etc/words~".to_string();
    assert_eq!(client::sensitive_words_path(&f), None);
    f.enabled = true;
    assert_eq!(client::sensitive_words_path(&f).as_deref(), Some("/etc/words~"));
    f.sensitive_words_file = String::new();
    assert_eq!(client::sensitive_words_path(&f), None);
    f.sensitive_words_file = "~/words".to_string();
    let expected = match dirs::home_dir() {
        Some(home) => format!("{}/words", home.display()),
        None => "~/words".to_string(),
    };
    assert_eq!(client::sensitive_words_path(&f), Some(expected));
    let mut c = SyncConfig::default();
    assert_eq!(worker::ca_cert_path(&c), None);
    c.ca_cert = Some("~other/ca.pem".to_string());
    assert_eq!(worker::ca_cert_path(&c).as_deref(), Some("~other/ca.pem"));
}

fn ids(step: WorkerStep) -> Vec<String> {
    match step {
        WorkerStep::PushSessions(ids) => ids,
        other => panic!("no sessions are pushed: {:?}", other),
    }
}

fn triggered() -> Option<WorkerEvent> {
    let s = ["b", "a", "b"];
    Some(WorkerEvent::Triggered(s.iter().map(|i| i.to_string()).collect()))
}

#[test]
fn the_stream_is_left_while_paused() {
    assert!(matches!(worker::run_ws_event_loop(&None, true), WorkerStep::Leave));
    assert!(matches!(worker::run_ws_event_loop(&None, false), WorkerStep::Wait));
    assert!(matches!(worker::run_ws_event_loop(&triggered(), true), WorkerStep::Wait));
    assert_eq!(ids(worker::run_ws_event_loop(&triggered(), false)), ["b", "a"]);
    let round = Some(WorkerEvent::Periodic);
    assert!(matches!(worker::run_ws_event_loop(&round, true), WorkerStep::Wait));
    assert!(matches!(worker::run_ws_event_loop(&round, false), WorkerStep::PushAll));
    let beat = Some(WorkerEvent::Heartbeat);
    assert!(matches!(worker::run_ws_event_loop(&beat, true), WorkerStep::SendHeartbeat));
    let end = Some(WorkerEvent::Shutdown);
    assert!(matches!(worker::run_ws_event_loop(&end, true), WorkerStep::Exit));
    assert!(matches!(worker::after_ws_send(true), WorkerStep::Wait));
    assert!(matches!(worker::after_ws_send(false), WorkerStep::Leave));
}

#[test]
fn single_requests_spare_failed_sessions() {
    let mut f = Failures::new();
    f.failed("b", 100 * SECOND);
    assert!(matches!(f.run_http_event_loop(&None, true, 0), WorkerStep::Sleep));
    assert!(matches!(f.run_http_event_loop(&None, false, 0), WorkerStep::Wait));
    assert!(matches!(f.run_http_event_loop(&triggered(), true, 0), WorkerStep::Wait));
    assert_eq!(ids(f.run_http_event_loop(&triggered(), false, 159 * SECOND)), ["a"]);
    assert_eq!(ids(f.run_http_event_loop(&triggered(), false, 160 * SECOND)), ["b", "a"]);
    let round = Some(WorkerEvent::Periodic);
    assert!(matches!(f.run_http_event_loop(&round, true, 110 * SECOND), WorkerStep::Wait));
    assert!(f.in_cooldown("b", 110 * SECOND));
    assert!(matches!(f.run_http_event_loop(&round, false, 110 * SECOND), WorkerStep::PushAll));
    assert!(!f.in_cooldown("b", 110 * SECOND));
    let end = Some(WorkerEvent::Shutdown);
    assert!(matches!(f.run_http_event_loop(&end, false, 110 * SECOND), WorkerStep::Exit));
}

#[test]
fn single_requests_bridge_the_wait() {
    assert!(matches!(worker::enter_http_fallback(true), WorkerStep::Wait));
    assert!(matches!(worker::enter_http_fallback(false), WorkerStep::PushAll));
    assert!(matches!(worker::run_http_fallback_once(&None, false, 0), WorkerStep::Leave));
    assert!(matches!(worker::run_http_fallback_once(&None, true, 5), WorkerStep::Leave));
    assert!(matches!(worker::run_http_fallback_once(&None, false, 5), WorkerStep::Wait));
    assert_eq!(ids(worker::run_http_fallback_once(&triggered(), true, 5)), ["b", "a"]);
    let round = Some(WorkerEvent::Periodic);
    assert!(matches!(worker::run_http_fallback_once(&round, true, 5), WorkerStep::Wait));
    assert!(matches!(worker::run_http_fallback_once(&round, false, 5), WorkerStep::PushAll));
    let end = Some(WorkerEvent::Shutdown);
    assert!(matches!(worker::run_http_fallback_once(&end, true, 5), WorkerStep::Exit));
    assert_eq!(worker::fallback_wait(1000, 300), 300);
    assert_eq!(worker::fallback_wait(200, 300), 200);
}

#[test]
fn a_key_is_configured_or_kept() {
    let kept = || Some("kept".to_string());
    assert_eq!(client::effective_api_key("set", kept()).as_deref(), Some("set"));
    assert_eq!(client::effective_api_key("", kept()).as_deref(), Some("kept"));
    assert_eq!(client::effective_api_key("", None), None);
    assert!(client::ends_round(true, true));
    assert!(!client::ends_round(true, false));
    assert!(!client::ends_round(false, true));
}

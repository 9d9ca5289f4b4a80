//! The store on a real database: the statements of the library run on SQLite.
use ai_cli_session_db::config::DbConfig;
use ai_cli_session_db::coordination::{
    CoordinationConfig, Coordinator, Role, WriteAccess, WriterHealth, WriterInfo, WriterType,
};
use ai_cli_session_db::db;
use ai_cli_session_db::db::{
    IntegrityCheckResult, MessageInput, MessageRow, ProjectLoad, SessionInput, SessionRow, TalkRow,
};
use ai_cli_session_db::error::Error;
use ai_cli_session_db::migrations;
use ai_cli_session_db::paths::PathStyle;
use ai_cli_session_db::queries;
use ai_cli_session_db::schema;
use ai_cli_session_db::search;
use ai_cli_session_db::search::SearchRequest;
use ai_cli_session_db::session::SourceKind;
use ai_cli_session_db::sql::{SqlValue, Statement};
use ai_cli_session_db::types::{
    ApprovalStatus, Message, MessageType, Project, SearchOrderBy, Session, Stats,
};
use ai_cli_session_db::writer::scan_session_incremental;
use rusqlite::types::Value;
use rusqlite::{Connection, OptionalExtension, Row};
use tempfile::TempDir;

const UNIX: PathStyle = PathStyle::Unix;

/// The word that stands in the store for the tool whose sessions are read first.
fn tool() -> String {
    format!("{:?}", SourceKind::Claude).to_lowercase()
}

fn values(params: &[SqlValue]) -> Vec<Value> {
    params
        .iter()
        .map(|p| match p {
            SqlValue::Null => Value::Null,
            SqlValue::Integer(n) => Value::Integer(*n),
            SqlValue::Text(s) => Value::Text(s.clone()),
        })
        .collect()
}

fn execute(conn: &Connection, s: &Statement) -> usize {
    conn.execute(&s.sql, rusqlite::params_from_iter(values(&s.params))).unwrap()
}

fn rows<T>(conn: &Connection, s: &Statement, read: fn(&Row) -> rusqlite::Result<T>) -> Vec<T> {
    let mut stmt = conn.prepare(&s.sql).unwrap();
    let found = stmt
        .query_map(rusqlite::params_from_iter(values(&s.params)), |r| read(r))
        .unwrap();
    found.map(|r| r.unwrap()).collect()
}

fn one<T>(conn: &Connection, s: &Statement, read: fn(&Row) -> rusqlite::Result<T>) -> Option<T> {
    conn.query_row(&s.sql, rusqlite::params_from_iter(values(&s.params)), |r| read(r))
        .optional()
        .unwrap()
}

fn count(conn: &Connection, s: &Statement) -> i64 {
    one(conn, s, |r| r.get(0)).unwrap()
}

fn table_exists(conn: &Connection, table: &str) -> bool {
    let n: i64 = conn
        .query_row(
            "SELECT COUNT(*) FROM sqlite_master WHERE type='table' AND name=?1",
            [table],
            |row| row.get(0),
        )
        .unwrap();
    n > 0
}

fn columns(conn: &Connection, table: &str) -> Vec<String> {
    let mut stmt = conn.prepare(&format!("PRAGMA table_info({})", table)).unwrap();
    let names = stmt.query_map([], |row| row.get(1)).unwrap();
    names.map(|n| n.unwrap()).collect()
}

fn column_exists(conn: &Connection, table: &str, column: &str) -> bool {
    columns(conn, table).iter().any(|c| c == column)
}

/// Brings the tables up to date; says how many columns were added.
fn ensure_schema(conn: &Connection) -> usize {
    let (tables, indexes, fts) = schema::full_schema_parts(true, &tool());
    conn.execute_batch(&tables).unwrap();
    let mut added = migrations::ensure_sessions_columns(
        table_exists(conn, "sessions"),
        &columns(conn, "sessions"),
    );
    added.extend(migrations::ensure_messages_columns(
        table_exists(conn, "messages"),
        &columns(conn, "messages"),
        &tool(),
    ));
    for sql in &added {
        conn.execute(sql, []).unwrap();
    }
    conn.execute_batch(&indexes).unwrap();
    if let Some(sql) = fts {
        conn.execute_batch(&sql).unwrap();
    }
    if let Some(sql) =
        migrations::cleanup_old_migration_system(table_exists(conn, "schema_migrations"))
    {
        conn.execute(sql, []).unwrap();
    }
    let version: i32 = conn.pragma_query_value(None, "user_version", |r| r.get(0)).unwrap();
    if let Some(v) = migrations::version_update(version) {
        conn.pragma_update(None, "user_version", v).unwrap();
    }
    added.len()
}

fn project_of(r: &Row) -> rusqlite::Result<Project> {
    Ok(Project {
        id: r.get(0)?,
        name: r.get(1)?,
        path: r.get(2)?,
        source: r.get(3)?,
        encoded_dir_name: r.get(4)?,
        created_at: r.get(5)?,
        updated_at: r.get(6)?,
    })
}

fn session_of(r: &Row) -> rusqlite::Result<Session> {
    Ok(Session {
        id: r.get(0)?,
        session_id: r.get(1)?,
        project_id: r.get(2)?,
        message_count: r.get(3)?,
        last_message_at: r.get(4)?,
        cwd: r.get(5)?,
        model: r.get(6)?,
        channel: r.get(7)?,
        file_mtime: r.get(8)?,
        file_size: r.get(9)?,
        meta: r.get(10)?,
        session_type: r.get(11)?,
        source: r.get(12)?,
        created_at: r.get(13)?,
        updated_at: r.get(14)?,
    })
}

fn session_row_of(r: &Row) -> rusqlite::Result<SessionRow> {
    Ok(SessionRow {
        session_id: r.get(0)?,
        project_id: r.get(1)?,
        message_count: r.get(2)?,
        last_message_at: r.get(3)?,
        cwd: r.get(4)?,
        model: r.get(5)?,
        channel: r.get(6)?,
        file_mtime: r.get(7)?,
        file_size: r.get(8)?,
        file_offset: r.get(9)?,
        file_inode: r.get(10)?,
        encoded_dir_name: r.get(11)?,
        meta: r.get(12)?,
        session_type: r.get(13)?,
        source: r.get(14)?,
        created_at: r.get(15)?,
        updated_at: r.get(16)?,
    })
}

fn message_of(r: &Row) -> rusqlite::Result<Message> {
    Ok(db::decode_message(MessageRow {
        id: r.get(0)?,
        session_id: r.get(1)?,
        uuid: r.get(2)?,
        message_type: r.get(3)?,
        content_text: r.get(4)?,
        content_full: r.get(5)?,
        timestamp: r.get(6)?,
        sequence: r.get(7)?,
        source: r.get(8)?,
        channel: r.get(9)?,
        model: r.get(10)?,
        tool_call_id: r.get(11)?,
        tool_name: r.get(12)?,
        tool_args: r.get(13)?,
        raw: r.get(14)?,
        vector_indexed: r.get(15)?,
        approval_status: r.get(16)?,
        approval_resolved_at: r.get(17)?,
    }))
}

fn writer_of(r: &Row) -> rusqlite::Result<WriterInfo> {
    Ok(WriterInfo {
        writer_type: r.get(0)?,
        writer_id: r.get(1)?,
        priority: r.get(2)?,
        heartbeat: r.get(3)?,
        registered_at: r.get(4)?,
    })
}

/// The registered writer that the store keeps.
fn registry_of(conn: &Connection) -> Option<WriterInfo> {
    one(conn, &queries::current_writer(), writer_of)
}

/// Claims the writer in the store, which leaves there what the library says it does.
fn claim(c: &mut Coordinator, conn: &Connection, now: i64) -> Role {
    let mut expected = registry_of(conn);
    let role = c.clone().try_register(&mut expected, now);
    let rows = execute(conn, &queries::claim_writer(c, now));
    assert_eq!(c.claimed(rows), role);
    assert_eq!(format!("{:?}", registry_of(conn)), format!("{:?}", expected));
    role
}

fn renew(c: &mut Coordinator, conn: &Connection, now: i64) -> Result<(), Error> {
    let mut expected = registry_of(conn);
    let answer = c.clone().heartbeat(&mut expected, now);
    let rows = execute(conn, &queries::renew_writer(c, now));
    let renewed = c.renewed(rows);
    assert_eq!(renewed.is_ok(), answer.is_ok());
    assert_eq!(format!("{:?}", registry_of(conn)), format!("{:?}", expected));
    renewed
}

fn leave(c: &mut Coordinator, conn: &Connection) {
    let mut expected = registry_of(conn);
    c.clone().release(&mut expected);
    execute(conn, &queries::release_writer(c));
    c.released();
    assert_eq!(format!("{:?}", registry_of(conn)), format!("{:?}", expected));
}

fn take_over(c: &mut Coordinator, conn: &Connection, now: i64) -> bool {
    let mut expected = registry_of(conn);
    let answer = c.clone().try_takeover(&mut expected, now);
    let mut rows = execute(conn, &queries::take_over_writer(c, now));
    if Coordinator::is_vacant(rows, count(conn, &queries::count_writers())) {
        rows = execute(conn, &queries::fill_vacancy(c, now));
    }
    assert_eq!(c.taken_over(rows), answer);
    assert_eq!(format!("{:?}", registry_of(conn)), format!("{:?}", expected));
    answer
}

/// The whole row of a session.
fn session_row(conn: &Connection, session_id: &str) -> Option<SessionRow> {
    let sql = "SELECT session_id, project_id, message_count, last_message_at, cwd, model, channel, \
               file_mtime, file_size, file_offset, file_inode, encoded_dir_name, meta, session_type, \
               source, created_at, updated_at FROM sessions WHERE session_id = ?1";
    conn.query_row(sql, [session_id], session_row_of).optional().unwrap()
}

struct SessionDB {
    conn: Connection,
    access: WriteAccess,
    name: String,
    now: i64,
}

impl SessionDB {
    fn connect(config: DbConfig) -> SessionDB {
        let path = config.connect().unwrap();
        let conn = Connection::open(&path).unwrap();
        ensure_schema(&conn);
        conn.execute_batch(schema::COORDINATION_SCHEMA_SQL).unwrap();
        SessionDB { conn, access: WriteAccess::new(), name: "writer".to_string(), now: 1_000 }
    }

    fn tick(&mut self) -> i64 {
        self.now += 1;
        self.now
    }

    fn get_or_create_project(
        &mut self,
        name: &str,
        path: &str,
        source: &str,
    ) -> Result<i64, Error> {
        self.access.require_writer()?;
        let now = self.tick();
        let existing: Option<i64> =
            one(&self.conn, &queries::project_id_of_path(path), |r| r.get(0));
        let w = db::get_or_create_project_with_encoded(existing, name, path, source, None, now);
        execute(&self.conn, &queries::store_project(&w));
        Ok(existing.unwrap_or(self.conn.last_insert_rowid()))
    }

    fn list_projects(&self) -> Vec<Project> {
        rows(&self.conn, &queries::list_projects(), project_of)
    }

    fn upsert_session(&mut self, session_id: &str, project_id: i64) -> Result<(), Error> {
        self.access.require_writer()?;
        let now = self.tick();
        let expected =
            db::upsert_session(session_row(&self.conn, session_id), session_id, project_id, now);
        execute(&self.conn, &queries::upsert_session(session_id, project_id, now));
        let row = session_row(&self.conn, session_id).unwrap();
        assert_eq!(format!("{:?}", row), format!("{:?}", expected));
        Ok(())
    }

    fn upsert_session_full(&mut self, input: &SessionInput) {
        let now = self.tick();
        let existing = session_row(&self.conn, &input.session_id);
        let expected = db::upsert_session_full(existing, input, true, now).unwrap();
        execute(&self.conn, &queries::upsert_session_full(input, now));
        let row = session_row(&self.conn, &input.session_id).unwrap();
        assert_eq!(format!("{:?}", row), format!("{:?}", expected));
    }

    fn list_sessions(&self, project_id: i64) -> Vec<Session> {
        rows(&self.conn, &queries::list_sessions(project_id), session_of)
    }

    fn get_scan_checkpoint(&self, session_id: &str) -> Option<i64> {
        db::get_scan_checkpoint(one(&self.conn, &queries::scan_checkpoint(session_id), |r| {
            r.get(0)
        }))
    }

    fn update_session_last_message(&mut self, session_id: &str, timestamp: i64) {
        let now = self.tick();
        execute(
            &self.conn,
            &queries::update_session_last_message(timestamp, now, session_id),
        );
    }

    fn insert_messages(
        &mut self,
        session_id: &str,
        messages: &Vec<MessageInput>,
    ) -> Result<(usize, Vec<i64>), Error> {
        self.access.require_writer()?;
        let now = self.tick();
        let present: Vec<String> = {
            let mut stmt = self.conn.prepare("SELECT uuid FROM messages").unwrap();
            let found = stmt.query_map([], |r| r.get(0)).unwrap();
            found.map(|u| u.unwrap()).collect()
        };
        let expected = db::insert_messages(&present, messages);
        let mut outcomes: Vec<Option<i64>> = Vec::new();
        for (i, m) in messages.iter().enumerate() {
            let n = execute(&self.conn, &db::insert_message_statement(session_id, m));
            assert_eq!(n > 0, expected.contains(&i));
            outcomes.push(if n > 0 { Some(self.conn.last_insert_rowid()) } else { None });
        }
        execute(&self.conn, &queries::update_message_count(session_id, now));
        Ok(db::insert_outcome(&outcomes))
    }

    fn list_messages(&self, session_id: &str, limit: usize, offset: usize) -> Vec<Message> {
        rows(&self.conn, &db::list_messages(session_id, limit, offset), message_of)
    }

    fn scan_session_incremental(
        &mut self,
        session_id: &str,
        project_id: i64,
        messages: Vec<MessageInput>,
    ) -> usize {
        self.upsert_session(session_id, project_id).unwrap();
        let checkpoint = self.get_scan_checkpoint(session_id);
        let max: Option<i64> =
            one(&self.conn, &queries::get_session_max_sequence(session_id), |r| r.get(0)).unwrap();
        match scan_session_incremental(messages, checkpoint, max) {
            Some(batch) => {
                let (inserted, _) = self.insert_messages(session_id, &batch.messages).unwrap();
                self.update_session_last_message(session_id, batch.checkpoint);
                inserted
            }
            None => 0,
        }
    }

    fn search(&self, req: &SearchRequest) -> Vec<(i64, i64)> {
        let mut found: Vec<(i64, i64)> =
            rows(&self.conn, &search::search_fts_internal(req), |r| Ok((r.get(0)?, r.get(2)?)));
        let ids: Vec<i64> = found.iter().map(|f| f.0).collect();
        if let Some(s) = search::search_fts_full_with_sessions(req, &ids) {
            found.extend(rows(&self.conn, &s, |r| Ok((r.get(0)?, r.get(2)?))));
        }
        found
    }

    fn get_stats(&self) -> Stats {
        Stats {
            project_count: count(&self.conn, &queries::count_projects()),
            session_count: count(&self.conn, &queries::count_sessions()),
            message_count: count(&self.conn, &queries::count_messages()),
        }
    }

    fn register_writer(&mut self, writer_type: WriterType) -> Role {
        let now = self.tick();
        let mut c = Coordinator::new(writer_type, CoordinationConfig::default());
        let role = claim(&mut c, &self.conn, now);
        self.access.coordinator = Some(c);
        role
    }

    fn coordinator(&mut self) -> &mut Coordinator {
        self.access.coordinator.as_mut().unwrap()
    }

    fn heartbeat(&mut self) -> Result<(), Error> {
        let now = self.tick();
        renew(self.access.coordinator.as_mut().unwrap(), &self.conn, now)
    }

    fn release_writer(&mut self) {
        leave(self.access.coordinator.as_mut().unwrap(), &self.conn)
    }

    fn check_writer_health(&mut self) -> WriterHealth {
        let now = self.tick();
        let registry = registry_of(&self.conn);
        self.coordinator().check_writer_health(&registry, now)
    }

    fn try_takeover(&mut self) -> bool {
        let now = self.tick();
        take_over(self.access.coordinator.as_mut().unwrap(), &self.conn, now)
    }
}

fn local(path: &std::path::Path) -> DbConfig {
    DbConfig::local(path.display().to_string())
}

fn setup_db() -> (SessionDB, TempDir) {
    let tmp = TempDir::new().unwrap();
    let db = SessionDB::connect(local(&tmp.path().join("test.db")));
    (db, tmp)
}

fn named(path: &std::path::Path, name: &str) -> SessionDB {
    let mut db = SessionDB::connect(local(path));
    db.name = name.to_string();
    db
}

fn input(uuid: &str, t: MessageType, content: &str, timestamp: i64, sequence: i64) -> MessageInput {
    MessageInput {
        uuid: uuid.to_string(),
        message_type: t,
        content_text: content.to_string(),
        content_full: content.to_string(),
        timestamp,
        sequence,
        source: None,
        channel: None,
        model: None,
        tool_call_id: None,
        tool_name: None,
        tool_args: None,
        raw: None,
        approval_status: None,
        approval_resolved_at: None,
    }
}

// ---- Connecting ----

#[test]
fn test_connect_existing_db() {
    let (db1, tmp) = setup_db();
    drop(db1);
    let db2 = SessionDB::connect(local(&tmp.path().join("test.db")));
    assert_eq!(db2.get_stats().project_count, 0);
}

#[test]
fn test_default_config_from_env() {
    let config = DbConfig::from_env(None);
    assert!(config.path().is_some());
    assert!(config.url.ends_with("ai-cli-session.db"));
    let config = DbConfig::in_home(UNIX, None, Some("/home/someone"));
    assert_eq!(config.url, "/home/someone/.vimo/db/ai-cli-session.db");
}

#[test]
fn config_names_the_store() {
    let here = DbConfig::in_home(UNIX, None, None);
    assert_eq!(here.path(), Some("ai-cli-session.db".to_string()));
    let given = DbConfig::from_env(Some("/tmp/x.db".to_string()));
    assert_eq!(given.path(), Some("/tmp/x.db".to_string()));
    let remote = DbConfig::from_env(Some("libsql://host".to_string()));
    assert_eq!(remote.path(), None);
    match remote.connect() {
        Err(e) => assert_eq!(e.to_string(), "配置错误: Remote connection not supported yet"),
        Ok(_) => panic!("a remote store was opened"),
    }
}

// ---- Projects ----

#[test]
fn test_create_project() {
    let (mut db, _tmp) = setup_db();
    let id = db.get_or_create_project("test-project", "/path/to/project", &tool()).unwrap();
    assert!(id > 0);
    let projects = db.list_projects();
    assert_eq!(projects.len(), 1);
    assert_eq!(projects[0].name, "test-project");
    assert_eq!(projects[0].path, "/path/to/project");
    assert_eq!(projects[0].source, tool());
}

#[test]
fn test_get_existing_project() {
    let (mut db, _tmp) = setup_db();
    let id1 = db.get_or_create_project("test", "/path", &tool()).unwrap();
    let id2 = db.get_or_create_project("test", "/path", &tool()).unwrap();
    assert_eq!(id1, id2);
    assert_eq!(db.list_projects().len(), 1);
}

#[test]
fn test_multiple_projects() {
    let (mut db, _tmp) = setup_db();
    db.get_or_create_project("project1", "/path1", &tool()).unwrap();
    db.get_or_create_project("project2", "/path2", &tool()).unwrap();
    db.get_or_create_project("project3", "/path3", "codex").unwrap();
    assert_eq!(db.list_projects().len(), 3);
}

#[test]
fn test_project_different_path_same_name() {
    let (mut db, _tmp) = setup_db();
    let id1 = db.get_or_create_project("test", "/path1", &tool()).unwrap();
    let id2 = db.get_or_create_project("test", "/path2", &tool()).unwrap();
    assert_ne!(id1, id2);
}

#[test]
fn projects_are_found_and_deleted() {
    let (mut db, _tmp) = setup_db();
    let id = db.get_or_create_project("one", "/one", "codex").unwrap();
    let by_id = one(&db.conn, &queries::get_project(id), project_of).unwrap();
    let by_path = one(&db.conn, &queries::get_project_by_path("/one"), project_of).unwrap();
    assert_eq!(by_id.path, "/one");
    assert_eq!(by_path.id, id);
    let sources: Vec<String> =
        rows(&db.conn, &queries::get_all_projects_with_source(), |r| r.get(3));
    assert_eq!(sources, vec!["codex".to_string()]);
    assert_eq!(execute(&db.conn, &queries::delete_project(id)), 1);
    assert!(db.list_projects().is_empty());
}

#[test]
fn directory_names_are_kept() {
    let (db, _tmp) = setup_db();
    let create = db::get_or_create_project_with_encoded(None, "p", "/p", &tool(), Some("-p"), 5);
    execute(&db.conn, &queries::store_project(&create));
    let id = db.conn.last_insert_rowid();
    let touch = db::get_or_create_project_with_encoded(Some(id), "p", "/p", &tool(), None, 6);
    execute(&db.conn, &queries::store_project(&touch));
    let p = &db.list_projects()[0];
    assert_eq!((p.encoded_dir_name.as_deref(), p.created_at, p.updated_at), (Some("-p"), 5, 6));
    let rename =
        db::get_or_create_project_with_encoded(Some(id), "p", "/p", &tool(), Some("-q"), 7);
    execute(&db.conn, &queries::store_project(&rename));
    let p = &db.list_projects()[0];
    assert_eq!((p.encoded_dir_name.as_deref(), p.updated_at), (Some("-q"), 7));
}

#[test]
fn duplicates_go_to_the_busiest_project() {
    let conn = Connection::open_in_memory().unwrap();
    conn.execute_batch(
        "CREATE TABLE projects (id INTEGER PRIMARY KEY, path TEXT);
         CREATE TABLE sessions (session_id TEXT, project_id INTEGER);
         INSERT INTO projects VALUES (1, '/p'), (2, '/p'), (3, '/p'), (4, '/other');
         INSERT INTO sessions VALUES ('a', 2), ('b', 2), ('c', 3), ('d', 4);",
    )
    .unwrap();
    let lists: Vec<(String, String)> =
        rows(&conn, &queries::duplicate_projects(), |r| Ok((r.get(0)?, r.get(1)?)));
    assert_eq!(lists.len(), 1);
    let loads: Vec<ProjectLoad> = db::parse_ids(&lists[0].1)
        .into_iter()
        .map(|id| ProjectLoad { id, sessions: count(&conn, &queries::count_project_sessions(id)) })
        .collect();
    let merge = db::deduplicate_projects(loads).unwrap();
    assert_eq!(merge.keep, 2);
    assert_eq!(merge.merge, vec![3, 1]);
    for id in &merge.merge {
        execute(&conn, &queries::update_sessions_project_id(*id, merge.keep));
        execute(&conn, &queries::delete_project(*id));
    }
    assert_eq!(count(&conn, &queries::count_project_sessions(2)), 3);
    assert_eq!(count(&conn, &queries::count_projects()), 2);
    let again: Vec<String> = rows(&conn, &queries::duplicate_projects(), |r| r.get(0));
    assert!(again.is_empty());
}

// ---- Sessions ----

#[test]
fn test_create_session() {
    let (mut db, _tmp) = setup_db();
    let project_id = db.get_or_create_project("test", "/path", &tool()).unwrap();
    db.upsert_session("session-001", project_id).unwrap();
    let sessions = db.list_sessions(project_id);
    assert_eq!(sessions.len(), 1);
    assert_eq!(sessions[0].session_id, "session-001");
    assert_eq!(sessions[0].message_count, 0);
}

#[test]
fn test_upsert_session_updates_timestamp() {
    let (mut db, _tmp) = setup_db();
    let project_id = db.get_or_create_project("test", "/path", &tool()).unwrap();
    db.upsert_session("session-001", project_id).unwrap();
    let updated1 = db.list_sessions(project_id)[0].updated_at;
    db.upsert_session("session-001", project_id).unwrap();
    let updated2 = db.list_sessions(project_id)[0].updated_at;
    assert!(updated2 >= updated1);
    assert_eq!(updated2, updated1 + 1);
}

#[test]
fn test_multiple_sessions_per_project() {
    let (mut db, _tmp) = setup_db();
    let project_id = db.get_or_create_project("test", "/path", &tool()).unwrap();
    db.upsert_session("session-001", project_id).unwrap();
    db.upsert_session("session-002", project_id).unwrap();
    db.upsert_session("session-003", project_id).unwrap();
    assert_eq!(db.list_sessions(project_id).len(), 3);
}

#[test]
fn test_scan_checkpoint() {
    let (mut db, _tmp) = setup_db();
    let project_id = db.get_or_create_project("test", "/path", &tool()).unwrap();
    db.upsert_session("session-001", project_id).unwrap();
    assert!(db.get_scan_checkpoint("session-001").is_none());
    db.update_session_last_message("session-001", 1234567890);
    assert_eq!(db.get_scan_checkpoint("session-001"), Some(1234567890));
    assert_eq!(db.get_scan_checkpoint("no-session"), None);
}

#[test]
fn what_is_known_of_a_session_stays() {
    let (mut db, _tmp) = setup_db();
    let project_id = db.get_or_create_project("test", "/path", &tool()).unwrap();
    let mut first = SessionInput::default();
    first.session_id = "s".to_string();
    first.project_id = project_id;
    first.cwd = Some("/here".to_string());
    first.message_count = Some(4);
    first.file_mtime = Some(10);
    db.upsert_session_full(&first);
    let mut second = SessionInput::default();
    second.session_id = "s".to_string();
    second.project_id = project_id;
    second.model = Some("m".to_string());
    second.file_mtime = Some(11);
    match db::upsert_session_full(None, &second, true, 1) {
        Err(e) => assert_eq!(
            e.to_string(),
            "数据库错误: NOT NULL constraint failed: sessions.message_count"
        ),
        Ok(_) => panic!("a session without a number of messages is written"),
    }
    let refused = queries::upsert_session_full(&second, 1);
    let params = rusqlite::params_from_iter(values(&refused.params));
    let e = db.conn.execute(&refused.sql, params).unwrap_err();
    assert!(e.to_string().contains("NOT NULL constraint failed: sessions.message_count"));
    second.message_count = Some(6);
    db.upsert_session_full(&second);
    let s = one(&db.conn, &queries::get_session("s"), session_of).unwrap();
    assert_eq!(s.cwd.as_deref(), Some("/here"));
    assert_eq!(s.model.as_deref(), Some("m"));
    assert_eq!(s.file_mtime, Some(11));
    let mtime: Option<Option<i64>> =
        one(&db.conn, &queries::get_session_file_mtime("s"), |r| r.get(0));
    assert_eq!(db::get_scan_checkpoint(mtime), Some(11));
}

#[test]
fn sessions_are_found_by_the_beginning_of_their_ids() {
    let (mut db, _tmp) = setup_db();
    let p = db.get_or_create_project("test", "/path", &tool()).unwrap();
    db.upsert_session("abc-1", p).unwrap();
    db.upsert_session("abc-2", p).unwrap();
    db.upsert_session("xyz", p).unwrap();
    let found = rows(&db.conn, &queries::search_sessions_by_prefix("abc", 10), session_of);
    assert_eq!(found.len(), 2);
    assert_eq!(found[0].session_id, "abc-2");
    assert_eq!(rows(&db.conn, &queries::search_sessions_by_prefix("abc", 1), session_of).len(), 1);
    let full: Option<String> = one(&db.conn, &queries::resolve_session_id("xy"), |r| r.get(0));
    assert_eq!(full.as_deref(), Some("xyz"));
    let none: Option<String> = one(&db.conn, &queries::resolve_session_id("nothing"), |r| r.get(0));
    assert_eq!(none, None);
    assert_eq!(count(&db.conn, &queries::session_exists("xyz")), 1);
    assert_eq!(count(&db.conn, &queries::session_exists("xy")), 0);
    assert_eq!(rows(&db.conn, &db::get_sessions(Some(p), 2), session_of).len(), 2);
    assert_eq!(rows(&db.conn, &db::get_sessions(None, 10), session_of).len(), 3);
    assert_eq!(count(&db.conn, &queries::count_sessions_without_cwd()), 3);
}

#[test]
fn reading_goes_on_where_it_ended() {
    let (mut db, _tmp) = setup_db();
    let p = db.get_or_create_project("test", "/path", &tool()).unwrap();
    db.upsert_session("s", p).unwrap();
    let state = |db: &SessionDB| {
        db::get_session_incremental_state(one(&db.conn, &queries::incremental_state("s"), |r| {
            Ok((r.get(0)?, r.get(1)?, r.get(2)?, r.get(3)?))
        }))
    };
    assert_eq!(state(&db), Some((0, None, None, None)));
    execute(&db.conn, &queries::update_session_incremental_state(7, 8, 9, 10, 11, "s"));
    assert_eq!(state(&db), Some((7, Some(8), Some(9), Some(10))));
}

#[test]
fn listed_sessions_show_their_relations() {
    let (mut db, _tmp) = setup_db();
    let p = db.get_or_create_project("test", "/path", &tool()).unwrap();
    db.upsert_session("parent", p).unwrap();
    db.upsert_session("child", p).unwrap();
    db.upsert_session("agent-1", p).unwrap();
    db.insert_messages("parent", &vec![input("u", MessageType::User, "Hello\n  there", 1, 0)])
        .unwrap();
    let relate = |parent: &str, child: &str| {
        execute(&db.conn, &queries::insert_session_relation(parent, child, "subagent", &tool()))
    };
    assert_eq!(relate("parent", "child"), 1);
    assert_eq!(relate("parent", "child"), 0);
    assert_eq!(relate("parent", "parent"), 0);
    let ids: Vec<String> =
        rows(&db.conn, &queries::list_sessions_of_path("/path", 10, 0), |r| r.get(1));
    assert_eq!(ids, vec!["parent".to_string(), "child".to_string()]);
    let children: Vec<(String, String)> =
        rows(&db.conn, &db::children_statement(&ids), |r| Ok((r.get(0)?, r.get(1)?)));
    assert_eq!(children, vec![("parent".to_string(), "child".to_string())]);
    let parents: Vec<(String, String)> =
        rows(&db.conn, &db::parents_statement(&ids), |r| Ok((r.get(0)?, r.get(1)?)));
    assert_eq!(parents, vec![("child".to_string(), "parent".to_string())]);
    let preview = db::last_message_preview(one(&db.conn, &queries::last_message("parent"), |r| {
        Ok((r.get(0)?, r.get(1)?, r.get(2)?))
    }));
    assert_eq!(preview, Some(("user".to_string(), "Hello there".to_string())));
    let child: Vec<String> = rows(&db.conn, &queries::children_of_session("parent"), |r| r.get(0));
    assert_eq!(child, vec!["child".to_string()]);
    let parent: Option<String> =
        one(&db.conn, &queries::parent_of_session("child"), |r| r.get(0));
    assert_eq!(parent.as_deref(), Some("parent"));
    let kind: Option<String> = one(&db.conn, &queries::get_parent_session("child"), |r| r.get(2));
    assert_eq!(kind.as_deref(), Some("subagent"));
    assert_eq!(
        rows::<String>(&db.conn, &queries::get_children_sessions("parent"), |r| r.get(1)),
        vec!["child".to_string()]
    );
    let path: Option<String> =
        one(&db.conn, &queries::get_session_with_project("child"), |r| r.get(4));
    assert_eq!(path.as_deref(), Some("/path"));
    let numbers: Vec<(i64, i64)> =
        rows(&db.conn, &queries::list_projects_with_stats(10, 0), |r| Ok((r.get(3)?, r.get(4)?)));
    assert_eq!(numbers, vec![(3, 1)]);
}

// ---- Messages ----

fn create_test_messages(count: usize) -> Vec<MessageInput> {
    (0..count)
        .map(|i| {
            let t = if i % 2 == 0 { MessageType::User } else { MessageType::Assistant };
            let content = format!("Message content {}", i);
            input(&format!("uuid-{}", i), t, &content, 1000000 + i as i64, i as i64)
        })
        .collect()
}

#[test]
fn test_insert_messages() {
    let (mut db, _tmp) = setup_db();
    let project_id = db.get_or_create_project("test", "/path", &tool()).unwrap();
    db.upsert_session("session-001", project_id).unwrap();
    let messages = create_test_messages(5);
    let (inserted, ids) = db.insert_messages("session-001", &messages).unwrap();
    assert_eq!(inserted, 5);
    assert_eq!(ids.len(), 5);
    assert_eq!(db.list_sessions(project_id)[0].message_count, 5);
}

#[test]
fn test_insert_messages_dedup() {
    let (mut db, _tmp) = setup_db();
    let project_id = db.get_or_create_project("test", "/path", &tool()).unwrap();
    db.upsert_session("session-001", project_id).unwrap();
    let messages = create_test_messages(3);
    let (inserted1, _) = db.insert_messages("session-001", &messages).unwrap();
    assert_eq!(inserted1, 3);
    let (inserted2, _) = db.insert_messages("session-001", &messages).unwrap();
    assert_eq!(inserted2, 0);
    assert_eq!(db.list_messages("session-001", 100, 0).len(), 3);
}

#[test]
fn one_batch_writes_a_uuid_once() {
    let (mut db, _tmp) = setup_db();
    let project_id = db.get_or_create_project("test", "/path", &tool()).unwrap();
    db.upsert_session("s", project_id).unwrap();
    let messages = vec![
        input("u", MessageType::User, "first", 1, 0),
        input("v", MessageType::User, "other", 2, 1),
        input("u", MessageType::User, "second", 3, 2),
    ];
    let (inserted, _) = db.insert_messages("s", &messages).unwrap();
    assert_eq!(inserted, 2);
    let loaded = db.list_messages("s", 10, 0);
    assert_eq!(loaded[0].content_text, "first");
    assert_eq!(loaded[1].content_text, "other");
    assert_eq!(db::insert_outcome(&vec![Some(4), None, Some(5)]), (2, vec![4, 5]));
}

#[test]
fn test_list_messages_pagination() {
    let (mut db, _tmp) = setup_db();
    let project_id = db.get_or_create_project("test", "/path", &tool()).unwrap();
    db.upsert_session("session-001", project_id).unwrap();
    let messages = create_test_messages(10);
    db.insert_messages("session-001", &messages).unwrap();
    let page1 = db.list_messages("session-001", 3, 0);
    let page2 = db.list_messages("session-001", 3, 3);
    let page3 = db.list_messages("session-001", 3, 6);
    let page4 = db.list_messages("session-001", 3, 9);
    assert_eq!(page1.len(), 3);
    assert_eq!(page2.len(), 3);
    assert_eq!(page3.len(), 3);
    assert_eq!(page4.len(), 1);
    assert_eq!(page1[0].sequence, 0);
    assert_eq!(page2[0].sequence, 3);
}

#[test]
fn messages_come_in_either_order() {
    let (mut db, _tmp) = setup_db();
    let project_id = db.get_or_create_project("test", "/path", &tool()).unwrap();
    db.upsert_session("s", project_id).unwrap();
    db.insert_messages("s", &create_test_messages(4)).unwrap();
    let newest = rows(&db.conn, &db::list_messages_ordered("s", 2, 0, true), message_of);
    assert_eq!((newest[0].sequence, newest[1].sequence), (3, 2));
    assert_eq!(rows(&db.conn, &db::get_messages("s"), message_of).len(), 4);
    let two = rows(&db.conn, &db::get_messages_with_options("s", Some(2), true), message_of);
    assert_eq!(two.len(), 2);
    assert_eq!(two[0].sequence, 3);
    assert_eq!(count(&db.conn, &queries::get_session_message_count("s")), 4);
    assert_eq!(count(&db.conn, &queries::get_session_latest_timestamp("s")), 1000003);
}

#[test]
fn indexing_is_noted() {
    let (mut db, _tmp) = setup_db();
    let project_id = db.get_or_create_project("test", "/path", &tool()).unwrap();
    db.upsert_session("s", project_id).unwrap();
    let (_, ids) = db.insert_messages("s", &create_test_messages(6)).unwrap();
    let open = rows(&db.conn, &queries::get_unindexed_messages(10), message_of);
    assert_eq!(open.len(), 3);
    assert_eq!(count(&db.conn, &queries::count_unindexed_messages()), 3);
    assert!(db::mark_messages_indexed(&vec![]).is_none());
    assert!(db::mark_messages_index_failed(&vec![]).is_none());
    assert!(db::get_messages_by_ids(&vec![]).is_none());
    let done = db::mark_messages_indexed(&vec![open[0].id]).unwrap();
    assert_eq!(execute(&db.conn, &done), 1);
    let failed = db::mark_messages_index_failed(&vec![open[1].id, open[2].id]).unwrap();
    assert_eq!(execute(&db.conn, &failed), 2);
    assert_eq!(rows(&db.conn, &queries::get_failed_indexed_messages(10), message_of).len(), 2);
    assert_eq!(count(&db.conn, &queries::count_failed_indexed_messages()), 2);
    assert_eq!(execute(&db.conn, &queries::reset_failed_indexed_messages()), 2);
    assert_eq!(execute(&db.conn, &queries::mark_message_index_failed(open[1].id)), 1);
    assert_eq!(count(&db.conn, &queries::count_unindexed_messages()), 1);
    let some = rows(&db.conn, &db::get_messages_by_ids(&vec![ids[3], ids[1]]).unwrap(), message_of);
    assert_eq!((some[0].id, some[1].id), (ids[1], ids[3]));
    assert!(some[0].vector_indexed);
}

#[test]
fn approvals_are_resolved() {
    let (mut db, _tmp) = setup_db();
    let project_id = db.get_or_create_project("test", "/path", &tool()).unwrap();
    db.upsert_session("s", project_id).unwrap();
    let mut messages = create_test_messages(3);
    for m in &mut messages {
        m.approval_status = Some(ApprovalStatus::Pending);
        m.tool_call_id = Some(format!("call-{}", m.sequence));
    }
    db.insert_messages("s", &messages).unwrap();
    let pending = rows(&db.conn, &queries::get_pending_approvals("s"), message_of);
    assert_eq!(pending.len(), 3);
    assert_eq!(pending[0].approval_status, Some(ApprovalStatus::Pending));
    assert_eq!(count(&db.conn, &db::count_pending_approvals(None)), 3);
    assert_eq!(count(&db.conn, &db::count_pending_approvals(Some("other"))), 0);
    let one_call = queries::update_approval_status_by_tool_call_id(
        "call-0",
        ApprovalStatus::Approved,
        77,
    );
    assert_eq!(execute(&db.conn, &one_call), 1);
    let by_uuid = queries::update_approval_status("uuid-1", ApprovalStatus::Rejected, 78);
    assert_eq!(execute(&db.conn, &by_uuid), 1);
    let batch = db::batch_update_approval_status(
        &vec!["uuid-2".to_string()],
        ApprovalStatus::Timeout,
        79,
    );
    assert_eq!(execute(&db.conn, &batch.unwrap()), 1);
    assert!(db::batch_update_approval_status(&vec![], ApprovalStatus::Timeout, 1).is_none());
    let loaded = db.list_messages("s", 10, 0);
    assert_eq!(loaded[0].approval_status, Some(ApprovalStatus::Approved));
    assert_eq!(loaded[0].approval_resolved_at, Some(77));
    assert_eq!(loaded[1].approval_status, Some(ApprovalStatus::Rejected));
    assert_eq!(loaded[2].approval_status, Some(ApprovalStatus::Timeout));
    assert_eq!(count(&db.conn, &db::count_pending_approvals(Some("s"))), 0);
}

fn talk(conn: &Connection) -> String {
    let sql = "SELECT session_id, talk_id, summary_l2, summary_l3, created_at, updated_at FROM talks";
    let row = conn.query_row(sql, [], |r| {
        Ok(TalkRow {
            session_id: r.get(0)?,
            talk_id: r.get(1)?,
            summary_l2: r.get(2)?,
            summary_l3: r.get(3)?,
            created_at: r.get(4)?,
            updated_at: r.get(5)?,
        })
    });
    format!("{:?}", row.unwrap())
}

#[test]
fn talks_keep_the_summary_of_their_session() {
    let (mut db, _tmp) = setup_db();
    let p = db.get_or_create_project("test", "/path", &tool()).unwrap();
    db.upsert_session("s", p).unwrap();
    let first = db::upsert_talk_summary(None, "s", "t", "two", Some("three"), 1);
    execute(&db.conn, &queries::upsert_talk_summary("s", "t", "two", Some("three"), 1));
    assert_eq!(talk(&db.conn), format!("{:?}", first));
    let second = db::upsert_talk_summary(Some(first), "s", "t", "two again", None, 2);
    execute(&db.conn, &queries::upsert_talk_summary("s", "t", "two again", None, 2));
    assert_eq!(talk(&db.conn), format!("{:?}", second));
    let all: Vec<(String, Option<String>, i64, i64)> =
        rows(&db.conn, &queries::get_talk_summaries("s"), |r| {
            Ok((r.get(3)?, r.get(4)?, r.get(5)?, r.get(6)?))
        });
    assert_eq!(all, vec![("two again".to_string(), Some("three".to_string()), 1, 2)]);
}

#[test]
fn test_message_types() {
    let (mut db, _tmp) = setup_db();
    let project_id = db.get_or_create_project("test", "/path", &tool()).unwrap();
    db.upsert_session("session-001", project_id).unwrap();
    let messages = vec![
        input("uuid-1", MessageType::User, "Hello", 1000, 0),
        input("uuid-2", MessageType::Assistant, "Hi there", 1001, 1),
    ];
    db.insert_messages("session-001", &messages).unwrap();
    let loaded = db.list_messages("session-001", 10, 0);
    assert_eq!(loaded[0].message_type, MessageType::User);
    assert_eq!(loaded[1].message_type, MessageType::Assistant);
}

// ---- Scans ----

fn scan_messages(count: i64) -> Vec<MessageInput> {
    (0..count)
        .map(|i| {
            let content = format!("Content {}", i);
            input(&format!("uuid-{}", i), MessageType::User, &content, 1000000 + i * 1000, i)
        })
        .collect()
}

#[test]
fn test_incremental_scan_first_time() {
    let (mut db, _tmp) = setup_db();
    let project_id = db.get_or_create_project("test", "/path", &tool()).unwrap();
    let inserted = db.scan_session_incremental("session-001", project_id, scan_messages(5));
    assert_eq!(inserted, 5);
}

#[test]
fn test_incremental_scan_with_checkpoint() {
    let (mut db, _tmp) = setup_db();
    let project_id = db.get_or_create_project("test", "/path", &tool()).unwrap();
    db.scan_session_incremental("session-001", project_id, scan_messages(3));
    let inserted = db.scan_session_incremental("session-001", project_id, scan_messages(6));
    assert_eq!(inserted, 3);
    assert_eq!(db.list_messages("session-001", 100, 0).len(), 6);
}

#[test]
fn test_incremental_scan_safety_margin() {
    let (mut db, _tmp) = setup_db();
    let project_id = db.get_or_create_project("test", "/path", &tool()).unwrap();
    let messages1 = vec![input("uuid-1", MessageType::User, "First", 1000000, 0)];
    db.scan_session_incremental("session-001", project_id, messages1);
    let messages2 = vec![
        input("uuid-1", MessageType::User, "First", 1000000, 0),
        input("uuid-2", MessageType::User, "Second", 1000000 - 30000, 1),
    ];
    let inserted = db.scan_session_incremental("session-001", project_id, messages2);
    assert_eq!(inserted, 1);
}

#[test]
fn a_scan_leaves_out_what_is_old() {
    let old = vec![input("u", MessageType::User, "old", 940000, 0)];
    assert!(scan_session_incremental(old, Some(1000000), Some(4)).is_none());
    let young = vec![input("u", MessageType::User, "young", 940001, 0)];
    let batch = scan_session_incremental(young, Some(1000000), Some(4)).unwrap();
    assert_eq!(batch.messages[0].sequence, 5);
    assert_eq!(batch.checkpoint, 940001);
}

// ---- Searches ----

#[test]
fn test_fts_search_basic() {
    let (mut db, _tmp) = setup_db();
    let project_id = db.get_or_create_project("test", "/path", &tool()).unwrap();
    db.upsert_session("session-001", project_id).unwrap();
    let messages = vec![
        input(
            "uuid-1",
            MessageType::User,
            "How do I implement a binary search tree in Rust?",
            1000,
            0,
        ),
        input(
            "uuid-2",
            MessageType::Assistant,
            "Here's how to implement a binary search tree...",
            1001,
            1,
        ),
        input("uuid-3", MessageType::User, "What about hash maps?", 1002, 2),
    ];
    db.insert_messages("session-001", &messages).unwrap();
    assert_eq!(db.search(&search::search_fts("binary", 10)).len(), 2);
    assert_eq!(db.search(&search::search_fts("hash", 10)).len(), 1);
    assert_eq!(db.search(&search::search_fts("nonexistent", 10)).len(), 0);
}

#[test]
fn test_fts_search_with_project_filter() {
    let (mut db, _tmp) = setup_db();
    let project1 = db.get_or_create_project("project1", "/path1", &tool()).unwrap();
    let project2 = db.get_or_create_project("project2", "/path2", &tool()).unwrap();
    db.upsert_session("session-1", project1).unwrap();
    db.upsert_session("session-2", project2).unwrap();
    let first = vec![input("uuid-1", MessageType::User, "Rust programming", 1000, 0)];
    let second = vec![input("uuid-2", MessageType::User, "Rust programming", 1000, 0)];
    db.insert_messages("session-1", &first).unwrap();
    db.insert_messages("session-2", &second).unwrap();
    assert_eq!(db.search(&search::search_fts("Rust", 10)).len(), 2);
    let results = db.search(&search::search_fts_with_project("Rust", 10, Some(project1)));
    assert_eq!(results.len(), 1);
    assert_eq!(results[0].1, project1);
}

#[test]
fn test_fts_search_limit() {
    let (mut db, _tmp) = setup_db();
    let project_id = db.get_or_create_project("test", "/path", &tool()).unwrap();
    db.upsert_session("session-001", project_id).unwrap();
    let messages: Vec<MessageInput> = (0..10)
        .map(|i| {
            let content = format!("This is test message {}", i);
            input(&format!("uuid-{}", i), MessageType::User, &content, 1000 + i, i)
        })
        .collect();
    db.insert_messages("session-001", &messages).unwrap();
    assert_eq!(db.search(&search::search_fts("test", 3)).len(), 3);
    assert_eq!(db.search(&search::search_fts("test", 100)).len(), 10);
}

#[test]
fn a_search_in_a_project_finds_parts_of_words() {
    let (mut db, _tmp) = setup_db();
    let p = db.get_or_create_project("test", "/path", &tool()).unwrap();
    db.upsert_session("s1", p).unwrap();
    db.upsert_session("s2", p).unwrap();
    let first = vec![
        input("a", MessageType::User, "test", 10, 0),
        input("b", MessageType::User, "testing", 20, 1),
    ];
    let second = vec![input("c", MessageType::User, "contest", 30, 0)];
    db.insert_messages("s1", &first).unwrap();
    db.insert_messages("s2", &second).unwrap();
    assert_eq!(db.search(&search::search_fts("test", 10)).len(), 1);
    assert_eq!(db.search(&search::search_fts_with_project("test", 10, Some(p))).len(), 3);
    let late = search::search_fts_full(
        "test",
        10,
        Some(p),
        SearchOrderBy::TimeDesc,
        Some(15),
        Some(25),
    );
    assert_eq!(db.search(&late).len(), 1);
    let mut in_session = search::search_fts_with_options("test", 10, Some(p), SearchOrderBy::TimeAsc);
    in_session.session_ids = vec!["s2".to_string()];
    assert_eq!(db.search(&in_session).len(), 1);
}

// ---- Numbers ----

#[test]
fn test_stats_empty_db() {
    let (db, _tmp) = setup_db();
    let stats = db.get_stats();
    assert_eq!(stats.project_count, 0);
    assert_eq!(stats.session_count, 0);
    assert_eq!(stats.message_count, 0);
}

#[test]
fn test_stats_with_data() {
    let (mut db, _tmp) = setup_db();
    let p1 = db.get_or_create_project("p1", "/p1", &tool()).unwrap();
    let p2 = db.get_or_create_project("p2", "/p2", &tool()).unwrap();
    db.upsert_session("s1", p1).unwrap();
    db.upsert_session("s2", p1).unwrap();
    db.upsert_session("s3", p2).unwrap();
    let messages: Vec<MessageInput> =
        (0..5).map(|i| input(&format!("uuid-{}", i), MessageType::User, "test", i, i)).collect();
    db.insert_messages("s1", &messages).unwrap();
    let stats = db.get_stats();
    assert_eq!(stats.project_count, 2);
    assert_eq!(stats.session_count, 3);
    assert_eq!(stats.message_count, 5);
}

// ---- Writers ----

#[test]
fn test_heartbeat_update() {
    let (mut db, _tmp) = setup_db();
    assert_eq!(db.register_writer(WriterType::MemexDaemon), Role::Writer);
    db.heartbeat().unwrap();
    db.heartbeat().unwrap();
}

#[test]
fn test_release_and_reregister() {
    let (mut db, _tmp) = setup_db();
    db.register_writer(WriterType::MemexDaemon);
    db.release_writer();
    assert_eq!(db.register_writer(WriterType::VlaudeDaemon), Role::Writer);
}

#[test]
fn test_watch_role_change() {
    let (mut db, _tmp) = setup_db();
    db.register_writer(WriterType::MemexDaemon);
    assert_eq!(db.coordinator().current_role(), Role::Writer);
}

#[test]
fn test_two_dbs_same_file_coordination() {
    let tmp = TempDir::new().unwrap();
    let db_path = tmp.path().join("shared.db");
    let mut db1 = named(&db_path, "one");
    assert_eq!(db1.register_writer(WriterType::MemexDaemon), Role::Writer);
    let mut db2 = named(&db_path, "two");
    assert_eq!(db2.register_writer(WriterType::VlaudeDaemon), Role::Reader);
    db1.release_writer();
    assert_eq!(db2.check_writer_health(), WriterHealth::Released);
}

#[test]
fn test_higher_priority_preempts() {
    let tmp = TempDir::new().unwrap();
    let db_path = tmp.path().join("shared.db");
    let mut db1 = named(&db_path, "one");
    assert_eq!(db1.register_writer(WriterType::MemexDaemon), Role::Writer);
    let mut db2 = named(&db_path, "two");
    assert_eq!(db2.register_writer(WriterType::MemexKit), Role::Writer);
    assert!(db1.heartbeat().is_err());
}

#[test]
fn test_reader_write_permission_denied() {
    let tmp = TempDir::new().unwrap();
    let db_path = tmp.path().join("shared.db");
    let mut db1 = named(&db_path, "one");
    assert_eq!(db1.register_writer(WriterType::MemexDaemon), Role::Writer);
    let mut db2 = named(&db_path, "two");
    assert_eq!(db2.register_writer(WriterType::VlaudeDaemon), Role::Reader);
    let write_result = db2.get_or_create_project("test", "/path", &tool());
    assert!(write_result.is_err());
    assert!(matches!(write_result.unwrap_err(), Error::PermissionDenied));
}

#[test]
fn test_vlaude_kit_highest_priority() {
    let tmp = TempDir::new().unwrap();
    let db_path = tmp.path().join("shared.db");
    let mut db1 = named(&db_path, "one");
    assert_eq!(db1.register_writer(WriterType::MemexKit), Role::Writer);
    let mut db2 = named(&db_path, "two");
    assert_eq!(db2.register_writer(WriterType::VlaudeKit), Role::Writer);
    assert!(db1.heartbeat().is_err());
}

#[test]
fn test_writer_can_write() {
    let tmp = TempDir::new().unwrap();
    let mut db = named(&tmp.path().join("shared.db"), "one");
    assert_eq!(db.register_writer(WriterType::MemexDaemon), Role::Writer);
    let project_id = db.get_or_create_project("test", "/path", &tool()).unwrap();
    assert!(project_id > 0);
    db.upsert_session("session-001", project_id).unwrap();
    let messages = vec![input("uuid-001", MessageType::User, "Hello", 1000, 1)];
    let (inserted, _) = db.insert_messages("session-001", &messages).unwrap();
    assert_eq!(inserted, 1);
}

#[test]
fn test_demotion_write_permission_denied() {
    let tmp = TempDir::new().unwrap();
    let db_path = tmp.path().join("shared.db");
    let mut db1 = named(&db_path, "one");
    assert_eq!(db1.register_writer(WriterType::MemexDaemon), Role::Writer);
    let project_id = db1.get_or_create_project("test", "/path", &tool()).unwrap();
    assert!(project_id > 0);
    let mut db2 = named(&db_path, "two");
    assert_eq!(db2.register_writer(WriterType::VlaudeKit), Role::Writer);
    assert!(db1.heartbeat().is_err());
    let write_result = db1.upsert_session("session-001", project_id);
    assert!(write_result.is_err());
    assert!(matches!(write_result.unwrap_err(), Error::PermissionDenied));
    db2.upsert_session("session-002", project_id).unwrap();
}

#[test]
fn test_promotion_can_write() {
    let tmp = TempDir::new().unwrap();
    let db_path = tmp.path().join("shared.db");
    let mut db1 = named(&db_path, "one");
    assert_eq!(db1.register_writer(WriterType::MemexDaemon), Role::Writer);
    let project_id = db1.get_or_create_project("test", "/path", &tool()).unwrap();
    let mut db2 = named(&db_path, "two");
    assert_eq!(db2.register_writer(WriterType::VlaudeDaemon), Role::Reader);
    assert!(db2.upsert_session("session-001", project_id).is_err());
    db1.release_writer();
    assert_eq!(db2.check_writer_health(), WriterHealth::Released);
    assert!(db2.try_takeover(), "Takeover should succeed");
    db2.upsert_session("session-001", project_id).unwrap();
    let messages = vec![input("uuid-promoted", MessageType::User, "After promotion", 2000, 1)];
    let (inserted, _) = db2.insert_messages("session-001", &messages).unwrap();
    assert_eq!(inserted, 1);
}

#[test]
fn writers_have_ids_of_their_own() {
    let a = Coordinator::new(WriterType::MemexKit, CoordinationConfig::default());
    let b = Coordinator::new(WriterType::MemexKit, CoordinationConfig::default());
    assert_ne!(a.writer_id(), b.writer_id());
    for c in [&a, &b] {
        let id = c.writer_id();
        assert_eq!(id.len(), 36);
        for (i, ch) in id.chars().enumerate() {
            match i {
                8 | 13 | 18 | 23 => assert_eq!(ch, '-'),
                14 => assert_eq!(ch, '4'),
                19 => assert!("89ab".contains(ch)),
                _ => assert!(ch.is_ascii_digit() || ('a'..='f').contains(&ch)),
            }
        }
        assert_eq!(c.current_role(), Role::Reader);
    }
}

fn coordinator(writer_type: WriterType, id: &str) -> Coordinator {
    Coordinator::with_id(writer_type, id.to_string(), CoordinationConfig::default())
}

fn register(c: &mut Coordinator, conn: &Connection, now: i64) -> Role {
    claim(c, conn, now)
}

fn registry_db() -> Connection {
    let conn = Connection::open_in_memory().unwrap();
    conn.execute_batch(schema::COORDINATION_SCHEMA_SQL).unwrap();
    conn
}

#[test]
fn test_first_register_becomes_writer() {
    let conn = registry_db();
    let mut coord = coordinator(WriterType::MemexDaemon, "a");
    assert_eq!(register(&mut coord, &conn, 1), Role::Writer);
}

#[test]
fn test_second_register_same_priority_becomes_reader() {
    let conn = registry_db();
    let mut coord1 = coordinator(WriterType::MemexDaemon, "a");
    let mut coord2 = coordinator(WriterType::VlaudeDaemon, "b");
    let role1 = register(&mut coord1, &conn, 1);
    let role2 = register(&mut coord2, &conn, 2);
    assert_eq!(role1, Role::Writer);
    assert_eq!(role2, Role::Reader);
}

#[test]
fn test_higher_priority_takes_over() {
    let conn = registry_db();
    let mut daemon = coordinator(WriterType::MemexDaemon, "a");
    let mut kit = coordinator(WriterType::MemexKit, "b");
    assert_eq!(register(&mut daemon, &conn, 1), Role::Writer);
    assert_eq!(register(&mut kit, &conn, 2), Role::Writer);
}

#[test]
fn test_release_and_takeover() {
    let conn = registry_db();
    let mut coord1 = coordinator(WriterType::MemexDaemon, "a");
    let mut coord2 = coordinator(WriterType::VlaudeDaemon, "b");
    register(&mut coord1, &conn, 1);
    register(&mut coord2, &conn, 2);
    leave(&mut coord1, &conn);
    assert_eq!(coord2.check_writer_health(&registry_of(&conn), 3), WriterHealth::Released);
}

#[test]
fn a_silent_writer_is_replaced() {
    let mut registry: Option<WriterInfo> = None;
    let mut a = coordinator(WriterType::MemexDaemon, "a");
    let mut b = coordinator(WriterType::VlaudeDaemon, "b");
    assert_eq!(a.try_register(&mut registry, 0), Role::Writer);
    assert_eq!(b.check_writer_health(&registry, 30_000), WriterHealth::Alive);
    assert_eq!(b.check_writer_health(&registry, 30_001), WriterHealth::Timeout);
    assert!(!b.try_takeover(&mut registry, 30_000));
    assert!(b.try_takeover(&mut registry, 30_001));
    assert_eq!(b.get_current_writer(&registry).unwrap().writer_id, "b");
    match a.heartbeat(&mut registry, 30_002) {
        Err(e) => assert_eq!(e.to_string(), "Writer 协调错误: Writer 已被抢占"),
        Ok(_) => panic!("a displaced writer is still heard of"),
    }
    assert_eq!(a.current_role(), Role::Reader);
    a.release(&mut registry);
    assert!(registry.is_some());
}

#[test]
fn a_store_decides_between_writers_by_itself() {
    let conn = registry_db();
    let mut a = coordinator(WriterType::MemexDaemon, "a");
    let mut b = coordinator(WriterType::VlaudeDaemon, "b");
    let mut kit = coordinator(WriterType::MemexKit, "kit");
    assert_eq!(claim(&mut a, &conn, 0), Role::Writer);
    assert_eq!(claim(&mut b, &conn, 1), Role::Reader);
    assert!(renew(&mut b, &conn, 2).is_err());
    leave(&mut b, &conn);
    assert_eq!(registry_of(&conn).unwrap().writer_id, "a");
    assert!(!take_over(&mut b, &conn, 30_000));
    assert!(take_over(&mut b, &conn, 30_001));
    assert!(renew(&mut a, &conn, 30_002).is_err());
    assert_eq!(claim(&mut kit, &conn, 30_003), Role::Writer);
    leave(&mut b, &conn);
    assert_eq!(registry_of(&conn).unwrap().writer_id, "kit");
    assert_eq!(claim(&mut a, &conn, 70_000), Role::Writer);
    renew(&mut a, &conn, 70_001).unwrap();
    leave(&mut a, &conn);
    assert!(registry_of(&conn).is_none());
    assert!(take_over(&mut b, &conn, 70_002));
}

#[test]
fn a_count_that_was_added_later_may_be_missing() {
    let conn = Connection::open_in_memory().unwrap();
    conn.execute_batch(
        "CREATE TABLE sessions (id INTEGER PRIMARY KEY, session_id TEXT NOT NULL UNIQUE, \
         project_id INTEGER NOT NULL);",
    )
    .unwrap();
    ensure_schema(&conn);
    let mut input = SessionInput::default();
    input.session_id = "s".to_string();
    input.project_id = 1;
    input.message_count = Some(4);
    let first = db::upsert_session_full(None, &input, false, 1).unwrap();
    execute(&conn, &queries::upsert_session_full(&input, 1));
    assert_eq!(format!("{:?}", session_row(&conn, "s").unwrap()), format!("{:?}", first));
    input.message_count = None;
    let second = db::upsert_session_full(Some(first), &input, false, 2).unwrap();
    execute(&conn, &queries::upsert_session_full(&input, 2));
    assert_eq!(second.message_count, Some(4));
    assert_eq!(format!("{:?}", session_row(&conn, "s").unwrap()), format!("{:?}", second));
}

#[test]
fn a_uuid_is_written_once() {
    let (mut db, _tmp) = setup_db();
    let p = db.get_or_create_project("test", "/path", &tool()).unwrap();
    db.upsert_session("s", p).unwrap();
    let m = input("u", MessageType::User, "Hello", 1, 0);
    let write = || execute(&db.conn, &db::insert_message_statement("s", &m));
    assert_eq!(write(), 1);
    assert_eq!(write(), 0);
    assert_eq!(count(&db.conn, &queries::count_messages()), 1);
}

#[test]
fn a_path_has_one_project() {
    let (mut db, _tmp) = setup_db();
    let first = db.get_or_create_project("one", "/p", &tool()).unwrap();
    assert!(first > 0);
    assert_eq!(db.get_or_create_project("two", "/p", "other").unwrap(), first);
    assert_ne!(db.get_or_create_project("one", "/q", &tool()).unwrap(), first);
    let p = one(&db.conn, &queries::get_project_by_path("/p"), project_of).unwrap();
    assert_eq!((p.name.as_str(), p.source), ("one", tool()));
    assert_eq!(db.list_projects().len(), 2);
}

#[test]
fn pages_joined_give_every_message() {
    let (mut db, _tmp) = setup_db();
    let p = db.get_or_create_project("test", "/path", &tool()).unwrap();
    db.upsert_session("s", p).unwrap();
    let all: Vec<MessageInput> = (0..7)
        .map(|i| input(&format!("u{}", i), MessageType::User, "Hello", 10 + i, i))
        .collect();
    db.insert_messages("s", &all).unwrap();
    let page = |offset: usize, desc: bool| -> Vec<i64> {
        let found = rows(&db.conn, &db::list_messages_ordered("s", 3, offset, desc), message_of);
        found.into_iter().map(|m| m.sequence).collect()
    };
    let rising: Vec<i64> = [page(0, false), page(3, false), page(6, false)].concat();
    assert_eq!(rising, vec![0, 1, 2, 3, 4, 5, 6]);
    let mut falling: Vec<i64> = [page(0, true), page(3, true), page(6, true)].concat();
    falling.reverse();
    assert_eq!(falling, rising);
    assert!(page(9, false).is_empty());
    assert!(rows(&db.conn, &db::list_messages_ordered("none", 3, 0, false), message_of).is_empty());
}

#[test]
fn a_query_is_made_of_its_words() {
    assert_eq!(search::escape_fts5_query("one two"), "\"one\" OR \"two\"");
    assert_eq!(search::escape_fts5_query("  a\"b \t OR "), "\"a\"\"b\" OR \"OR\"");
    assert_eq!(search::escape_fts5_query(" \n "), "");
    let joined = [search::escape_fts5_query("a b"), search::escape_fts5_query("c")].join(" OR ");
    assert_eq!(search::escape_fts5_query("a b c"), joined);
}

#[test]
fn joining_the_competition_may_cost_the_right_to_write() {
    let config = CoordinationConfig::default();
    let mut registry: Option<WriterInfo> = None;
    let (mut first, mut second) = (WriteAccess::new(), WriteAccess::new());
    assert!(second.is_writer());
    assert_eq!(first.register_writer(WriterType::MemexDaemon, config, &mut registry, 0), Role::Writer);
    assert_eq!(second.register_writer(WriterType::VlaudeDaemon, config, &mut registry, 1), Role::Reader);
    assert!(first.require_writer().is_ok());
    assert!(matches!(second.require_writer(), Err(Error::PermissionDenied)));
    let id = first.coordinator.as_ref().unwrap().writer_id().to_string();
    assert_eq!(registry.unwrap().writer_id, id);
}

// ---- Edges ----

#[test]
fn test_empty_content_message() {
    let (mut db, _tmp) = setup_db();
    let project_id = db.get_or_create_project("test", "/path", &tool()).unwrap();
    db.upsert_session("session-001", project_id).unwrap();
    let messages = vec![input("uuid-empty", MessageType::User, "", 1000, 0)];
    let (inserted, _) = db.insert_messages("session-001", &messages).unwrap();
    assert_eq!(inserted, 1);
    assert_eq!(db.list_messages("session-001", 10, 0)[0].content_text, "");
}

#[test]
fn test_unicode_content() {
    let (mut db, _tmp) = setup_db();
    let project_id = db.get_or_create_project("测试项目", "/路径/中文", &tool()).unwrap();
    db.upsert_session("session-001", project_id).unwrap();
    let content = "你好世界 🌍 مرحبا العالم 🎉 こんにちは";
    let messages = vec![input("uuid-unicode", MessageType::User, content, 1000, 0)];
    db.insert_messages("session-001", &messages).unwrap();
    assert_eq!(db.list_messages("session-001", 10, 0)[0].content_text, content);
    assert_eq!(db.list_projects()[0].name, "测试项目");
}

#[test]
fn test_very_long_content() {
    let (mut db, _tmp) = setup_db();
    let project_id = db.get_or_create_project("test", "/path", &tool()).unwrap();
    db.upsert_session("session-001", project_id).unwrap();
    let long_content = "x".repeat(100 * 1024);
    let messages = vec![input("uuid-long", MessageType::Assistant, &long_content, 1000, 0)];
    db.insert_messages("session-001", &messages).unwrap();
    assert_eq!(db.list_messages("session-001", 10, 0)[0].content_text.len(), 100 * 1024);
}

#[test]
fn test_special_characters_in_path() {
    let (mut db, _tmp) = setup_db();
    let weird_path = "/path/with spaces/and-dashes/and_underscores/and.dots";
    let project_id = db.get_or_create_project("test", weird_path, &tool()).unwrap();
    assert_eq!(db.list_projects()[0].path, weird_path);
    let id2 = db.get_or_create_project("test", weird_path, &tool()).unwrap();
    assert_eq!(project_id, id2);
}

#[test]
fn test_session_without_messages() {
    let (mut db, _tmp) = setup_db();
    let project_id = db.get_or_create_project("test", "/path", &tool()).unwrap();
    db.upsert_session("empty-session", project_id).unwrap();
    assert!(db.list_messages("empty-session", 100, 0).is_empty());
    assert_eq!(db.list_sessions(project_id)[0].message_count, 0);
}

#[test]
fn test_nonexistent_session_messages() {
    let (db, _tmp) = setup_db();
    assert!(db.list_messages("nonexistent", 100, 0).is_empty());
}

#[test]
fn test_large_batch_insert() {
    let (mut db, _tmp) = setup_db();
    let project_id = db.get_or_create_project("test", "/path", &tool()).unwrap();
    db.upsert_session("session-001", project_id).unwrap();
    let messages: Vec<MessageInput> = (0..1000)
        .map(|i| {
            let t = if i % 2 == 0 { MessageType::User } else { MessageType::Assistant };
            input(&format!("uuid-{}", i), t, &format!("Message {}", i), i, i)
        })
        .collect();
    db.conn.execute_batch("BEGIN").unwrap();
    let (inserted, _) = db.insert_messages("session-001", &messages).unwrap();
    db.conn.execute_batch("COMMIT").unwrap();
    assert_eq!(inserted, 1000);
    assert_eq!(db.get_stats().message_count, 1000);
}

#[test]
fn test_timestamp_ordering() {
    let (mut db, _tmp) = setup_db();
    let project_id = db.get_or_create_project("test", "/path", &tool()).unwrap();
    db.upsert_session("session-001", project_id).unwrap();
    let messages = vec![
        input("uuid-3", MessageType::User, "Third", 3000, 2),
        input("uuid-1", MessageType::User, "First", 1000, 0),
        input("uuid-2", MessageType::User, "Second", 2000, 1),
    ];
    db.insert_messages("session-001", &messages).unwrap();
    let loaded = db.list_messages("session-001", 10, 0);
    assert_eq!(loaded[0].content_text, "First");
    assert_eq!(loaded[1].content_text, "Second");
    assert_eq!(loaded[2].content_text, "Third");
}

#[test]
fn integrity_is_read_from_the_report() {
    let (db, _tmp) = setup_db();
    let report: String = db.conn.query_row("PRAGMA quick_check;", [], |r| r.get(0)).unwrap();
    assert!(matches!(db::integrity_of_report(report), IntegrityCheckResult::Intact));
    match db::integrity_of_report("row 1 missing".to_string()) {
        IntegrityCheckResult::Corrupted(how) => assert_eq!(how, "row 1 missing"),
        IntegrityCheckResult::Intact => panic!("a damaged store passed for sound"),
    }
}

// ---- Migrations ----

const OLD_TABLES: &str = "
    CREATE TABLE messages (
        id INTEGER PRIMARY KEY AUTOINCREMENT,
        session_id TEXT NOT NULL,
        uuid TEXT NOT NULL UNIQUE,
        type TEXT NOT NULL,
        content_text TEXT NOT NULL,
        content_full TEXT NOT NULL,
        timestamp INTEGER NOT NULL,
        sequence INTEGER NOT NULL
    );
    CREATE TABLE sessions (
        id INTEGER PRIMARY KEY AUTOINCREMENT,
        session_id TEXT NOT NULL UNIQUE,
        project_id INTEGER NOT NULL
    );
    CREATE TABLE schema_migrations (
        version INTEGER PRIMARY KEY,
        applied_at INTEGER NOT NULL
    );
    INSERT INTO schema_migrations VALUES (1, 1234567890);";

#[test]
fn test_ensure_schema_new_database() {
    let conn = Connection::open_in_memory().unwrap();
    ensure_schema(&conn);
    assert!(table_exists(&conn, "projects"));
    assert!(table_exists(&conn, "sessions"));
    assert!(table_exists(&conn, "messages"));
    assert!(table_exists(&conn, "talks"));
    assert!(column_exists(&conn, "sessions", "file_offset"));
    assert!(column_exists(&conn, "sessions", "file_inode"));
    assert!(column_exists(&conn, "messages", "approval_status"));
}

#[test]
fn test_ensure_schema_old_database() {
    let conn = Connection::open_in_memory().unwrap();
    conn.execute_batch(OLD_TABLES).unwrap();
    ensure_schema(&conn);
    assert!(column_exists(&conn, "sessions", "file_offset"));
    assert!(column_exists(&conn, "sessions", "file_inode"));
    assert!(column_exists(&conn, "sessions", "cwd"));
    assert!(column_exists(&conn, "messages", "approval_status"));
    assert!(column_exists(&conn, "messages", "source"));
    assert!(!table_exists(&conn, "schema_migrations"));
}

#[test]
fn test_ensure_schema_idempotent() {
    let conn = Connection::open_in_memory().unwrap();
    ensure_schema(&conn);
    assert_eq!(ensure_schema(&conn), 0);
    assert_eq!(ensure_schema(&conn), 0);
    assert!(table_exists(&conn, "sessions"));
    assert!(column_exists(&conn, "sessions", "file_offset"));
}

#[test]
fn test_ensure_schema_dirty_migration() {
    let conn = Connection::open_in_memory().unwrap();
    conn.execute_batch(OLD_TABLES).unwrap();
    conn.execute_batch("INSERT INTO schema_migrations VALUES (2, 1234567891);").unwrap();
    assert!(!column_exists(&conn, "sessions", "file_offset"));
    ensure_schema(&conn);
    assert!(column_exists(&conn, "sessions", "file_offset"));
    assert!(column_exists(&conn, "sessions", "file_inode"));
}

#[test]
fn missing_columns_are_named() {
    assert_eq!(
        migrations::ensure_column("t", true, &vec!["a".to_string()], "b", "TEXT"),
        Some("ALTER TABLE t ADD COLUMN b TEXT".to_string())
    );
    assert_eq!(migrations::ensure_column("t", true, &vec!["b".to_string()], "b", "TEXT"), None);
    assert_eq!(migrations::ensure_column("t", false, &vec![], "b", "TEXT"), None);
    assert_eq!(migrations::version_update(0), Some(1));
    assert_eq!(migrations::version_update(1), None);
    assert_eq!(
        schema::full_schema(false, &tool()),
        format!("{}{}", schema::tables_sql(&tool()), schema::INDEXES_SQL)
    );
    let conn = Connection::open_in_memory().unwrap();
    conn.execute_batch(&schema::full_schema(true, &tool())).unwrap();
    conn.execute_batch(&schema::schema_sql(&tool())).unwrap();
}

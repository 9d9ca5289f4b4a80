//! The calls of the C interface.
use ai_cli_session_db::calls;
use ai_cli_session_db::calls::CText;
use ai_cli_session_db::config::ConnectionMode;
use ai_cli_session_db::coordination::{Role, WriterType};
use ai_cli_session_db::ffi;
use ai_cli_session_db::ffi::{FfiError, MessageIn, SearchOrderByC, SessionMetaOut};
use ai_cli_session_db::paths::PathStyle;
use ai_cli_session_db::types::{MessageType, SearchOrderBy};

const UNIX: PathStyle = PathStyle::Unix;

fn text(s: &str) -> CText {
    CText::Text(s.to_string())
}

#[test]
fn what_is_missing_is_told_first() {
    assert_eq!(calls::required_text(false, text("a")), Ok("a".to_string()));
    assert_eq!(calls::required_text(true, text("a")), Err(FfiError::NullPointer));
    assert_eq!(calls::required_text(true, CText::NotUtf8), Err(FfiError::NullPointer));
    assert_eq!(calls::required_text(false, CText::NotUtf8), Err(FfiError::InvalidUtf8));
    assert_eq!(calls::required_text(false, CText::Null), Err(FfiError::NullPointer));
    let p = calls::session_db_upsert_project(false, text("n"), text("p"), text("s")).unwrap();
    assert_eq!((p.name.as_str(), p.path.as_str(), p.source.as_str()), ("n", "p", "s"));
    let refused = |m, n, p, s| calls::session_db_upsert_project(m, n, p, s).unwrap_err();
    assert_eq!(refused(true, text("n"), text("p"), text("s")), FfiError::NullPointer);
    assert_eq!(refused(false, CText::NotUtf8, text("p"), CText::Null), FfiError::NullPointer);
    assert_eq!(refused(false, text("n"), CText::NotUtf8, text("s")), FfiError::InvalidUtf8);
}

#[test]
fn a_store_is_opened() {
    let c = calls::session_db_connect(false, text("/a.db"), None).unwrap();
    assert_eq!((c.url.as_str(), c.mode), ("/a.db", ConnectionMode::Local));
    let usual = calls::session_db_connect(false, CText::Null, Some("/b.db".to_string())).unwrap();
    assert_eq!(usual.url, "/b.db");
    assert_eq!(calls::session_db_connect(true, text("/a"), None).unwrap_err(), FfiError::NullPointer);
    let e = calls::session_db_connect(false, CText::NotUtf8, None).unwrap_err();
    assert_eq!(e, FfiError::InvalidUtf8);
}

#[test]
fn writers_are_numbered() {
    assert_eq!(calls::session_db_register_writer(false, 2), Ok(WriterType::MemexKit));
    assert_eq!(calls::session_db_register_writer(false, 4), Err(FfiError::Unknown));
    assert_eq!(calls::session_db_register_writer(true, 2), Err(FfiError::NullPointer));
    assert_eq!(calls::coordination_outcome::<i32, ()>(Ok(1)), Ok(1));
    assert_eq!(calls::coordination_outcome::<i32, ()>(Err(())), Err(FfiError::CoordinationError));
    assert_eq!(calls::database_outcome::<i32, ()>(Ok(1)), Ok(1));
    assert_eq!(calls::database_outcome::<i32, ()>(Err(())), Err(FfiError::DatabaseError));
}

#[test]
fn a_writer_alone_collects() {
    let told = |r: Result<Role, ()>| calls::session_db_register_writer_and_collect(r);
    assert_eq!(told(Ok(Role::Writer)), Ok((0, true)));
    assert_eq!(told(Ok(Role::Reader)), Ok((1, false)));
    assert_eq!(told(Err(())), Err(FfiError::CoordinationError));
}

fn message(uuid: Option<&str>, role: i32) -> MessageIn {
    MessageIn {
        uuid: uuid.map(|s| s.to_string()),
        role,
        content: Some("hello".to_string()),
        timestamp: 1,
        sequence: 2,
    }
}

#[test]
fn the_first_fault_of_the_messages_is_told() {
    let (id, v) =
        calls::session_db_insert_messages(false, text("s"), vec![message(Some("u"), 2)]).unwrap();
    assert_eq!(id, "s");
    assert_eq!(v.len(), 1);
    assert_eq!(v[0].uuid, "u");
    assert_eq!(v[0].message_type, MessageType::Tool);
    assert_eq!((v[0].content_text.as_str(), v[0].content_full.as_str()), ("hello", "hello"));
    assert_eq!((v[0].timestamp, v[0].sequence), (1, 2));
    let refused = |v| calls::session_db_insert_messages(false, text("s"), v).unwrap_err();
    assert_eq!(refused(vec![message(Some("u"), 3), message(None, 0)]), FfiError::Unknown);
    assert_eq!(refused(vec![message(None, 0), message(Some("u"), 3)]), FfiError::InvalidUtf8);
    assert_eq!(refused(vec![message(None, 3)]), FfiError::InvalidUtf8);
    let e = calls::session_db_insert_messages(false, CText::NotUtf8, vec![message(Some("u"), 3)]);
    assert_eq!(e.unwrap_err(), FfiError::InvalidUtf8);
    let e = calls::session_db_insert_messages(true, text("s"), vec![]);
    assert_eq!(e.unwrap_err(), FfiError::NullPointer);
}

#[test]
fn searches_are_asked_for() {
    let r = calls::session_db_search_fts(false, text("say \"hi\""), 5).unwrap();
    assert_eq!(r.query, "\"say \"\"hi\"\"\"");
    assert_eq!((r.limit, r.project_id, r.order_by), (5, None, SearchOrderBy::Score));
    let r = calls::session_db_search_fts_with_project(false, text("a"), 5, 0).unwrap();
    assert_eq!(r.project_id, Some(0));
    let r = calls::session_db_search_fts_with_project(false, text("a"), 5, -1).unwrap();
    assert_eq!(r.project_id, None);
    let r = calls::session_db_search_fts_with_options(false, text("a"), 5, 3, SearchOrderByC::TimeAsc);
    let r = r.unwrap();
    assert_eq!((r.project_id, r.order_by), (Some(3), SearchOrderBy::TimeAsc));
    assert_eq!((r.start_timestamp, r.end_timestamp), (None, None));
    let full = |missing, q, start, end| {
        calls::session_db_search_fts_full(missing, q, 5, 3, SearchOrderByC::TimeDesc, start, end)
    };
    let r = full(false, text("a"), -5, 7).unwrap();
    assert_eq!((r.start_timestamp, r.end_timestamp), (None, Some(7)));
    assert_eq!(r.order_by, SearchOrderBy::TimeDesc);
    assert!(r.session_ids.is_empty());
    assert_eq!(full(true, text("a"), 0, 0).unwrap_err(), FfiError::NullPointer);
    assert_eq!(full(false, CText::NotUtf8, 0, 0).unwrap_err(), FfiError::InvalidUtf8);
}

#[test]
fn the_directory_of_the_projects_is_found() {
    let home = Some("/home/x");
    let (r, limit) =
        calls::session_db_list_file_projects(false, CText::Null, 0, UNIX, home, "tool").unwrap();
    assert_eq!((r.projects_path.as_str(), limit), ("/home/x/.tool/projects", None));
    let (r, limit) = calls::session_db_list_file_projects(false, text("/p"), 9, UNIX, None, "tool").unwrap();
    assert_eq!((r.projects_path.as_str(), limit), ("/p", Some(9)));
    let refused = |m, p, h| calls::session_db_list_file_projects(m, p, 0, UNIX, h, "tool").unwrap_err();
    assert_eq!(refused(true, text("/p"), home), FfiError::NullPointer);
    assert_eq!(refused(false, CText::Null, None), FfiError::Unknown);
    assert_eq!(refused(false, CText::NotUtf8, home), FfiError::InvalidUtf8);
}

#[test]
fn sessions_are_asked_for() {
    let home = Some("/home/x");
    let list = |m, d, p| calls::session_db_list_session_metas(m, d, p, UNIX, home, "tool");
    let (r, project) = list(false, text("/p"), CText::Null).unwrap();
    assert_eq!((r.projects_path.as_str(), project), ("/p", None));
    let (_, project) = list(false, CText::Null, text("/work")).unwrap();
    assert_eq!(project.as_deref(), Some("/work"));
    assert_eq!(list(true, text("/p"), CText::Null).unwrap_err(), FfiError::NullPointer);
    assert_eq!(list(false, text("/p"), CText::NotUtf8).unwrap_err(), FfiError::InvalidUtf8);
    let latest = |m, d, p| calls::session_db_find_latest_session(m, d, p, UNIX, home, "tool");
    assert_eq!(latest(false, text("/p"), CText::Null).unwrap_err(), FfiError::NullPointer);
    assert_eq!(latest(true, text("/p"), text("/work")).unwrap_err(), FfiError::NullPointer);
    let (_, project) = latest(false, text("/p"), text("/work")).unwrap();
    assert_eq!(project.as_deref(), Some("/work"));
}

#[test]
fn the_latest_session_may_be_too_old() {
    let listed = |mtime| {
        vec![SessionMetaOut {
            id: "s".to_string(),
            project_path: "/p".to_string(),
            project_name: None,
            encoded_dir_name: None,
            session_path: None,
            file_mtime: mtime,
            message_count: -1,
        }]
    };
    assert!(ffi::find_latest_session(vec![], 0, 10).is_none());
    assert!(ffi::find_latest_session(listed(1_000), 2, 3_000).is_some());
    assert!(ffi::find_latest_session(listed(1_000), 2, 3_001).is_none());
    assert!(ffi::find_latest_session(listed(1_000), 0, 9_000).is_some());
    assert!(ffi::find_latest_session(listed(-1), 2, 9_000).is_some());
}

#[test]
fn paths_are_asked_for() {
    let home = Some("/home/x");
    let (r, id) = calls::session_db_get_session_path(text("/p"), text("s"), UNIX, None, "tool").unwrap();
    assert_eq!((r.projects_path.as_str(), id.as_str()), ("/p", "s"));
    assert!(calls::session_db_get_session_path(CText::Null, text("s"), UNIX, None, "tool").is_none());
    assert!(calls::session_db_get_session_path(text("/p"), CText::Null, UNIX, home, "tool").is_none());
    let (r, p) =
        calls::session_db_get_encoded_dir_name(CText::Null, text("/w"), UNIX, home, "tool").unwrap();
    assert_eq!((r.projects_path.as_str(), p.as_str()), ("/home/x/.tool/projects", "/w"));
    assert!(calls::session_db_get_encoded_dir_name(text("/p"), CText::NotUtf8, UNIX, home, "tool").is_none());
    let path = |d, n, s| calls::session_db_compute_session_path(d, n, s, UNIX, home, "tool");
    assert_eq!(path(text("/p"), text("-w"), text("s")).as_deref(), Some("/p/-w/s.jsonl"));
    assert_eq!(
        path(CText::Null, text("-w"), text("s")).as_deref(),
        Some("/home/x/.tool/projects/-w/s.jsonl")
    );
    assert_eq!(path(text("/p"), CText::Null, text("s")), None);
    assert_eq!(path(text("/p"), text("-w"), CText::NotUtf8), None);
    assert_eq!(path(text("/p"), text("a\0b"), text("s")), None);
    let (p, r) = calls::session_db_read_session_messages(false, text("/f"), UNIX, home, "tool").unwrap();
    assert_eq!((p.as_str(), r.projects_path.as_str()), ("/f", "/home/x/.tool/projects"));
    let e = calls::session_db_read_session_messages(false, text("/f"), UNIX, None, "tool").unwrap_err();
    assert_eq!(e, FfiError::Unknown);
    let e = calls::session_db_read_session_messages(false, CText::Null, UNIX, home, "tool").unwrap_err();
    assert_eq!(e, FfiError::NullPointer);
}

#[test]
fn only_a_writer_collects() {
    assert_eq!(calls::session_db_collect(false, true), Ok(()));
    assert_eq!(calls::session_db_collect(false, false), Err(FfiError::PermissionDenied));
    assert_eq!(calls::session_db_collect(true, false), Err(FfiError::NullPointer));
    let by_path = calls::session_db_collect_by_path;
    assert_eq!(by_path(false, text("/f"), true), Ok("/f".to_string()));
    assert_eq!(by_path(false, CText::NotUtf8, false), Err(FfiError::PermissionDenied));
    assert_eq!(by_path(false, CText::NotUtf8, true), Err(FfiError::InvalidUtf8));
    assert_eq!(by_path(false, CText::Null, false), Err(FfiError::NullPointer));
}

//! Reading, collecting and showing sessions.
use ai_cli_session_db::collector;
use ai_cli_session_db::collector::{
    extract_encoded_dir_name, extract_project_name, CollectResult, FileFacts, PathJob, SessionJob,
};
use ai_cli_session_db::db;
use ai_cli_session_db::error::Error;
use ai_cli_session_db::ffi;
use ai_cli_session_db::ffi::{ApprovalStatusC, FfiError, MessageIn, SearchOrderByC};
use ai_cli_session_db::paths::PathStyle;
use ai_cli_session_db::reader;
use ai_cli_session_db::reader::{
    compute_session_path, DirFile, DirProbe, Order, ProjectDir, SessionReader,
};
use ai_cli_session_db::search::{escape_fts5_query, escape_like_pattern};
use ai_cli_session_db::session::{
    FileIdentity, ParseResult, ParsedContent, ParsedMessage, ReaderState, SessionMeta, Source,
    SourceKind,
};
use ai_cli_session_db::text;
use ai_cli_session_db::time::parse_timestamp_to_millis;
use ai_cli_session_db::types::{ApprovalStatus, Message, MessageType, SearchOrderBy};
use ai_cli_session_db::writer::{
    convert_message, convert_messages, convert_messages_with_start_sequence,
};

const UNIX: PathStyle = PathStyle::Unix;

/// The word that stands in the store for the tool whose sessions are read first.
fn tool() -> String {
    format!("{:?}", SourceKind::Claude).to_lowercase()
}

fn source(kind: SourceKind) -> Source {
    let label = format!("{:?}", kind);
    Source { kind, word: label.to_lowercase(), label }
}

fn parsed(uuid: &str, message_type: MessageType, content: &str) -> ParsedMessage {
    ParsedMessage {
        uuid: uuid.to_string(),
        session_id: "session-001".to_string(),
        message_type,
        content: ParsedContent { text: content.to_string(), full: content.to_string() },
        timestamp: Some("2024-01-15T10:30:00Z".to_string()),
        source: source(SourceKind::Claude),
        channel: Some("code".to_string()),
        model: None,
        tool_call_id: None,
        tool_name: None,
        tool_args: None,
        raw: None,
        cwd: None,
        stop_reason: None,
    }
}

fn parse_result(messages: Vec<ParsedMessage>) -> ParseResult {
    ParseResult {
        messages,
        cwd: Some("/work/app".to_string()),
        model: Some("m".to_string()),
        created_at: None,
        updated_at: None,
    }
}

// ---- Names and paths ----

#[test]
fn test_extract_encoded_dir_name() {
    let path =
        format!("/Users/test/.{}/projects/-Users-test-myproject/session-123.jsonl", tool());
    assert_eq!(extract_encoded_dir_name(UNIX, &path), Some("-Users-test-myproject".to_string()));
    let path = "/Users/test/.local/share/opencode/storage/session/proj1/ses_123.json";
    assert_eq!(extract_encoded_dir_name(UNIX, path), Some("proj1".to_string()));
    assert_eq!(extract_encoded_dir_name(UNIX, "/file.txt"), None);
}

#[test]
fn collector_test_extract_project_name() {
    assert_eq!(extract_project_name(UNIX, "/Users/test/myproject"), "myproject");
    assert_eq!(extract_project_name(UNIX, "/Users/test/my-project/"), "my-project");
    assert_eq!(extract_project_name(UNIX, "simple"), "simple");
    assert_eq!(extract_project_name(UNIX, ""), "");
}

#[test]
fn reader_test_extract_project_name() {
    assert_eq!(SessionReader::extract_project_name(UNIX, "/Users/xxx/project"), "project");
    assert_eq!(SessionReader::extract_project_name(UNIX, "/a/b/c/d"), "d");
}

#[test]
fn test_compute_session_path() {
    let projects = format!("/home/user/.{}/projects", tool());
    let result = compute_session_path(UNIX, &projects, "-Users-xxx-project", "abc123");
    assert_eq!(result, format!("{projects}/-Users-xxx-project/abc123.jsonl"));
}

#[test]
fn test_compute_session_path_with_uuid() {
    let projects = format!("/Users/test/.{}/projects", tool());
    let result = compute_session_path(
        UNIX,
        &projects,
        "-Users-test-Desktop-myproject",
        "550e8400-e29b-41d4-a716-446655440000",
    );
    assert_eq!(
        result,
        format!("{projects}/-Users-test-Desktop-myproject/550e8400-e29b-41d4-a716-446655440000.jsonl")
    );
}

#[test]
fn texts_are_taken_apart_as_std_does() {
    let samples = ["", "\n", "a", "a\n", "a\r\nb\r", "a\n\nb", "\r\n", " a  b\tc ", "a:b:c", "x\r"];
    for s in samples {
        let lines: Vec<String> = s.lines().map(|l| l.to_string()).collect();
        assert_eq!(text::split_lines(s), lines, "{s:?}");
        let words: Vec<String> = s.split_whitespace().map(|w| w.to_string()).collect();
        assert_eq!(text::split_words(s), words, "{s:?}");
        assert_eq!(text::trim(s), s.trim(), "{s:?}");
        let once = s.split_once(':').map(|(a, b)| (a.to_string(), b.to_string()));
        assert_eq!(text::split_once(s, ':'), once, "{s:?}");
    }
    for s in ["0", "-0", "+7", "-9223372036854775808", "9223372036854775808", "", "-", "1x", "007"] {
        assert_eq!(text::parse_i64(s), s.parse::<i64>().ok(), "{s}");
    }
    for s in ["0", "+7", "4294967295", "4294967296", "-1", "", "+"] {
        assert_eq!(text::parse_u32(s), s.parse::<u32>().ok(), "{s}");
    }
}

// ---- Searches ----

#[test]
fn test_escape_fts5_query_single_word() {
    assert_eq!(escape_fts5_query("hello"), "\"hello\"");
    assert_eq!(escape_fts5_query("ETerm.app"), "\"ETerm.app\"");
    assert_eq!(escape_fts5_query("test-case.rs:123"), "\"test-case.rs:123\"");
}

#[test]
fn test_escape_fts5_query_multiple_words() {
    assert_eq!(escape_fts5_query("memvid 单文件"), "\"memvid\" OR \"单文件\"");
    assert_eq!(
        escape_fts5_query("ETerm 启动 环境变量"),
        "\"ETerm\" OR \"启动\" OR \"环境变量\""
    );
    assert_eq!(escape_fts5_query("open --env"), "\"open\" OR \"--env\"");
}

#[test]
fn test_escape_fts5_query_with_quotes() {
    assert_eq!(escape_fts5_query("say\"hi\""), "\"say\"\"hi\"\"\"");
    assert_eq!(escape_fts5_query("hello \"world\""), "\"hello\" OR \"\"\"world\"\"\"");
}

#[test]
fn test_escape_fts5_query_empty() {
    assert_eq!(escape_fts5_query(""), "");
    assert_eq!(escape_fts5_query("   "), "");
}

#[test]
fn test_escape_fts5_query_whitespace_handling() {
    assert_eq!(escape_fts5_query("  hello   world  "), "\"hello\" OR \"world\"");
}

#[test]
fn like_patterns_are_literal() {
    assert_eq!(escape_like_pattern("a%b_c\\d"), "a\\%b\\_c\\\\d");
}

// ---- Messages ----

#[test]
fn test_convert_user_message() {
    let input = convert_message(&parsed("uuid-1", MessageType::User, "Hello"), 0);
    assert_eq!(input.uuid, "uuid-1");
    assert_eq!(input.message_type, MessageType::User);
    assert_eq!(input.content_text, "Hello");
    assert_eq!(input.sequence, 0);
    assert!(input.timestamp > 0);
    assert_eq!(input.timestamp, 1705314600000);
}

#[test]
fn test_convert_assistant_message() {
    let input = convert_message(&parsed("uuid-2", MessageType::Assistant, "Hi there"), 1);
    assert_eq!(input.message_type, MessageType::Assistant);
}

#[test]
fn test_convert_tool_message() {
    let input = convert_message(&parsed("uuid-3", MessageType::Tool, "Tool output"), 2);
    assert_eq!(input.message_type, MessageType::Tool);
}

#[test]
fn test_convert_messages_batch() {
    let messages = vec![
        parsed("uuid-1", MessageType::User, "Q1"),
        parsed("uuid-2", MessageType::Assistant, "A1"),
        parsed("uuid-3", MessageType::User, "Q2"),
    ];
    let inputs = convert_messages(&messages);
    assert_eq!(inputs.len(), 3);
    assert_eq!(inputs[0].sequence, 0);
    assert_eq!(inputs[1].sequence, 1);
    assert_eq!(inputs[2].sequence, 2);
}

#[test]
fn test_convert_message_without_timestamp() {
    let mut m = parsed("uuid-1", MessageType::User, "Hello");
    m.timestamp = None;
    assert_eq!(convert_message(&m, 0).timestamp, 0);
}

#[test]
fn test_convert_message_invalid_timestamp() {
    let mut m = parsed("uuid-1", MessageType::User, "Hello");
    m.timestamp = Some("invalid-date".to_string());
    assert_eq!(convert_message(&m, 0).timestamp, 0);
}

#[test]
fn timestamps_are_instants_or_numbers() {
    assert_eq!(parse_timestamp_to_millis("2024-01-15T10:30:00.5+00:00"), Some(1705314600500));
    assert_eq!(parse_timestamp_to_millis("1700000000000"), Some(1700000000000));
    assert_eq!(parse_timestamp_to_millis("soon"), None);
}

#[test]
fn words_stand_for_statuses() {
    assert_eq!(ApprovalStatus::from_str("APPROVED"), Ok(ApprovalStatus::Approved));
    assert_eq!(ApprovalStatus::from_str("x"), Err("Invalid approval status: x".to_string()));
    for s in [
        ApprovalStatus::Pending,
        ApprovalStatus::Approved,
        ApprovalStatus::Rejected,
        ApprovalStatus::Timeout,
    ] {
        assert_eq!(ApprovalStatus::from_str(&s.to_string()), Ok(s));
    }
    for t in [MessageType::User, MessageType::Assistant, MessageType::Tool, MessageType::System] {
        assert_eq!(MessageType::from_word(&t.to_string()), t);
    }
    assert_eq!(MessageType::from_word("other"), MessageType::User);
}

// ---- Collecting one file ----

fn found(path: &str, kind: SourceKind) -> collector::FoundFile {
    let facts = FileFacts { mtime: Some(5), size: 6, inode: 7 };
    PathJob::open(UNIX, path).unwrap().found(Some(facts), Some(source(kind))).unwrap()
}

#[test]
fn a_file_is_collected() {
    let f = found("/c/-work-app/abc.jsonl", SourceKind::Claude);
    assert!(f.use_incremental());
    assert_eq!(f.session_meta().id, "abc");
    let state = ReaderState {
        offset: 9,
        file_id: Some(FileIdentity { inode: 7, mtime: 5, size: 6 }),
    };
    let mut m = parsed("u", MessageType::User, "Hello");
    m.timestamp = Some("77".to_string());
    let p = f.parsed(Some(parse_result(vec![m, parsed("v", MessageType::User, "B")])), Some(state));
    let p = p.unwrap();
    let request = p.project_request(UNIX);
    assert_eq!((request.name.as_str(), request.path.as_str()), ("app", "/work/app"));
    assert_eq!(request.encoded_dir_name.as_deref(), Some("-work-app"));
    let o = p.project(Ok(3)).unwrap();
    let input = o.session_input();
    assert_eq!((input.session_id.as_str(), input.project_id), ("abc", 3));
    assert_eq!((input.message_count, input.file_offset), (Some(2), Some(9)));
    let w = o.written(Ok(())).unwrap();
    let batch = w.messages(Some(4), 1000).unwrap();
    assert_eq!((batch.messages[0].sequence, batch.messages[0].timestamp), (5, 77));
    assert_eq!((batch.messages[1].sequence, batch.messages[1].timestamp), (6, 1000));
    let (result, kept) = batch.finish(Ok((2, vec![10, 11])));
    assert_eq!((result.sessions_scanned, result.messages_inserted), (1, 2));
    assert_eq!(result.new_message_ids, vec![10, 11]);
    assert_eq!(kept, Some((9, 5, 6, 7)));
}

#[test]
fn a_file_that_fails_is_reported() {
    assert!(PathJob::open(UNIX, "/").is_none());
    assert!(PathJob::open(UNIX, "/a/b.jsonl").unwrap().found(None, Some(source(SourceKind::Claude))).is_none());
    assert!(found("/a/b.jsonl", SourceKind::Codex).parsed(None, None).is_none());
    assert!(!found("/a/b.jsonl", SourceKind::Codex).use_incremental());
    let mut nowhere = parse_result(vec![]);
    nowhere.cwd = Some(String::new());
    assert!(found("/a/b.jsonl", SourceKind::Claude).parsed(Some(nowhere), None).is_none());
    let p = || found("/a/b.jsonl", SourceKind::Claude).parsed(Some(parse_result(vec![])), None).unwrap();
    let e = p().project(Err("no".to_string())).unwrap_err();
    assert_eq!(e.errors, vec!["Failed to create project: no".to_string()]);
    let e = p().project(Ok(1)).unwrap().written(Err("no".to_string())).unwrap_err();
    assert_eq!(e.errors, vec!["Failed to create session: no".to_string()]);
    let none = p().project(Ok(1)).unwrap().written(Ok(())).unwrap().messages(None, 1);
    assert_eq!(none.unwrap_err().projects_scanned, 1);
}

// ---- Collecting all sessions ----

fn meta(id: &str, path: &str, mtime: Option<u64>) -> SessionMeta {
    let mut m = SessionMeta::bare(id, source(SourceKind::Claude), "/c/x.jsonl", Some("-x".to_string()));
    m.project_path = path.to_string();
    m.file_mtime = mtime;
    m
}

#[test]
fn listed_sessions_are_collected() {
    let mut result = CollectResult::default();
    result.listing_failed(&source(SourceKind::Codex), "no");
    assert_eq!(result.errors, vec!["Codex failed to list sessions: no".to_string()]);
    assert!(SessionJob::open(meta("s", "", None), source(SourceKind::Claude), None).is_none());
    assert!(SessionJob::open(meta("s", "/p", Some(5)), source(SourceKind::Claude), Some(5)).is_none());
    let job = SessionJob::open(meta("s", "/p", Some(6)), source(SourceKind::Claude), Some(5)).unwrap();
    assert_eq!(job.project_request(UNIX).name, "p");
    let owned = job.project(Ok(2), &mut result).unwrap();
    let mut old = parsed("a", MessageType::User, "old");
    old.timestamp = Some("100".to_string());
    let mut new = parsed("b", MessageType::User, "new");
    new.timestamp = Some("2000000".to_string());
    let read = owned.parsed(Ok(Some(parse_result(vec![old, new]))), &mut result).unwrap();
    assert_eq!(read.session_input().file_mtime, Some(6));
    let written = read.written(Ok(()), &mut result).unwrap();
    let batch = written.messages(Some(2000001), Some(0), 1).unwrap();
    assert_eq!(batch.messages.len(), 1);
    assert_eq!((batch.messages[0].uuid.as_str(), batch.messages[0].sequence), ("b", 2));
    batch.inserted(Ok((1, vec![9])), &mut result);
    result.adapter_done();
    assert_eq!((result.projects_scanned, result.sessions_scanned), (1, 1));
    assert_eq!((result.messages_inserted, result.new_message_ids.clone()), (1, vec![9]));
    assert!(SessionJob::open(meta("s", "/p", None), source(SourceKind::Claude), None)
        .unwrap()
        .project(Err("no".to_string()), &mut result)
        .is_none());
    let owned = SessionJob::open(meta("s", "/p", None), source(SourceKind::Claude), None)
        .unwrap()
        .project(Ok(1), &mut result)
        .unwrap();
    assert!(owned.parsed(Err("bad".to_string()), &mut result).is_none());
    assert_eq!(result.errors[1], "Failed to create project: no");
    assert_eq!(result.errors[2], "Failed to parse session s: bad");
}

// ---- Reading ----

fn dir(name: &str, cwd: &str, files: &[(&str, u64)]) -> ProjectDir {
    ProjectDir {
        name: name.to_string(),
        is_dir: true,
        files: Some(
            files
                .iter()
                .map(|(n, t)| DirFile {
                    name: n.to_string(),
                    is_file: true,
                    mtime: Some(*t),
                    lines: vec![
                        Some("{\"type\":\"summary\"}".to_string()),
                        Some(format!("{{\"cwd\":\"{}\"}}", cwd)),
                    ],
                })
                .collect(),
        ),
    }
}

#[test]
fn projects_are_listed_by_activity() {
    let mut r = SessionReader::new("/c".to_string());
    let dirs = vec![
        dir("-a", "/a", &[("1.jsonl", 10), ("agent-2.jsonl", 99)]),
        dir("-b", "/b", &[("1.jsonl", 20), ("2.jsonl", 5)]),
    ];
    let infos = r.list_projects(&dirs, None);
    assert_eq!(infos.len(), 2);
    assert_eq!((infos[0].path.as_str(), infos[0].session_count), ("/b", 2));
    assert_eq!((infos[1].name.as_str(), infos[1].session_count), ("a", 1));
    assert_eq!(r.list_projects(&dirs, Some(1)).len(), 1);
    assert_eq!(r.cached_dir_name("/a").as_deref(), Some("-a"));
    assert_eq!(r.get_encoded_dir_name("/b", &dirs).as_deref(), Some("-b"));
    assert_eq!(r.get_encoded_dir_name("/none", &dirs), None);
}

#[test]
fn sessions_are_listed_by_activity() {
    let mut r = SessionReader::new("/c".to_string());
    let listed = vec![
        meta("one", "/p", Some(1000)),
        meta("agent-x", "/p", Some(9000)),
        meta("two", "/p", Some(5000)),
        meta("three", "/q", Some(7000)),
    ];
    let ids = |v: Vec<SessionMeta>| v.into_iter().map(|s| s.id).collect::<Vec<String>>();
    assert_eq!(ids(r.list_sessions(Some(listed.clone()), Some("/p"), false)), vec!["two", "one"]);
    assert_eq!(
        ids(r.list_sessions(Some(listed.clone()), None, true)),
        vec!["agent-x", "three", "two", "one"]
    );
    assert!(r.list_sessions(None, None, true).is_empty());
    let latest = r.find_latest_session(Some(listed.clone()), "/p", Some(1), 6000);
    assert_eq!(latest.unwrap().id, "two");
    assert!(r.find_latest_session(Some(listed), "/p", Some(1), 6001).is_none());
}

#[test]
fn messages_come_in_pages() {
    let all: Vec<ParsedMessage> =
        (0..5).map(|i| parsed(&format!("u{i}"), MessageType::User, "x")).collect();
    let page = |limit, offset, order| {
        let r = SessionReader::read_messages(Some(parse_result(all.clone())), limit, offset, order)
            .unwrap();
        let ids: Vec<String> = r.messages.into_iter().map(|m| m.uuid).collect();
        (ids.join(","), r.total, r.has_more)
    };
    assert_eq!(page(2, 0, Order::Asc), ("u0,u1".to_string(), 5, true));
    assert_eq!(page(2, 4, Order::Asc), ("u4".to_string(), 5, false));
    assert_eq!(page(2, 0, Order::Desc), ("u4,u3".to_string(), 5, true));
    assert_eq!(page(9, 7, Order::Asc), ("".to_string(), 5, false));
    assert!(SessionReader::read_messages(None, 1, 0, Order::Asc).is_none());
}

#[test]
fn previews_show_what_was_said() {
    let mut m = parsed("u", MessageType::Assistant, "fallback");
    assert_eq!(reader::generate_preview(UNIX, &m), "fallback");
    m.raw = Some(
        "{\"message\":{\"content\":[{\"type\":\"text\",\"text\":\"Look\"},{\"type\":\"tool_use\",\"name\":\"Bash\",\"input\":{\"command\":\"ls -la\"}}]}}"
            .to_string(),
    );
    assert_eq!(reader::generate_preview(UNIX, &m), "Look 🔧 Bash: ls -la");
    m.raw = Some("{\"message\":{\"content\":[{\"type\":\"thinking\"}]}}".to_string());
    assert_eq!(reader::generate_preview(UNIX, &m), "💭 思考中...");
    m.raw = Some("no json".to_string());
    assert_eq!(reader::generate_preview(UNIX, &m), "fallback");
    assert_eq!(reader::truncate_chars("abcdef", 3), "abc...");
    let long = "好".repeat(101);
    let cut = format!("{}...", "好".repeat(97));
    m.content.text = long.clone();
    assert_eq!(reader::generate_preview(UNIX, &m), cut);
    m.raw = None;
    assert_eq!(reader::generate_preview(UNIX, &m), cut);
    let block = format!("{{\"type\":\"text\",\"text\":\"{}\"}}", long);
    m.raw = Some(format!("{{\"message\":{{\"content\":[{}]}}}}", block));
    assert_eq!(reader::generate_preview(UNIX, &m), cut);
    m.message_type = MessageType::User;
    assert_eq!(reader::generate_preview(UNIX, &m), cut);
    assert_eq!(reader::generate_preview(UNIX, &m).chars().count(), 100);
    m.message_type = MessageType::System;
    assert_eq!(reader::generate_preview(UNIX, &m), "好".repeat(100));
    m.message_type = MessageType::User;
    m.content.text = "好".repeat(100);
    assert_eq!(reader::generate_preview(UNIX, &m), "好".repeat(100));
    assert_eq!(db::truncate_preview("a\u{7}b\n  c", 100), "ab c");
}

#[test]
fn last_messages_are_shown() {
    let two = parse_result(vec![
        parsed("a", MessageType::User, "first"),
        parsed("b", MessageType::Assistant, "last"),
    ]);
    let last = SessionReader::read_last_message(Some(two));
    assert_eq!(last.as_ref().unwrap().uuid, "b");
    assert!(SessionReader::read_last_message(Some(parse_result(vec![]))).is_none());
    assert!(SessionReader::read_last_message(None).is_none());
    let sessions = vec![meta("one", "/p", None), meta("two", "/p", None)];
    let shown = SessionReader::list_sessions_with_preview(UNIX, sessions, &vec![last, None]);
    assert_eq!(shown[0].last_message_type.as_deref(), Some("assistant"));
    assert_eq!(shown[0].last_message_preview.as_deref(), Some("last"));
    assert_eq!(shown[0].last_message_at, Some(1705314600000));
    assert_eq!(shown[1].last_message_preview, None);
}

#[test]
fn raw_messages_come_in_pages() {
    let line = |s: &str| Some(s.to_string());
    let lines = vec![line("{\"n\":\"a\"}"), line("  "), line("no json"), line("{\"n\":\"b\"}")];
    let r = SessionReader::read_messages_raw(&lines, 1, 0, Order::Desc).unwrap();
    assert_eq!((r.total, r.has_more, r.messages.len()), (2, true, 1));
    assert_eq!(r.messages[0].text_field("n").map(|s| s.as_str()), Some("b"));
    let broken = vec![line("{}"), None];
    assert!(SessionReader::read_messages_raw(&broken, 1, 0, Order::Asc).is_none());
    assert_eq!(SessionReader::parse_jsonl_for_index::<i32, ()>(Ok(Some(1))), Some(1));
    assert_eq!(SessionReader::parse_jsonl_for_index::<i32, ()>(Ok(None)), None);
    assert_eq!(SessionReader::parse_jsonl_for_index::<i32, ()>(Err(())), None);
}

#[test]
fn sessions_are_measured() {
    let mut p = parse_result(vec![
        parsed("a", MessageType::User, "12345678"),
        parsed("b", MessageType::Assistant, "1234"),
    ]);
    p.created_at = Some("2024-01-15T10:30:00Z".to_string());
    p.updated_at = Some("2024-01-15T10:31:30Z".to_string());
    let m = SessionReader::calculate_metrics(&Some(p)).unwrap();
    assert_eq!((m.message_count, m.user_message_count, m.assistant_message_count), (2, 1, 1));
    assert_eq!((m.estimated_tokens, m.duration_seconds), (3, Some(90)));
    assert!(SessionReader::calculate_metrics(&None).is_none());
}

// ---- For C ----

#[test]
fn errors_have_numbers() {
    assert_eq!(ffi::map_error(&Error::PermissionDenied).code(), 5);
    assert_eq!(ffi::map_error(&Error::Coordination("x".to_string())), FfiError::CoordinationError);
    assert_eq!(ffi::map_error(&Error::Io("x".to_string())), FfiError::DatabaseError);
    assert_eq!(FfiError::Success.code(), 0);
    assert_eq!(FfiError::Unknown.code(), 99);
    assert_eq!(Error::Io("x".to_string()).to_string(), "IO 错误: x");
    assert_eq!(Error::Other("x".to_string()).to_string(), "x");
    assert!(matches!(SearchOrderBy::from(SearchOrderByC::TimeAsc), SearchOrderBy::TimeAsc));
    assert_eq!(ApprovalStatus::from(ApprovalStatusC::Timeout), ApprovalStatus::Timeout);
    assert_eq!(ffi::escape_fts5_query("a \"b\""), "\"a \"\"b\"\"\"");
}

fn stored(content: &str) -> Message {
    Message {
        id: 1,
        session_id: "s".to_string(),
        uuid: "u".to_string(),
        message_type: MessageType::Assistant,
        content_text: content.to_string(),
        content_full: content.to_string(),
        timestamp: 2,
        sequence: 3,
        source: None,
        channel: None,
        model: None,
        tool_call_id: None,
        tool_name: None,
        tool_args: None,
        raw: None,
        vector_indexed: false,
        approval_status: None,
        approval_resolved_at: None,
    }
}

#[test]
fn messages_cross_to_c() {
    let out = ffi::export_messages(vec![stored("hi")]).unwrap();
    assert_eq!((out[0].role, out[0].content.as_str()), (1, "hi"));
    assert!(ffi::export_messages(vec![stored("a\0b")]).is_err());
    let given = |role| {
        vec![MessageIn {
            uuid: Some("u".to_string()),
            role,
            content: Some("c".to_string()),
            timestamp: 1,
            sequence: 2,
        }]
    };
    assert_eq!(ffi::messages_from_c(given(0)).unwrap()[0].message_type, MessageType::User);
    assert_eq!(ffi::messages_from_c(given(7)).unwrap_err(), FfiError::Unknown);
}

#[test]
fn a_tool_keeps_its_projects_at_home() {
    let r = SessionReader::in_home(UNIX, "/home/x", "tool");
    assert_eq!(r.projects_path, "/home/x/.tool/projects");
    assert!(r.encoded_dir_cache.is_empty());
    let somewhere = SessionReader::where_home(UNIX, &Some("/home/x".to_string()), "tool").unwrap();
    assert_eq!(somewhere.projects_path, "/home/x/.tool/projects");
    assert!(somewhere.encoded_dir_cache.is_empty());
    assert!(SessionReader::where_home(UNIX, &None, "tool").is_none());
    match (SessionReader::with_default_path("tool"), dirs::home_dir()) {
        (Some(r), Some(home)) => {
            assert_eq!(r.projects_path, format!("{}/.tool/projects", home.display()))
        }
        (None, None) => {}
        _ => panic!("the reader does not follow the home directory"),
    }
}

#[test]
fn a_session_file_is_found() {
    let probe = |name: &str, is_dir, holds_file| DirProbe { name: name.to_string(), is_dir, holds_file };
    let r = SessionReader::new("/p".to_string());
    let dirs = vec![
        probe("file", false, true),
        probe(".hidden", true, true),
        probe("-a", true, false),
        probe("-b", true, true),
        probe("-c", true, true),
    ];
    assert_eq!(r.get_session_path("s", &dirs).as_deref(), Some("/p/-b/s.jsonl"));
    assert_eq!(r.get_session_path("s", &dirs[..3].to_vec()), None);
}

#[test]
fn a_second_collection_writes_nothing() {
    let messages = vec![
        parsed("u1", MessageType::User, "one"),
        parsed("u2", MessageType::Assistant, "two"),
        parsed("u1", MessageType::User, "one again"),
    ];
    let first = collector::new_messages(&messages, None, 5, 0);
    let written = db::insert_messages(&vec![], &first);
    assert_eq!(written, vec![0, 1]);
    let present: Vec<String> = written.iter().map(|i| first[*i].uuid.clone()).collect();
    let second = collector::new_messages(&messages, None, 9, 2);
    assert_eq!(second.len(), 3);
    assert!(db::insert_messages(&present, &second).is_empty());
}

#[test]
fn messages_are_numbered_from_the_start_given() {
    let messages = vec![
        parsed("u1", MessageType::User, "one"),
        parsed("u2", MessageType::User, "two"),
    ];
    let numbers = |start: i64| -> Vec<i64> {
        let r = convert_messages_with_start_sequence(&messages, start);
        r.iter().map(|m| m.sequence).collect()
    };
    assert_eq!(numbers(7), vec![7, 8]);
    assert_eq!(numbers(-1), vec![-1, 0]);
    assert_eq!(numbers(i64::MAX - 2), vec![i64::MAX - 2, i64::MAX - 1]);
    let default = convert_messages(&messages);
    let asked = convert_messages_with_start_sequence(&messages, 0);
    assert_eq!(format!("{:?}", default), format!("{:?}", asked));
}

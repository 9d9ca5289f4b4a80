//! The agent, its clients and what they say to each other.
use ai_cli_session_db::agent::broadcaster::ConnectionManager;
use ai_cli_session_db::agent::handler::{
    approve_reply, compact_reply, file_change_reply, handle, handle_hook_event, index_reply, Action,
};
use ai_cli_session_db::agent::server;
use ai_cli_session_db::agent::server::{
    after_wait, invalid_request, is_agent_running, must_stop, recorded_pid, AfterWait, AgentConfig,
    Awaited, IdleChecker, Stage,
};
use ai_cli_session_db::agent::watcher::{handle_file_change, trigger_collect};
use ai_cli_session_db::archive;
use ai_cli_session_db::archive::ArchiveStep;
use ai_cli_session_db::calls::CText;
use ai_cli_session_db::client::connect;
use ai_cli_session_db::client::connect::{
    connect_begin, connect_or_start_agent, detect_platform, is_agent_stuck, AgentBinary,
    ClientConfig, ConnectEvent, ConnectMove, ConnectState,
};
use ai_cli_session_db::client::download::{download_file_simple, download_request, DownloadReply};
use ai_cli_session_db::client::ffi as client_ffi;
use ai_cli_session_db::client::ffi::ClientState;
use ai_cli_session_db::ffi::FfiError;
use ai_cli_session_db::json::Json;
use ai_cli_session_db::paths::PathStyle;
use ai_cli_session_db::protocol;
use ai_cli_session_db::protocol::{Event, EventType, HookEvent, Push, QueryType, Request, Response};
use ai_cli_session_db::repair;
use ai_cli_session_db::repair::RepairStep;
use ai_cli_session_db::session::{IndexableMessage, ParsedContent};
use ai_cli_session_db::types;
use ai_cli_session_db::version;

const UNIX: PathStyle = PathStyle::Unix;

fn hook_event(event_type: &str, session_id: &str) -> HookEvent {
    HookEvent {
        event_type: event_type.to_string(),
        session_id: session_id.to_string(),
        transcript_path: None,
        cwd: None,
        prompt: None,
        tool_name: None,
        tool_input: None,
        tool_use_id: None,
        notification_type: None,
        message: None,
        context: None,
    }
}

#[test]
fn test_event_type_hook_event() {
    let event = Event::HookEvent(hook_event("Stop", "test"));
    assert_eq!(event.event_type(), EventType::HookEvent);
    match event.to_push() {
        Push::HookEvent(e) => {
            assert_eq!(e.event_type, "Stop");
            assert_eq!(e.session_id, "test");
        }
        _ => panic!("Expected Push::HookEvent"),
    }
}

#[test]
fn test_hook_event_context_transparent() {
    let mut e = hook_event("Stop", "test");
    e.context =
        serde_json::from_str("{\"terminal_id\": 42, \"custom_data\": {\"nested\": true}}").unwrap();
    match Event::HookEvent(e).to_push() {
        Push::HookEvent(e) => {
            let ctx = e.context.unwrap();
            assert_eq!(ctx["terminal_id"], 42);
            assert_eq!(ctx["custom_data"]["nested"], true);
        }
        _ => panic!("Expected Push::HookEvent"),
    }
}

#[test]
fn events_are_told_in_full() {
    let new = Event::NewMessages {
        session_id: "s".to_string(),
        path: "/p".to_string(),
        count: 2,
        message_ids: vec![3, 4],
    };
    assert_eq!(new.event_type(), EventType::NewMessage);
    match new.to_push() {
        Push::NewMessages { session_id, path, count, message_ids } => {
            assert_eq!((session_id.as_str(), path.as_str(), count), ("s", "/p", 2));
            assert_eq!(message_ids, vec![3, 4]);
        }
        _ => panic!("another event is told"),
    }
    let start = Event::SessionStart { session_id: "s".to_string(), project_path: "/p".to_string() };
    assert_eq!(start.event_type(), EventType::SessionStart);
    assert!(matches!(start.to_push(), Push::SessionStart { project_path, .. } if project_path == "/p"));
    let end = Event::SessionEnd { session_id: "s".to_string() };
    assert_eq!(end.event_type(), EventType::SessionEnd);
    assert!(matches!(end.to_push(), Push::SessionEnd { session_id } if session_id == "s"));
    assert_eq!(protocol::SESSION_START, "SessionStart");
}

// ---- Connections ----

#[test]
fn test_connection_count() {
    let mut manager = ConnectionManager::new();
    assert_eq!(manager.connection_count(), 0);
    let conn1 = manager.register();
    assert_eq!(manager.connection_count(), 1);
    let _conn2 = manager.register();
    assert_eq!(manager.connection_count(), 2);
    manager.unregister(conn1);
    assert_eq!(manager.connection_count(), 1);
}

#[test]
fn subscribers_are_told_until_they_leave() {
    let mut m = ConnectionManager::new();
    let a = m.register();
    let b = m.register();
    assert_eq!((a, b), (1, 2));
    m.subscribe(a, &vec![EventType::HookEvent, EventType::NewMessage]);
    m.subscribe(b, &vec![EventType::HookEvent]);
    assert_eq!(m.subscribers(EventType::HookEvent), vec![a, b]);
    assert_eq!(m.subscribers(EventType::NewMessage), vec![a]);
    assert!(m.subscribers(EventType::SessionEnd).is_empty());
    m.unsubscribe(a, &vec![EventType::HookEvent]);
    assert_eq!(m.subscribers(EventType::HookEvent), vec![b]);
    assert_eq!(m.subscribers(EventType::NewMessage), vec![a]);
    assert!(m.knows(a));
    assert!(m.has_connections(&vec![b]));
    assert!(!m.knows(b));
    assert!(m.subscribers(EventType::HookEvent).is_empty());
    assert_eq!(m.cleanup_closed(&vec![a]), 0);
    assert_eq!(m.register(), 3);
}

// ---- Requests ----

fn reply(a: Action) -> Response {
    match a {
        Action::Reply(r) => r,
        _ => panic!("there is no answer yet"),
    }
}

#[test]
fn requests_are_answered() {
    let mut m = ConnectionManager::new();
    let id = m.register();
    let hello = Request::Handshake { component: "test".to_string(), version: "1.0.0".to_string() };
    match reply(handle(&mut m, id, hello, "9.9")) {
        Response::HandshakeOk { agent_version } => assert_eq!(agent_version, "9.9"),
        _ => panic!("a client is not greeted"),
    }
    let on = Request::Subscribe { events: vec![EventType::HookEvent] };
    assert!(matches!(reply(handle(&mut m, id, on, "9.9")), Response::Success));
    assert_eq!(m.subscribers(EventType::HookEvent), vec![id]);
    let off = Request::Unsubscribe { events: vec![EventType::HookEvent] };
    assert!(matches!(reply(handle(&mut m, id, off, "9.9")), Response::Success));
    assert!(m.subscribers(EventType::HookEvent).is_empty());
    assert!(matches!(reply(handle(&mut m, id, Request::Heartbeat, "9.9")), Response::Success));
    let status = Request::Query { query_type: QueryType::Status };
    match reply(handle(&mut m, id, status, "9.9")) {
        Response::QueryResult { data } => {
            assert!(matches!(data.get("agent_version"), Some(Json::Text(v)) if v == "9.9"));
            assert!(matches!(data.get("connections"), Some(Json::Number(n)) if n == "1"));
        }
        _ => panic!("a question is not answered"),
    }
    let count = Request::Query { query_type: QueryType::ConnectionCount };
    match reply(handle(&mut m, id, count, "9.9")) {
        Response::QueryResult { data } => {
            assert!(matches!(data.get("count"), Some(Json::Number(n)) if n == "1"));
        }
        _ => panic!("a question is not answered"),
    }
}

#[test]
fn writes_are_handed_on() {
    let mut m = ConnectionManager::new();
    let id = m.register();
    let change = Request::NotifyFileChange { path: "/f.jsonl".to_string() };
    assert!(matches!(handle(&mut m, id, change, "1"), Action::Collect { path } if path == "/f.jsonl"));
    let index = Request::WriteIndexResult { session_id: "s".to_string(), indexed_message_ids: vec![1] };
    assert!(
        matches!(handle(&mut m, id, index, "1"), Action::MarkIndexed { message_ids } if message_ids == vec![1])
    );
    let compact = Request::WriteCompactResult {
        session_id: "s".to_string(),
        talk_id: "t".to_string(),
        summary_l2: "two".to_string(),
        summary_l3: None,
    };
    assert!(
        matches!(handle(&mut m, id, compact, "1"), Action::WriteSummary { talk_id, .. } if talk_id == "t")
    );
    let all = vec![
        (protocol::ApprovalStatus::Pending, types::ApprovalStatus::Pending),
        (protocol::ApprovalStatus::Approved, types::ApprovalStatus::Approved),
        (protocol::ApprovalStatus::Rejected, types::ApprovalStatus::Rejected),
        (protocol::ApprovalStatus::Timeout, types::ApprovalStatus::Timeout),
    ];
    for (said, kept) in all {
        let approve = Request::WriteApproveResult {
            tool_call_id: "c".to_string(),
            status: said,
            resolved_at: 5,
        };
        match handle(&mut m, id, approve, "1") {
            Action::WriteApproval { tool_call_id, status, resolved_at } => {
                assert_eq!((tool_call_id.as_str(), status, resolved_at), ("c", kept, 5));
            }
            _ => panic!("an approval is lost"),
        }
    }
}

fn error_of(r: Response) -> (i32, String) {
    match r {
        Response::Error { code, message } => (code, message),
        _ => panic!("a failure is passed over"),
    }
}

#[test]
fn failures_are_answered() {
    let (r, wake) = file_change_reply(Some("no"));
    assert_eq!(error_of(r), (500, "Collection failed: no".to_string()));
    assert!(!wake);
    let (r, wake) = file_change_reply(None);
    assert!(matches!(r, Response::Success));
    assert!(wake);
    assert_eq!(
        error_of(index_reply(Some("no"))),
        (500, "Failed to mark messages indexed: no".to_string())
    );
    assert_eq!(
        error_of(compact_reply(Some("no"))),
        (500, "Failed to write compact result: no".to_string())
    );
    assert_eq!(
        error_of(approve_reply(Some("no"))),
        (500, "Failed to update approval status: no".to_string())
    );
    assert!(matches!(index_reply(None), Response::Success));
    assert!(matches!(compact_reply(None), Response::Success));
    assert!(matches!(approve_reply(None), Response::Success));
    assert_eq!(error_of(invalid_request("bad")), (400, "Invalid JSON: bad".to_string()));
}

#[test]
fn hook_events_reach_their_subscribers() {
    let mut m = ConnectionManager::new();
    let a = m.register();
    let _b = m.register();
    m.subscribe(a, &vec![EventType::HookEvent]);
    let mut e = hook_event("UserPromptSubmit", "test-session-456");
    e.prompt = Some("Hello there!".to_string());
    e.transcript_path = Some("/t.jsonl".to_string());
    let plan = handle_hook_event(&m, e.clone(), true);
    assert_eq!(plan.collect.as_deref(), Some("/t.jsonl"));
    assert_eq!(plan.recipients, vec![a]);
    assert!(matches!(plan.reply, Response::Success));
    match plan.event.to_push() {
        Push::HookEvent(told) => assert_eq!(told.prompt.as_deref(), Some("Hello there!")),
        _ => panic!("another event is told"),
    }
    assert_eq!(handle_hook_event(&m, e, false).collect, None);
    assert_eq!(handle_hook_event(&m, hook_event("Stop", "s"), true).collect, None);
}

// ---- Files ----

#[test]
fn only_session_files_are_collected() {
    let known = vec!["jsonl".to_string(), "json".to_string()];
    assert!(handle_file_change(UNIX, "/a/b.jsonl", &known));
    assert!(!handle_file_change(UNIX, "/a/b.txt", &known));
    assert!(!handle_file_change(UNIX, "/a/b", &known));
    assert!(trigger_collect(UNIX, "/a/abc.jsonl", 0, vec![]).is_none());
    match trigger_collect(UNIX, "/a/abc.jsonl", 2, vec![7, 8]) {
        Some(Event::NewMessages { session_id, path, count, message_ids }) => {
            assert_eq!((session_id.as_str(), path.as_str(), count), ("abc", "/a/abc.jsonl", 2));
            assert_eq!(message_ids, vec![7, 8]);
        }
        _ => panic!("new messages are not told"),
    }
}

// ---- From start to end ----

#[test]
fn the_agent_has_its_files() {
    let c = AgentConfig::in_home(UNIX, Some("/home/x"));
    assert_eq!(c.data_dir, "/home/x/.vimo");
    assert_eq!(c.idle_timeout_secs, 30);
    assert_eq!(c.socket_path(), "/home/x/.vimo/agent.sock");
    assert_eq!(c.pid_path(), "/home/x/.vimo/agent.pid");
    assert_eq!(c.db_path(), "/home/x/.vimo/db/ai-cli-session.db");
    assert_eq!(AgentConfig::in_home(UNIX, None).data_dir, "./.vimo");
    let usual = AgentConfig::default();
    assert_eq!(usual.idle_timeout_secs, 30);
    assert!(usual.data_dir.ends_with("/.vimo"));
    let home = dirs::home_dir().map(|p| p.to_string_lossy().into_owned());
    assert_eq!(usual.data_dir, AgentConfig::in_home(UNIX, home.as_deref()).data_dir);
}

#[test]
fn a_running_agent_is_recognised() {
    assert_eq!(recorded_pid(Some(" 123\n")), Some(123));
    assert_eq!(recorded_pid(Some("+5")), Some(5));
    assert_eq!(recorded_pid(Some("-5")), None);
    assert_eq!(recorded_pid(Some("4294967295")), Some(4294967295));
    assert_eq!(recorded_pid(Some("4294967296")), None);
    assert_eq!(recorded_pid(Some("x")), None);
    assert_eq!(recorded_pid(None), None);
    assert!(is_agent_running(Some(1), true));
    assert!(!is_agent_running(Some(1), false));
    assert!(!is_agent_running(None, true));
    assert!(is_agent_stuck(Some(1), true, false));
    assert!(!is_agent_stuck(Some(1), true, true));
    assert!(!is_agent_stuck(Some(1), false, false));
    assert!(!is_agent_stuck(None, true, false));
}

#[test]
fn the_agent_runs_to_its_end() {
    let mut stage = Stage::WritePid;
    let mut seen = 0;
    while !matches!(stage, Stage::Finished) {
        stage = server::run(stage, Ok(()), true);
        seen += 1;
        assert!(seen < 10);
    }
    assert_eq!(seen, 8);
    assert!(matches!(server::run(Stage::WritePid, Ok(()), false), Stage::Bind));
    assert!(matches!(server::run(Stage::Scan, Err("x".to_string()), false), Stage::Watch));
    match server::run(Stage::Bind, Err("in use".to_string()), false) {
        Stage::Failed(why) => assert_eq!(why, "Failed to bind socket"),
        _ => panic!("the agent goes on without a socket"),
    }
    match server::run(Stage::Watch, Err("no".to_string()), false) {
        Stage::Failed(why) => assert_eq!(why, "no"),
        _ => panic!("the agent goes on without a watcher"),
    }
    assert!(must_stop(true, false));
    assert!(!must_stop(true, true));
    assert!(!must_stop(false, false));
    assert_eq!(after_wait(Awaited::Accepted), AfterWait::Serve);
    assert_eq!(after_wait(Awaited::AcceptFailed), AfterWait::Wait);
    assert_eq!(after_wait(Awaited::Elapsed), AfterWait::Wait);
    assert_eq!(after_wait(Awaited::Signal), AfterWait::Stop);
}

#[test]
fn an_idle_agent_is_to_stop() {
    let mut idle = IdleChecker::new(&AgentConfig::in_home(UNIX, None));
    for _ in 0..5 {
        idle.idle_checker(false);
        assert!(!idle.shutdown);
    }
    idle.idle_checker(false);
    assert!(idle.shutdown);
    idle.idle_checker(true);
    assert!(!idle.shutdown);
    assert_eq!(idle.idle_count, 0);
}

// ---- Clients ----

fn client_config(component: &str) -> ClientConfig {
    ClientConfig::in_dir(component, "1.2.3", "/home/x/.vimo".to_string())
}

#[test]
fn test_client_config_default() {
    let config = ClientConfig::default("1.2.3");
    assert_eq!(config.component, "unknown");
    assert_eq!(config.connect_retries, 3);
    assert_eq!(config.retry_interval_ms, 500);
    assert!(config.data_dir.contains(".vimo"));
}

#[test]
fn test_client_config_new() {
    let config = ClientConfig::new("test-component", "1.2.3");
    assert_eq!(config.component, "test-component");
    assert_eq!(config.connect_retries, 3);
    assert_eq!(config.retry_interval_ms, 500);
}

#[test]
fn test_client_config_socket_path() {
    let mut config = ClientConfig::default("1.2.3");
    config.data_dir = "/tmp/test-vimo".to_string();
    assert_eq!(config.socket_path(), "/tmp/test-vimo/agent.sock");
}

#[test]
fn test_client_config_pid_path() {
    let mut config = ClientConfig::default("1.2.3");
    config.data_dir = "/tmp/test-vimo".to_string();
    assert_eq!(config.pid_path(), "/tmp/test-vimo/agent.pid");
}

#[test]
fn test_client_config_agent_binary_path() {
    let mut config = ClientConfig::default("1.2.3");
    config.data_dir = "/tmp/test-vimo".to_string();
    assert_eq!(config.default_agent_binary_path(), "/tmp/test-vimo/bin/vimo-agent");
}

#[test]
fn the_program_of_the_agent_is_found() {
    let config = client_config("c")
        .with_agent_binary("/my/agent".to_string())
        .with_agent_source_dir("/src".to_string());
    assert_eq!(
        config.agent_programs(Some("/env/agent")),
        vec!["/my/agent", "/env/agent", "/home/x/.vimo/bin/vimo-agent"]
    );
    assert_eq!(
        config.find_agent_source(Some("/work/pkg"), Some("/app/bin/tool")),
        vec![
            "/src/vimo-agent",
            "target/release/vimo-agent",
            "/work/target/release/vimo-agent",
            "target/debug/vimo-agent",
            "/work/target/debug/vimo-agent",
            "/app/bin/vimo-agent"
        ]
    );
    let find = |present: Vec<&str>| {
        let present: Vec<String> = present.iter().map(|p| p.to_string()).collect();
        config.find_agent_binary(Some("/env/agent"), Some("/work/pkg"), None, &present)
    };
    assert!(matches!(find(vec!["/env/agent", "/src/vimo-agent"]), AgentBinary::Ready(p) if p == "/env/agent"));
    assert!(matches!(find(vec!["/src/vimo-agent"]), AgentBinary::Deploy(p) if p == "/src/vimo-agent"));
    assert!(matches!(find(vec![]), AgentBinary::Missing));
    assert_eq!(config.after_deploy("/s".to_string(), true), "/home/x/.vimo/bin/vimo-agent");
    assert_eq!(config.after_deploy("/s".to_string(), false), "/s");
}

#[test]
fn connecting_starts_the_agent_at_last() {
    let config = client_config("c");
    let mut state = connect_begin(&config);
    let mut tries = 0;
    let mut pauses = Vec::new();
    let why = loop {
        if matches!(state, ConnectState::Connect { .. } | ConnectState::Await { .. }) {
            tries += 1;
        }
        let event = match state {
            ConnectState::CleanUp | ConnectState::Start => ConnectEvent::Done,
            _ => ConnectEvent::Failed("refused".to_string()),
        };
        match connect_or_start_agent(&config, state, event) {
            ConnectMove::Pause { ms, next } => {
                pauses.push(ms);
                state = next;
            }
            ConnectMove::Go(next) => state = next,
            ConnectMove::GiveUp(why) => break why,
            ConnectMove::Finish => panic!("there is no agent"),
        }
    };
    assert_eq!(why, "Timeout starting Agent");
    assert_eq!(tries, 13);
    assert_eq!(pauses.len(), 12);
    assert_eq!((pauses[0], pauses[1], pauses[2]), (500, 500, 200));
    let first = connect_begin(&config);
    assert!(matches!(connect_or_start_agent(&config, first, ConnectEvent::Done), ConnectMove::Finish));
    let failed = ConnectEvent::Failed("no program".to_string());
    assert!(
        matches!(connect_or_start_agent(&config, ConnectState::Start, failed), ConnectMove::GiveUp(w) if w == "no program")
    );
    let mut never = client_config("c");
    never.connect_retries = 0;
    assert_eq!(connect_begin(&never), ConnectState::CleanUp);
}

#[test]
fn answers_are_understood() {
    let error = Response::Error { code: 500, message: "no".to_string() };
    assert_eq!(connect::subscribe(&Response::Success), Ok(()));
    assert_eq!(connect::subscribe(&error), Err("Subscribe failed: no (code=500)".to_string()));
    assert_eq!(
        connect::notify_file_change(&error),
        Err("NotifyFileChange failed: no (code=500)".to_string())
    );
    assert_eq!(
        connect::write_approve_result(&error),
        Err("WriteApproveResult failed: no (code=500)".to_string())
    );
    let hello = Response::HandshakeOk { agent_version: "1".to_string() };
    assert_eq!(connect::subscribe(&hello), Err("Unexpected response".to_string()));
    assert_eq!(connect::finish_connect(&hello), Ok("1".to_string()));
    assert_eq!(
        connect::finish_connect(&error),
        Err("Handshake failed: no (code=500)".to_string())
    );
    assert_eq!(
        connect::finish_connect(&Response::Success),
        Err("Unexpected handshake response".to_string())
    );
}

#[test]
fn platforms_have_names() {
    assert_eq!(detect_platform("macos", "aarch64"), Ok("darwin-arm64".to_string()));
    assert_eq!(detect_platform("macos", "x86_64"), Ok("darwin-x64".to_string()));
    assert_eq!(detect_platform("linux", "x86_64"), Ok("linux-x64".to_string()));
    assert_eq!(detect_platform("linux", "aarch64"), Ok("linux-arm64".to_string()));
    assert_eq!(detect_platform("windows", "x86_64"), Ok("windows-x64".to_string()));
    assert_eq!(
        detect_platform("windows", "aarch64"),
        Err("Unsupported platform: os=windows, arch=aarch64".to_string())
    );
}

#[test]
fn downloads_ask_for_a_file() {
    let d = download_request("https://host/a/b").unwrap();
    assert_eq!((d.host.as_str(), d.path.as_str()), ("host", "a/b"));
    assert_eq!(
        d.request,
        "GET /a/b HTTP/1.1\r\nHost: host\r\nUser-Agent: vimo-agent-downloader/1.0\r\nConnection: close\r\n\r\n"
    );
    assert_eq!(download_request("http://host/a").unwrap_err(), "Only HTTPS is supported");
    assert_eq!(download_request("https://host").unwrap_err(), "Invalid URL format");
}

fn failure(bytes: &[u8]) -> String {
    match download_file_simple(&bytes.to_vec()) {
        DownloadReply::Failed(why) => why,
        _ => panic!("there is no file"),
    }
}

#[test]
fn replies_to_downloads_are_read() {
    let found = b"HTTP/1.1 200 OK\r\nA: b\r\n\r\n\xff\x00\r\n\r\nrest".to_vec();
    match download_file_simple(&found) {
        DownloadReply::Body(body) => assert_eq!(body, b"\xff\x00\r\n\r\nrest".to_vec()),
        _ => panic!("the file is lost"),
    }
    assert_eq!(failure(b"HTTP/1.0 200 OK\r\nA: b\r\n"), "HTTP body not found");
    let moved = b"HTTP/1.1 302 Found\r\nLOCATION:  https://other/x \r\n\r\n".to_vec();
    match download_file_simple(&moved) {
        DownloadReply::Redirect(url) => assert_eq!(url, "https://other/x"),
        _ => panic!("the other address is lost"),
    }
    assert_eq!(
        failure(b"HTTP/1.1 301 Moved\r\n\r\n"),
        "Download failed: Received redirect but Location header not found"
    );
    assert_eq!(
        failure(b"HTTP/1.1 404 Not\xff Found\r\nA: b\r\n"),
        "Download failed: Unexpected HTTP status\nResponse headers: HTTP/1.1 404 Not\u{fffd} Found\nA: b"
    );
}

#[test]
fn the_client_as_c_sees_it() {
    let text = |s: &str| CText::Text(s.to_string());
    let c = client_ffi::agent_client_create(false, text("kit"), text("/data"), text("/lib"), "1").unwrap();
    assert_eq!((c.component.as_str(), c.data_dir.as_str()), ("kit", "/data"));
    assert_eq!(c.agent_source_dir.as_deref(), Some("/lib"));
    let d = client_ffi::agent_client_create(false, text("kit"), CText::Null, CText::Null, "1").unwrap();
    assert_eq!(d.agent_source_dir, None);
    let refused = |missing, component, dir, source| {
        client_ffi::agent_client_create(missing, component, dir, source, "1").unwrap_err()
    };
    assert_eq!(refused(true, text("kit"), CText::Null, CText::Null), FfiError::NullPointer);
    assert_eq!(refused(false, CText::Null, CText::NotUtf8, CText::Null), FfiError::NullPointer);
    assert_eq!(refused(false, CText::NotUtf8, CText::Null, CText::Null), FfiError::InvalidUtf8);
    assert_eq!(refused(false, text("kit"), CText::NotUtf8, CText::Null), FfiError::InvalidUtf8);
    assert_eq!(refused(false, text("kit"), CText::Null, CText::NotUtf8), FfiError::InvalidUtf8);
    assert!(d.data_dir.ends_with("/.vimo"));
    let mut s = ClientState::new();
    assert!(s.must_connect());
    assert_eq!(s.agent_client_notify_file_change(false, text("/a")), Err(FfiError::NotConnected));
    assert_eq!(s.agent_client_notify_file_change(true, text("/a")), Err(FfiError::NullPointer));
    assert_eq!(s.agent_client_request(), Err(FfiError::NotConnected));
    assert_eq!(s.agent_client_connect(Some("Agent binary not found and ...")), FfiError::AgentNotFound);
    assert_eq!(s.agent_client_connect(Some("refused")), FfiError::ConnectionFailed);
    assert!(!s.agent_client_is_connected());
    assert_eq!(s.agent_client_connect(None), FfiError::Success);
    assert_eq!(s.agent_client_request(), Ok(()));
    assert_eq!(s.agent_client_notify_file_change(false, text("/a")), Ok("/a".to_string()));
    assert_eq!(s.agent_client_write_approve_result(false, text("t")), Ok("t".to_string()));
    assert_eq!(s.agent_client_write_approve_result(false, CText::NotUtf8), Err(FfiError::InvalidUtf8));
    assert!(!s.must_connect());
    s.agent_client_disconnect();
    assert_eq!(s.agent_client_request(), Err(FfiError::NotConnected));
    assert_eq!(client_ffi::request_code(true), FfiError::Success);
    assert_eq!(client_ffi::request_code(false), FfiError::RequestFailed);
}

// ---- Repairs, archives and versions ----

#[test]
fn repairs_know_their_files() {
    let p = repair::repair_paths(UNIX, "/d/ai-cli-session.db");
    assert_eq!(p.wal, "/d/ai-cli-session.db-wal");
    assert_eq!(p.shm, "/d/ai-cli-session.db-shm");
    assert_eq!(p.wal_backup, "/d/ai-cli-session.db-wal.repair-backup");
    assert_eq!(p.rebuilt, "/d/ai-cli-session.db-repair-tmp");
    assert_eq!(p.damaged, "/d/ai-cli-session.db-pre-repair");
    assert_eq!(p.marker, "/d/ai-cli-session.db-repair-needed");
    let path = std::path::Path::new("/d/ai-cli-session.db");
    assert_eq!(p.wal, path.with_extension("db-wal").display().to_string());
    assert_eq!(
        p.wal_backup,
        path.with_extension("db-wal").with_extension("db-wal.repair-backup").display().to_string()
    );
}

#[test]
fn repairs_go_step_by_step() {
    assert_eq!(repair::run_repair("/d.db", true, false), Ok(()));
    assert_eq!(
        repair::run_repair("/d.db", false, true),
        Err("Database file not found: /d.db".to_string())
    );
    assert_eq!(
        repair::run_repair("/d.db", true, true),
        Err("Other processes are using the database.\nPlease stop ETerm and memex first, then retry.".to_string())
    );
    assert!(matches!(repair::after_open(None), RepairStep::Check));
    assert!(matches!(repair::after_open(Some("disk image is Malformed")), RepairStep::DropWal));
    assert!(
        matches!(repair::after_open(Some("locked")), RepairStep::GiveUp(w) if w == "Cannot open DB: locked")
    );
    assert!(matches!(repair::repair_malformed(None), RepairStep::Check));
    match repair::repair_malformed(Some("malformed")) {
        RepairStep::GiveUp(w) => assert_eq!(
            w,
            "DB still malformed after WAL cleanup: malformed\nThe database file itself is corrupted and needs manual recovery."
        ),
        _ => panic!("a damaged file is opened"),
    }
    assert!(matches!(repair::repair_with_connection("ok"), RepairStep::Checkpoint));
    assert!(matches!(repair::repair_with_connection("row missing"), RepairStep::Rebuild));
    let c = repair::copy_table("t", &vec!["a".to_string(), "b".to_string()]).unwrap();
    assert_eq!(c.select, "SELECT \"a\", \"b\" FROM \"t\"");
    assert_eq!(c.insert, "INSERT OR IGNORE INTO \"t\" (\"a\", \"b\") VALUES (?1, ?2)");
    assert!(repair::copy_table("t", &vec![]).is_none());
}

fn archived(uuid: &str) -> IndexableMessage {
    IndexableMessage {
        uuid: uuid.to_string(),
        role: "user".to_string(),
        content: ParsedContent { text: "t".to_string(), full: "f".to_string() },
        timestamp: 1,
        sequence: 2,
    }
}

#[test]
fn archives_are_taken_in() {
    assert!(archive::is_jsonl(UNIX, "/a/b.jsonl"));
    assert!(!archive::is_jsonl(UNIX, "/a/b.json"));
    assert!(!archive::is_jsonl(UNIX, "/a/jsonl"));
    let messages = vec![archived("old"), archived("new"), archived("old")];
    let raws = vec![None, Some("raw".to_string()), None];
    let steps = archive::process_jsonl("s", "tool", &messages, &raws, &vec!["old".to_string()]);
    assert!(matches!(&steps[0], ArchiveStep::Update(st) if st.sql == archive::UPDATE_ARCHIVED));
    assert!(matches!(&steps[1], ArchiveStep::Insert(st) if st.params.len() == 9));
    assert_eq!(archive::archive_counts(&steps, &vec![1, 1, 0]), (1, 1));
    let known = vec!["old".to_string(), "new".to_string()];
    let again = archive::process_jsonl("s", "tool", &messages, &raws, &known);
    assert_eq!(archive::archive_counts(&again, &vec![0, 0, 0]), (0, 0));
}

#[test]
fn builds_have_a_version() {
    assert_eq!(version::build_timestamp("1706400000"), 1706400000);
    assert_eq!(version::version_full("0.1.0", 1706400000), "0.1.0-1706400000");
}

#[test]
fn a_missing_program_is_told() {
    let m = client_ffi::agent_not_found("no net", "None", "Some(\"/a\")", "\"/b\"");
    let expected = "Agent binary not found and auto-download failed: no net\n\
        \n\
        Tried paths:\n\
        - Config override: None\n\
        - Environment variable VIMO_AGENT_PATH: Some(\"/a\")\n\
        - Default path: \"/b\"\n\
        - Cargo target directory\n\
        - GitHub Release auto-download\n\
        \n\
        Please set VIMO_AGENT_PATH environment variable or run `cargo build -p ai-cli-session-db --features agent --bin vimo-agent`";
    assert_eq!(m, expected);
    assert_eq!(ClientState::new().agent_client_connect(Some(&m)), FfiError::AgentNotFound);
    assert!(repair::has_other_db_users(true, false));
    assert!(!repair::has_other_db_users(true, true));
    assert!(!repair::has_other_db_users(false, false));
}

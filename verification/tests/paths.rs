//! Paths in both styles.
use ai_cli_session_db::agent::server::AgentConfig;
use ai_cli_session_db::agent::watcher::handle_file_change;
use ai_cli_session_db::client::connect::ClientConfig;
use ai_cli_session_db::collector::{extract_encoded_dir_name, extract_project_name, PathJob};
use ai_cli_session_db::config::DbConfig;
use ai_cli_session_db::db::wal_paths;
use ai_cli_session_db::json::Json;
use ai_cli_session_db::paths;
use ai_cli_session_db::paths::{style_where, PathStyle};
use ai_cli_session_db::reader::{compute_session_path, generate_tool_use_preview, SessionReader};
use ai_cli_session_db::repair::repair_paths;

const UNIX: PathStyle = PathStyle::Unix;
const WINDOWS: PathStyle = PathStyle::Windows;

#[test]
fn paths_are_taken_apart_as_std_does() {
    let samples = [
        "", "/", "//", ".", "..", "a", "a/", "a/b", "/a", "/a/", "/a/b.c", "a/b.tar.gz", "a/.hid",
        "a/./b", "a/b/.", "a/..", "./a", "/a//b//", "/.", "a/.b.c", "x.", "/a/b/../c.d",
    ];
    for s in samples {
        let p = std::path::Path::new(s);
        assert_eq!(paths::file_name(UNIX, s), p.file_name().map(|n| n.to_string_lossy().to_string()), "{s}");
        assert_eq!(paths::file_stem(UNIX, s), p.file_stem().map(|n| n.to_string_lossy().to_string()), "{s}");
        assert_eq!(paths::extension(UNIX, s), p.extension().map(|n| n.to_string_lossy().to_string()), "{s}");
        assert_eq!(paths::parent(UNIX, s), p.parent().map(|n| n.display().to_string()), "{s}");
        assert_eq!(paths::join(UNIX, s, "x/y"), p.join("x/y").display().to_string(), "{s}");
        assert_eq!(paths::join(UNIX, s, "/x"), p.join("/x").display().to_string(), "{s}");
        assert_eq!(
            paths::with_extension(UNIX, s, "new"),
            p.with_extension("new").display().to_string(),
            "{s}"
        );
    }
}

#[test]
fn file_names_on_windows() {
    let name = |s: &str| paths::file_name(WINDOWS, s);
    for s in [r"C:\a\b.c", "C:/a/b.c", "C:b.c", r"a\b.c\", r"\\server\share\b.c", r"\\?\C:\a\b.c", r"C:\a\b.c\.", "/b.c"] {
        assert_eq!(name(s).as_deref(), Some("b.c"), "{s}");
        assert_eq!(paths::file_stem(WINDOWS, s).as_deref(), Some("b"), "{s}");
        assert_eq!(paths::extension(WINDOWS, s).as_deref(), Some("c"), "{s}");
    }
    for s in ["", "C:", r"C:\", r"\", r"\\server\share", r"\\server\share\", r"\\.\COM42", r"\\?\C:\", r"a\..", "."] {
        assert_eq!(name(s), None, "{s}");
    }
    // Behind a verbatim prefix a slash is a character like any other.
    assert_eq!(name(r"\\?\C:\a/b.c").as_deref(), Some("a/b.c"));
    assert_eq!(name(r"\\?\UNC\server\share\x").as_deref(), Some("x"));
    assert_eq!(name(r"\\?\UNC\server\share"), None);
    assert_eq!(name(r"\\?\pictures\kittens").as_deref(), Some("kittens"));
    // Two separators and one name are no prefix.
    assert_eq!(name(r"\\server").as_deref(), Some("server"));
    // Elsewhere a backslash is a character like any other.
    assert_eq!(paths::file_name(UNIX, r"C:\a\b.c").as_deref(), Some(r"C:\a\b.c"));
}

#[test]
fn parents_on_windows() {
    let parent = |s: &str| paths::parent(WINDOWS, s);
    assert_eq!(parent(r"C:\a\b").as_deref(), Some(r"C:\a"));
    assert_eq!(parent(r"C:\a").as_deref(), Some(r"C:\"));
    assert_eq!(parent("C:a").as_deref(), Some("C:"));
    assert_eq!(parent(r"\\server\share\a").as_deref(), Some(r"\\server\share\"));
    assert_eq!(parent("a").as_deref(), Some(""));
    for s in ["", "C:", r"C:\", r"\\server\share", r"\\server\share\"] {
        assert_eq!(parent(s), None, "{s}");
    }
    assert_eq!(extract_encoded_dir_name(WINDOWS, r"C:\p\d\s.jsonl").as_deref(), Some("d"));
    assert_eq!(extract_encoded_dir_name(WINDOWS, r"C:\s.jsonl"), None);
}

#[test]
fn paths_are_joined_on_windows() {
    let joined = [
        (r"C:\a", "b", r"C:\a\b"),
        (r"C:\a\", "b", r"C:\a\b"),
        ("C:/a/", "b", "C:/a/b"),
        (r"C:\a", "b/c", r"C:\a\b/c"),
        ("C:", "b", "C:b"),
        ("", "b", "b"),
        (r"C:\a", "", r"C:\a\"),
        // A root goes behind the prefix, a prefix replaces all.
        (r"C:\a", r"\b", r"C:\b"),
        (r"C:\a", "/b", "C:/b"),
        (r"\\server\share\a", r"\b", r"\\server\share\b"),
        (r"C:\a", "D:b", "D:b"),
        (r"C:\a", r"D:\b", r"D:\b"),
        (r"C:\a", r"\\server\share", r"\\server\share"),
        // Behind a verbatim prefix nothing is left to resolve.
        (r"\\?\C:\a", "../b/./c", r"\\?\C:\b\c"),
        (r"\\?\C:\a", r"..\..\b", r"\\?\C:\b"),
        (r"\\?\C:\a", r"\b", r"\\?\C:\b"),
        (r"\\?\C:", "b", r"\\?\C:\b"),
    ];
    for (base, p, whole) in joined {
        assert_eq!(paths::join(WINDOWS, base, p), whole, "{base} {p}");
    }
}

#[test]
fn the_store_and_its_files_on_windows() {
    let config = DbConfig::in_home(WINDOWS, None, Some(r"C:\Users\u"));
    assert_eq!(config.url, r"C:\Users\u\.vimo\db\ai-cli-session.db");
    let files = wal_paths(WINDOWS, &config.url);
    assert_eq!(files.wal, r"C:\Users\u\.vimo\db\ai-cli-session.db-wal");
    assert_eq!(files.backup, r"C:\Users\u\.vimo\db\ai-cli-session.db-wal.backup");
    let files = repair_paths(WINDOWS, r"C:\d.x\store.db");
    assert_eq!(files.damaged, r"C:\d.x\store.db-pre-repair");
    let agent = AgentConfig::in_home(WINDOWS, Some(r"C:\Users\u"));
    assert_eq!(agent.pid_path(), r"C:\Users\u\.vimo\agent.pid");
    assert_eq!(agent.db_path(), config.url);
    let client = ClientConfig::in_style(WINDOWS, "c", "1", r"C:\v".to_string());
    assert_eq!(client.default_agent_binary_path(), r"C:\v\bin\vimo-agent");
    let sources = client.find_agent_source(Some(r"C:\w\crate"), Some(r"C:\apps\app.exe"));
    assert_eq!(sources[1], r"C:\w\target/release/vimo-agent");
    assert_eq!(sources[4], r"C:\apps\vimo-agent");
}

#[test]
fn sessions_on_windows() {
    assert_eq!(extract_project_name(WINDOWS, r"C:\work\project\"), "project");
    assert_eq!(extract_project_name(WINDOWS, r"C:\"), r"C:\");
    assert_eq!(compute_session_path(WINDOWS, r"C:\p", "d", "s"), r"C:\p\d\s.jsonl");
    let job = PathJob::open(WINDOWS, r"C:\p\d\s.jsonl").unwrap();
    assert_eq!((job.session_id.as_str(), job.encoded_dir_name.as_deref()), ("s", Some("d")));
    assert!(PathJob::open(WINDOWS, r"C:\").is_none());
    assert!(handle_file_change(WINDOWS, r"C:\p.q\s.jsonl", &vec!["jsonl".to_string()]));
    assert!(!handle_file_change(WINDOWS, r"C:\p.jsonl\s", &vec!["jsonl".to_string()]));
    let r = SessionReader::in_home(WINDOWS, r"C:\Users\u", "tool");
    assert_eq!(r.projects_path, r"C:\Users\u\.tool/projects");
    let input = Json::Object(vec![("file_path".to_string(), Json::Text(r"C:\a\b.rs".to_string()))]);
    assert_eq!(generate_tool_use_preview(WINDOWS, "Read", Some(&input)), "🔧 Read: b.rs");
    assert_eq!(generate_tool_use_preview(UNIX, "Read", Some(&input)), r"🔧 Read: C:\a\b.rs");
}

#[test]
fn the_style_is_that_of_the_machine() {
    assert_eq!(style_where(false), UNIX);
    assert_eq!(style_where(true), WINDOWS);
    let native = style_where(std::path::is_separator('\\'));
    assert_eq!(AgentConfig::default().style, native);
    assert_eq!(ClientConfig::new("c", "1").style, native);
    assert_eq!(ClientConfig::in_dir("c", "1", "d".to_string()).style, native);
    assert_eq!(SessionReader::new("p".to_string()).style, native);
    if let Some(home) = dirs::home_dir() {
        let home = home.to_string_lossy().into_owned();
        let url = DbConfig::in_home(native, None, Some(&home)).url;
        assert_eq!(DbConfig::from_env(None).url, url);
        assert_eq!(SessionReader::with_default_path("t").unwrap().style, native);
    }
}

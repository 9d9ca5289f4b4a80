[package]
name = "ai_cli_session_db"
version = "0.1.0"
edition = "2021"
publish = false

[dependencies]
aho-corasick = "=1.1.5"
anyhow = "=1.0.104"
chrono = "=0.4.45"
dirs = "=7.0.0"
file-id = "=0.2.3"
futures-util = "=0.3.34"
globset = "=0.4.21"
interprocess = { version = "=2.4.7", features = ["tokio"] }
libc = "=0.2.191"
native-tls = "=0.2.18"
notify = "=8.2.1"
notify-debouncer-mini = "=0.7.0"
parking_lot = "=0.12.5"
reqwest = { version = "=0.12.28", features = ["gzip", "json"] }
rusqlite = { version = "=0.41.1", features = ["bundled"] }
serde = { version = "=1.0.229", features = ["derive"] }
serde_json = "=1.0.154"
shellexpand = "=3.1.2"
sysinfo = "=0.40.1"
thiserror = "=2.0.21"
tokio = { version = "=1.54.1", features = ["full"] }
tokio-tungstenite = { version = "=0.30.0", features = ["native-tls"] }
tracing = "=0.1.44"
tracing-subscriber = { version = "=0.3.23", features = ["env-filter"] }
uuid = { version = "=1.29.0", features = ["v4"] }

[dev-dependencies]
tempfile = "=3.27.0"

//! Pushing what the local store holds to a server.
use vstd::prelude::*;

pub mod client;
pub mod db;
pub mod filter;
pub mod stream;
pub mod worker;

verus! {

/// How the store is pushed to a server.
#[derive(Debug, Clone)]
pub struct SyncConfig {
    pub enabled: bool,
    pub server: String,
    pub api_key: String,
    pub ca_cert: Option<String>,
    /// The time between two full rounds, in seconds.
    pub interval_seconds: u64,
    /// Globs of the projects that are pushed; all are where there is none.
    pub include_projects: Vec<String>,
    /// Globs of the projects that are not pushed.
    pub exclude_projects: Vec<String>,
    /// Whether the raw form of messages is pushed.
    pub sync_raw: bool,
    pub sync_vectors: bool,
    pub embedding_model: String,
    pub encryption: String,
    /// How many messages are pushed at a time.
    pub batch_size: usize,
    pub compress: bool,
}

impl Default for SyncConfig {
    fn default() -> (r: SyncConfig)
        ensures
            !r.enabled,
            r.server@.len() == 0,
            r.api_key@.len() == 0,
            r.ca_cert is None,
            r.interval_seconds == 300,
            r.include_projects@.len() == 0,
            r.exclude_projects@.len() == 0,
            !r.sync_raw,
            r.sync_vectors,
            r.embedding_model@ == "nomic-embed-text"@,
            r.encryption@ == "none"@,
            r.batch_size == 500,
            r.compress,
    {
        SyncConfig {
            enabled: false,
            server: String::new(),
            api_key: String::new(),
            ca_cert: None,
            interval_seconds: 300,
            include_projects: Vec::new(),
            exclude_projects: Vec::new(),
            sync_raw: false,
            sync_vectors: true,
            embedding_model: "nomic-embed-text".to_owned(),
            encryption: "none".to_owned(),
            batch_size: 500,
            compress: true,
        }
    }
}

/// What is pushed at a time.
#[derive(Debug, Clone)]
pub struct SyncBatch {
    pub projects: Vec<SyncProject>,
    pub sessions: Vec<SyncSession>,
    pub messages: Vec<SyncMessage>,
    pub session_relations: Vec<SyncSessionRelation>,
    pub continuation_chains: Vec<SyncContinuationChain>,
    pub chain_nodes: Vec<SyncChainNode>,
    pub talks: Vec<SyncTalk>,
}

/// A push as the server gets it.
#[derive(Debug, Clone)]
pub struct SyncPushRequest {
    pub device_id: String,
    pub encryption: String,
    pub batch: SyncBatch,
    /// Session ids, each once, with how far they are pushed.
    pub cursors: Vec<(String, SyncCursor)>,
}

/// The server's answer to a push.
#[derive(Debug, Clone)]
pub struct SyncPushResponse {
    pub accepted: u64,
    pub skipped: u64,
    pub server_cursors: Vec<(String, SyncCursor)>,
}

/// How far a session is pushed.
#[derive(Debug, Clone, Copy, PartialEq, Eq, Structural)]
pub struct SyncCursor {
    pub last_sequence: i64,
    pub last_timestamp: i64,
}

/// A project as it is pushed.
#[derive(Debug, Clone)]
pub struct SyncProject {
    pub path: String,
    pub name: String,
    pub source: String,
    pub repo_url: Option<String>,
}

/// A session as it is pushed.
#[derive(Debug, Clone)]
pub struct SyncSession {
    pub session_id: String,
    pub project_path: String,
    pub cwd: Option<String>,
    pub model: Option<String>,
    pub channel: Option<String>,
    pub message_count: i64,
    pub last_message_at: Option<i64>,
    pub session_type: Option<String>,
    pub source: Option<String>,
    pub meta: Option<String>,
    pub created_at: i64,
    pub updated_at: i64,
}

/// A message as it is pushed.
#[derive(Debug, Clone)]
pub struct SyncMessage {
    pub uuid: String,
    pub session_id: String,
    pub msg_type: String,
    pub content_text: String,
    pub content_full: String,
    pub timestamp: i64,
    pub sequence: i64,
    pub source: Option<String>,
    pub channel: Option<String>,
    pub model: Option<String>,
    pub tool_call_id: Option<String>,
    pub tool_name: Option<String>,
    pub tool_args: Option<String>,
    pub raw: Option<String>,
    pub approval_status: Option<String>,
    pub approval_resolved_at: Option<i64>,
}

/// A relation between sessions as it is pushed.
#[derive(Debug, Clone)]
pub struct SyncSessionRelation {
    pub parent_session_id: String,
    pub child_session_id: String,
    pub relation_type: String,
    pub source: String,
}

/// A chain of sessions that continue each other, as it is pushed.
#[derive(Debug, Clone)]
pub struct SyncContinuationChain {
    pub chain_id: String,
    pub root_session_id: String,
}

/// The place of a session in a chain, as it is pushed.
#[derive(Debug, Clone)]
pub struct SyncChainNode {
    pub session_id: String,
    pub chain_id: String,
    pub prev_session_id: Option<String>,
    pub depth: i64,
}

/// The summary of a talk as it is pushed.
#[derive(Debug, Clone)]
pub struct SyncTalk {
    pub session_id: String,
    pub talk_id: String,
    pub summary_l2: String,
    pub summary_l3: Option<String>,
}

} // verus!

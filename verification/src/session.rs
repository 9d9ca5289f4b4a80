//! What the adapters of the command-line tools hand over: sessions, their
//! messages and how far a session file has been read.
use vstd::prelude::*;
use crate::text::copy_opt;
use crate::types::MessageType;

verus! {

/// The tools whose sessions are read.
#[derive(Debug, Clone, Copy, PartialEq, Eq, Structural)]
pub enum SourceKind {
    Claude,
    Codex,
    OpenCode,
}

/// The tool that a session comes from, as its adapter names it.
#[derive(Debug, Clone)]
pub struct Source {
    pub kind: SourceKind,
    /// The word that stands for the tool in the store.
    pub word: String,
    /// The name of the tool in reports.
    pub label: String,
}

impl Source {
    /// The word that stands for the tool in the store.
    pub fn to_string(&self) -> (r: String)
        ensures
            r == self.word,
    {
        self.word.clone()
    }

    /// The same tool once more.
    pub fn copy(&self) -> (r: Source)
        ensures
            r == *self,
    {
        Source { kind: self.kind, word: self.word.clone(), label: self.label.clone() }
    }
}

/// The content of a message: the words alone, and all of it.
#[derive(Debug, Clone)]
pub struct ParsedContent {
    pub text: String,
    pub full: String,
}

/// A message as an adapter reads it.
#[derive(Debug, Clone)]
pub struct ParsedMessage {
    pub uuid: String,
    pub session_id: String,
    pub message_type: MessageType,
    pub content: ParsedContent,
    pub timestamp: Option<String>,
    pub source: Source,
    pub channel: Option<String>,
    pub model: Option<String>,
    pub tool_call_id: Option<String>,
    pub tool_name: Option<String>,
    pub tool_args: Option<String>,
    pub raw: Option<String>,
    pub cwd: Option<String>,
    pub stop_reason: Option<String>,
}

impl ParsedMessage {
    /// The same message once more.
    pub fn copy(&self) -> (r: ParsedMessage)
        ensures
            r == *self,
    {
        ParsedMessage {
            uuid: self.uuid.clone(),
            session_id: self.session_id.clone(),
            message_type: self.message_type,
            content: ParsedContent {
                text: self.content.text.clone(),
                full: self.content.full.clone(),
            },
            timestamp: copy_opt(&self.timestamp),
            source: self.source.copy(),
            channel: copy_opt(&self.channel),
            model: copy_opt(&self.model),
            tool_call_id: copy_opt(&self.tool_call_id),
            tool_name: copy_opt(&self.tool_name),
            tool_args: copy_opt(&self.tool_args),
            raw: copy_opt(&self.raw),
            cwd: copy_opt(&self.cwd),
            stop_reason: copy_opt(&self.stop_reason),
        }
    }
}

/// A session as an adapter reads it.
#[derive(Debug, Clone)]
pub struct ParseResult {
    pub messages: Vec<ParsedMessage>,
    pub cwd: Option<String>,
    pub model: Option<String>,
    pub created_at: Option<String>,
    pub updated_at: Option<String>,
}

/// What an adapter lists of a session.
#[derive(Debug, Clone)]
pub struct SessionMeta {
    pub id: String,
    pub source: Source,
    pub channel: Option<String>,
    pub project_path: String,
    pub project_name: Option<String>,
    pub encoded_dir_name: Option<String>,
    pub session_path: Option<String>,
    pub file_mtime: Option<u64>,
    pub file_size: Option<u64>,
    pub message_count: Option<usize>,
    pub cwd: Option<String>,
    pub model: Option<String>,
    pub meta: Option<String>,
    pub created_at: Option<String>,
    pub updated_at: Option<String>,
    pub last_message_type: Option<String>,
    pub last_message_preview: Option<String>,
    pub last_message_at: Option<i64>,
    pub parent_session_id: Option<String>,
    pub session_type: Option<String>,
    pub continuation_from: Option<String>,
}

impl SessionMeta {
    /// Whether this says no more of a session file than where it is and what its name tells.
    pub open spec fn is_bare(
        self,
        id: Seq<char>,
        source: Source,
        path: Seq<char>,
        encoded: Option<String>,
    ) -> bool {
        &&& self.id@ == id
        &&& self.source == source
        &&& self.channel is Some && self.channel->0@ == "code"@
        &&& self.project_path@ == Seq::<char>::empty()
        &&& self.project_name is None
        &&& self.encoded_dir_name == encoded
        &&& self.session_path is Some && self.session_path->0@ == path
        &&& self.file_mtime is None
        &&& self.file_size is None
        &&& self.message_count is None
        &&& self.cwd is None
        &&& self.model is None
        &&& self.meta is None
        &&& self.created_at is None
        &&& self.updated_at is None
        &&& self.last_message_type is None
        &&& self.last_message_preview is None
        &&& self.last_message_at is None
        &&& self.parent_session_id is None
        &&& self.session_type is None
        &&& self.continuation_from is None
    }

    /// What is known of a session file before it is read.
    pub fn bare(id: &str, source: Source, path: &str, encoded: Option<String>) -> (r: SessionMeta)
        ensures
            r.is_bare(id@, source, path@, encoded),
    {
        SessionMeta {
            id: id.to_owned(),
            source,
            channel: Some("code".to_owned()),
            project_path: String::new(),
            project_name: None,
            encoded_dir_name: encoded,
            session_path: Some(path.to_owned()),
            file_mtime: None,
            file_size: None,
            message_count: None,
            cwd: None,
            model: None,
            meta: None,
            created_at: None,
            updated_at: None,
            last_message_type: None,
            last_message_preview: None,
            last_message_at: None,
            parent_session_id: None,
            session_type: None,
            continuation_from: None,
        }
    }

    /// The same session once more.
    pub fn copy(&self) -> (r: SessionMeta)
        ensures
            r == *self,
    {
        SessionMeta {
            id: self.id.clone(),
            source: self.source.copy(),
            channel: copy_opt(&self.channel),
            project_path: self.project_path.clone(),
            project_name: copy_opt(&self.project_name),
            encoded_dir_name: copy_opt(&self.encoded_dir_name),
            session_path: copy_opt(&self.session_path),
            file_mtime: self.file_mtime,
            file_size: self.file_size,
            message_count: self.message_count,
            cwd: copy_opt(&self.cwd),
            model: copy_opt(&self.model),
            meta: copy_opt(&self.meta),
            created_at: copy_opt(&self.created_at),
            updated_at: copy_opt(&self.updated_at),
            last_message_type: copy_opt(&self.last_message_type),
            last_message_preview: copy_opt(&self.last_message_preview),
            last_message_at: self.last_message_at,
            parent_session_id: copy_opt(&self.parent_session_id),
            session_type: copy_opt(&self.session_type),
            continuation_from: copy_opt(&self.continuation_from),
        }
    }
}

/// What tells one version of a file from another.
#[derive(Debug, Clone, Copy, PartialEq, Eq, Structural)]
pub struct FileIdentity {
    pub inode: u64,
    pub mtime: u64,
    pub size: u64,
}

/// How far a session file has been read.
#[derive(Debug, Clone, Copy, PartialEq, Eq, Structural)]
pub struct ReaderState {
    pub offset: u64,
    pub file_id: Option<FileIdentity>,
}

/// A message as it is indexed.
#[derive(Debug, Clone)]
pub struct IndexableMessage {
    pub uuid: String,
    pub role: String,
    pub content: ParsedContent,
    pub timestamp: i64,
    pub sequence: i64,
}

/// A session as it is indexed.
#[derive(Debug, Clone)]
pub struct IndexableSession {
    pub session_id: String,
    pub project_path: String,
    pub project_name: String,
    pub messages: Vec<IndexableMessage>,
}

} // verus!

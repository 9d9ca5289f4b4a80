//! The records of the session store.
use vstd::prelude::*;
use crate::text::{all_ascii, ascii_lower, lowercase, same_text, to_lowercase};

verus! {

/// How far the approval of a tool call has come.
#[derive(Debug, Clone, Copy, PartialEq, Eq, Structural)]
pub enum ApprovalStatus {
    Pending,
    Approved,
    Rejected,
    Timeout,
}

impl ApprovalStatus {
    /// The word that stands for the status in the store.
    pub open spec fn word(self) -> Seq<char> {
        match self {
            ApprovalStatus::Pending => "pending"@,
            ApprovalStatus::Approved => "approved"@,
            ApprovalStatus::Rejected => "rejected"@,
            ApprovalStatus::Timeout => "timeout"@,
        }
    }

    /// The status whose word `w` is.
    pub open spec fn of_word(w: Seq<char>) -> Option<ApprovalStatus> {
        if w == "pending"@ {
            Some(ApprovalStatus::Pending)
        } else if w == "approved"@ {
            Some(ApprovalStatus::Approved)
        } else if w == "rejected"@ {
            Some(ApprovalStatus::Rejected)
        } else if w == "timeout"@ {
            Some(ApprovalStatus::Timeout)
        } else {
            None
        }
    }

    /// Reads a status from its word, in any case.
    pub fn from_str(s: &str) -> (r: Result<ApprovalStatus, String>)
        ensures
            match r {
                Ok(status) => Self::of_word(lowercase(s@)) == Some(status),
                Err(e) => Self::of_word(lowercase(s@)) is None && e@ == "Invalid approval status: "@
                    + s@,
            },
            all_ascii(s@) ==> r.ok() == Self::of_word(s@.map_values(|c: char| ascii_lower(c))),
    {
        let w = to_lowercase(s);
        if same_text(w.as_str(), "pending") {
            Ok(ApprovalStatus::Pending)
        } else if same_text(w.as_str(), "approved") {
            Ok(ApprovalStatus::Approved)
        } else if same_text(w.as_str(), "rejected") {
            Ok(ApprovalStatus::Rejected)
        } else if same_text(w.as_str(), "timeout") {
            Ok(ApprovalStatus::Timeout)
        } else {
            let mut e = "Invalid approval status: ".to_owned();
            e.push_str(s);
            Err(e)
        }
    }

    /// The word that stands for the status in the store.
    pub fn to_string(&self) -> (r: String)
        ensures
            r@ == self.word(),
    {
        match self {
            ApprovalStatus::Pending => "pending".to_owned(),
            ApprovalStatus::Approved => "approved".to_owned(),
            ApprovalStatus::Rejected => "rejected".to_owned(),
            ApprovalStatus::Timeout => "timeout".to_owned(),
        }
    }
}

/// Who a message comes from.
#[derive(Debug, Clone, Copy, PartialEq, Eq, Structural)]
pub enum MessageType {
    User,
    Assistant,
    Tool,
    System,
}

impl MessageType {
    /// The word that stands for the type in the store.
    pub open spec fn word(self) -> Seq<char> {
        match self {
            MessageType::User => "user"@,
            MessageType::Assistant => "assistant"@,
            MessageType::Tool => "tool"@,
            MessageType::System => "system"@,
        }
    }

    /// The type whose word `w` is; any other word is taken for a user's message.
    pub open spec fn of_word(w: Seq<char>) -> MessageType {
        if w == "assistant"@ {
            MessageType::Assistant
        } else if w == "tool"@ {
            MessageType::Tool
        } else if w == "system"@ {
            MessageType::System
        } else {
            MessageType::User
        }
    }

    /// Reads a type from its word in the store.
    pub fn from_word(s: &str) -> (r: MessageType)
        ensures
            r == Self::of_word(s@),
    {
        if same_text(s, "assistant") {
            MessageType::Assistant
        } else if same_text(s, "tool") {
            MessageType::Tool
        } else if same_text(s, "system") {
            MessageType::System
        } else {
            MessageType::User
        }
    }

    /// The word that stands for the type in the store.
    pub fn to_string(&self) -> (r: String)
        ensures
            r@ == self.word(),
    {
        match self {
            MessageType::User => "user".to_owned(),
            MessageType::Assistant => "assistant".to_owned(),
            MessageType::Tool => "tool".to_owned(),
            MessageType::System => "system".to_owned(),
        }
    }
}

/// A stored status is read back as it was written.
pub proof fn approval_status_round_trip(status: ApprovalStatus)
    ensures
        ApprovalStatus::of_word(status.word()) == Some(status),
        all_ascii(status.word()),
        status.word().map_values(|c: char| ascii_lower(c)) == status.word(),
{
    reveal_strlit("pending");
    reveal_strlit("approved");
    reveal_strlit("rejected");
    reveal_strlit("timeout");
    assert("pending"@.len() == 7 && "approved"@.len() == 8 && "rejected"@.len() == 8
        && "timeout"@.len() == 7);
    assert("pending"@[0] == 'p' && "timeout"@[0] == 't' && "approved"@[0] == 'a' && "rejected"@[0]
        == 'r');
    assert(status.word().map_values(|c: char| ascii_lower(c)) =~= status.word());
}

/// A stored message type is read back as it was written.
pub proof fn message_type_round_trip(t: MessageType)
    ensures
        MessageType::of_word(t.word()) == t,
{
    reveal_strlit("user");
    reveal_strlit("assistant");
    reveal_strlit("tool");
    reveal_strlit("system");
    assert("user"@.len() == 4 && "assistant"@.len() == 9 && "tool"@.len() == 4 && "system"@.len()
        == 6);
    assert("user"@[0] == 'u' && "tool"@[0] == 't');
}

/// A project.
#[derive(Debug, Clone)]
pub struct Project {
    pub id: i64,
    pub name: String,
    pub path: String,
    pub source: String,
    pub encoded_dir_name: Option<String>,
    pub created_at: i64,
    pub updated_at: i64,
}

/// A session.
#[derive(Debug, Clone)]
pub struct Session {
    pub id: i64,
    pub session_id: String,
    pub project_id: i64,
    pub message_count: i64,
    pub last_message_at: Option<i64>,
    pub cwd: Option<String>,
    pub model: Option<String>,
    pub channel: Option<String>,
    pub file_mtime: Option<i64>,
    pub file_size: Option<i64>,
    pub meta: Option<String>,
    pub session_type: Option<String>,
    pub source: Option<String>,
    pub created_at: i64,
    pub updated_at: i64,
}

/// A session with the name of its project.
#[derive(Debug, Clone)]
pub struct SessionDetail {
    pub id: i64,
    pub session_id: String,
    pub project_id: i64,
    pub project_name: String,
    pub message_count: i64,
    pub first_message_at: Option<i64>,
    pub last_message_at: Option<i64>,
}

/// A message.
#[derive(Debug, Clone)]
pub struct Message {
    pub id: i64,
    pub session_id: String,
    pub uuid: String,
    pub message_type: MessageType,
    /// The words of the conversation alone.
    pub content_text: String,
    /// The whole content, tool calls included.
    pub content_full: String,
    pub timestamp: i64,
    pub sequence: i64,
    pub source: Option<String>,
    pub channel: Option<String>,
    pub model: Option<String>,
    pub tool_call_id: Option<String>,
    pub tool_name: Option<String>,
    pub tool_args: Option<String>,
    pub raw: Option<String>,
    pub vector_indexed: bool,
    pub approval_status: Option<ApprovalStatus>,
    pub approval_resolved_at: Option<i64>,
}

/// How search results are ordered.
#[derive(Debug, Clone, Copy, PartialEq, Eq, Structural)]
pub enum SearchOrderBy {
    /// By relevance.
    Score,
    /// Newest first.
    TimeDesc,
    /// Oldest first.
    TimeAsc,
}

impl Default for SearchOrderBy {
    fn default() -> (r: SearchOrderBy)
        ensures
            r == SearchOrderBy::Score,
    {
        SearchOrderBy::Score
    }
}

/// A search result, without its score.
#[derive(Debug, Clone)]
pub struct SearchResult {
    pub message_id: i64,
    pub session_id: String,
    pub project_id: i64,
    pub project_name: String,
    pub message_type: String,
    pub content_full: String,
    pub snippet: String,
    pub timestamp: Option<i64>,
}

/// How much the store holds.
#[derive(Debug, Clone, Copy, PartialEq, Eq, Structural)]
pub struct Stats {
    pub project_count: i64,
    pub session_count: i64,
    pub message_count: i64,
}

/// A project with its totals.
#[derive(Debug, Clone)]
pub struct ProjectWithStats {
    pub id: i64,
    pub name: String,
    pub path: String,
    pub session_count: i64,
    pub message_count: i64,
    pub last_active: Option<i64>,
}

/// A session with what its project, its last message and its relations add to it.
#[derive(Debug, Clone)]
pub struct SessionWithProject {
    pub id: i64,
    pub session_id: String,
    pub project_id: i64,
    pub project_name: String,
    pub project_path: String,
    pub message_count: i64,
    pub last_message_at: Option<i64>,
    pub cwd: Option<String>,
    pub model: Option<String>,
    pub channel: Option<String>,
    pub file_mtime: Option<i64>,
    pub file_size: Option<i64>,
    pub encoded_dir_name: Option<String>,
    pub meta: Option<String>,
    pub session_type: Option<String>,
    pub source: Option<String>,
    pub created_at: i64,
    pub updated_at: i64,
    pub last_message_type: Option<String>,
    pub last_message_preview: Option<String>,
    pub children_count: Option<i64>,
    pub parent_session_id: Option<String>,
    pub child_session_ids: Option<Vec<String>>,
}

/// The summary of one talk of a session.
#[derive(Debug, Clone)]
pub struct TalkSummary {
    pub id: i64,
    pub session_id: String,
    pub talk_id: String,
    pub summary_l2: String,
    pub summary_l3: Option<String>,
    pub created_at: i64,
    pub updated_at: i64,
}

/// That one session was started from another.
#[derive(Debug, Clone)]
pub struct SessionRelation {
    pub parent_session_id: String,
    pub child_session_id: String,
    pub relation_type: String,
    pub source: String,
    pub created_at: i64,
}

} // verus!

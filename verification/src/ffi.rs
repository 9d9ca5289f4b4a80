//! What crosses the C interface: codes for the variants of enumerations, numbers
//! in place of missing values, and strings that C can hold.
use vstd::prelude::*;
use crate::collector::CollectResult;
use crate::coordination::{Role, WriterHealth, WriterType};
use crate::db::MessageInput;
use crate::error::Error;
use crate::reader::{in_order, Order, ProjectInfo};
use crate::session::{IndexableMessage, IndexableSession, ParsedMessage, SessionMeta};
use crate::text::{chars_of, join, joined, opt_view, views};
use crate::types::{
    ApprovalStatus,
    Message,
    MessageType,
    Project,
    SearchOrderBy,
    SearchResult,
    Session,
};

verus! {

/// How a call through the C interface ended.
#[derive(Debug, Clone, Copy, PartialEq, Eq, Structural)]
pub enum FfiError {
    Success,
    NullPointer,
    InvalidUtf8,
    DatabaseError,
    CoordinationError,
    PermissionDenied,
    ConnectionFailed,
    NotConnected,
    RequestFailed,
    AgentNotFound,
    RuntimeError,
    Unknown,
}

impl FfiError {
    /// The number that stands for it in C.
    pub open spec fn number(self) -> i32 {
        match self {
            FfiError::Success => 0,
            FfiError::NullPointer => 1,
            FfiError::InvalidUtf8 => 2,
            FfiError::DatabaseError => 3,
            FfiError::CoordinationError => 4,
            FfiError::PermissionDenied => 5,
            FfiError::ConnectionFailed => 6,
            FfiError::NotConnected => 7,
            FfiError::RequestFailed => 8,
            FfiError::AgentNotFound => 9,
            FfiError::RuntimeError => 10,
            FfiError::Unknown => 99,
        }
    }

    /// The number that stands for it in C.
    pub fn code(&self) -> (r: i32)
        ensures
            r == self.number(),
    {
        match self {
            FfiError::Success => 0,
            FfiError::NullPointer => 1,
            FfiError::InvalidUtf8 => 2,
            FfiError::DatabaseError => 3,
            FfiError::CoordinationError => 4,
            FfiError::PermissionDenied => 5,
            FfiError::ConnectionFailed => 6,
            FfiError::NotConnected => 7,
            FfiError::RequestFailed => 8,
            FfiError::AgentNotFound => 9,
            FfiError::RuntimeError => 10,
            FfiError::Unknown => 99,
        }
    }
}

/// No two ways in which a call can end share a number.
pub proof fn error_numbers_differ(a: FfiError, b: FfiError)
    requires
        a.number() == b.number(),
    ensures
        a == b,
{
}

/// How an error of the store is told through the C interface.
pub fn map_error(e: &Error) -> (r: FfiError)
    ensures
        r == match e {
            Error::PermissionDenied => FfiError::PermissionDenied,
            Error::Coordination(_) => FfiError::CoordinationError,
            _ => FfiError::DatabaseError,
        },
{
    match e {
        Error::PermissionDenied => FfiError::PermissionDenied,
        Error::Coordination(_) => FfiError::CoordinationError,
        _ => FfiError::DatabaseError,
    }
}

/// The order of search results as C names it.
#[derive(Debug, Clone, Copy, PartialEq, Eq, Structural)]
pub enum SearchOrderByC {
    Score,
    TimeDesc,
    TimeAsc,
}

impl From<SearchOrderByC> for SearchOrderBy {
    fn from(order: SearchOrderByC) -> (r: SearchOrderBy) {
        match order {
            SearchOrderByC::Score => SearchOrderBy::Score,
            SearchOrderByC::TimeDesc => SearchOrderBy::TimeDesc,
            SearchOrderByC::TimeAsc => SearchOrderBy::TimeAsc,
        }
    }
}

impl vstd::std_specs::convert::FromSpecImpl<SearchOrderByC> for SearchOrderBy {
    open spec fn obeys_from_spec() -> bool {
        true
    }

    open spec fn from_spec(order: SearchOrderByC) -> SearchOrderBy {
        match order {
            SearchOrderByC::Score => SearchOrderBy::Score,
            SearchOrderByC::TimeDesc => SearchOrderBy::TimeDesc,
            SearchOrderByC::TimeAsc => SearchOrderBy::TimeAsc,
        }
    }
}

/// The status of an approval as C names it.
#[derive(Debug, Clone, Copy, PartialEq, Eq, Structural)]
pub enum ApprovalStatusC {
    Pending,
    Approved,
    Rejected,
    Timeout,
}

impl From<ApprovalStatusC> for ApprovalStatus {
    fn from(status: ApprovalStatusC) -> (r: ApprovalStatus) {
        match status {
            ApprovalStatusC::Pending => ApprovalStatus::Pending,
            ApprovalStatusC::Approved => ApprovalStatus::Approved,
            ApprovalStatusC::Rejected => ApprovalStatus::Rejected,
            ApprovalStatusC::Timeout => ApprovalStatus::Timeout,
        }
    }
}

impl vstd::std_specs::convert::FromSpecImpl<ApprovalStatusC> for ApprovalStatus {
    open spec fn obeys_from_spec() -> bool {
        true
    }

    open spec fn from_spec(status: ApprovalStatusC) -> ApprovalStatus {
        match status {
            ApprovalStatusC::Pending => ApprovalStatus::Pending,
            ApprovalStatusC::Approved => ApprovalStatus::Approved,
            ApprovalStatusC::Rejected => ApprovalStatus::Rejected,
            ApprovalStatusC::Timeout => ApprovalStatus::Timeout,
        }
    }
}

/// The kind of process that a number stands for.
pub fn writer_type_of(code: i32) -> (r: Result<WriterType, FfiError>)
    ensures
        r == match code {
            0 => Ok::<WriterType, FfiError>(WriterType::MemexDaemon),
            1 => Ok(WriterType::VlaudeDaemon),
            2 => Ok(WriterType::MemexKit),
            3 => Ok(WriterType::VlaudeKit),
            _ => Err(FfiError::Unknown),
        },
{
    match code {
        0 => Ok(WriterType::MemexDaemon),
        1 => Ok(WriterType::VlaudeDaemon),
        2 => Ok(WriterType::MemexKit),
        3 => Ok(WriterType::VlaudeKit),
        _ => Err(FfiError::Unknown),
    }
}

/// The number of a role.
pub fn role_code(role: Role) -> (r: i32)
    ensures
        r == match role {
            Role::Writer => 0i32,
            Role::Reader => 1,
        },
{
    match role {
        Role::Writer => 0,
        Role::Reader => 1,
    }
}

/// The number of a writer's health.
pub fn health_code(health: WriterHealth) -> (r: i32)
    ensures
        r == match health {
            WriterHealth::Alive => 0i32,
            WriterHealth::Timeout => 1,
            WriterHealth::Released => 2,
        },
{
    match health {
        WriterHealth::Alive => 0,
        WriterHealth::Timeout => 1,
        WriterHealth::Released => 2,
    }
}

/// The number of a message type.
pub open spec fn message_type_number(t: MessageType) -> i32 {
    match t {
        MessageType::User => 0,
        MessageType::Assistant => 1,
        MessageType::Tool => 2,
        MessageType::System => 3,
    }
}

/// The number of a message type.
pub fn message_type_code(t: MessageType) -> (r: i32)
    ensures
        r == message_type_number(t),
{
    match t {
        MessageType::User => 0,
        MessageType::Assistant => 1,
        MessageType::Tool => 2,
        MessageType::System => 3,
    }
}

/// The value that a number stands for where a negative one means that there is none.
pub fn optional(n: i64) -> (r: Option<i64>)
    ensures
        r == if n >= 0 {
            Some(n)
        } else {
            None
        },
{
    if n >= 0 {
        Some(n)
    } else {
        None
    }
}

/// The bound that a number stands for where zero means that there is none.
pub fn optional_limit(limit: u32) -> (r: Option<usize>)
    ensures
        r == if limit > 0 {
            Some(limit as usize)
        } else {
            None
        },
{
    if limit > 0 {
        Some(limit as usize)
    } else {
        None
    }
}

/// The number that stands for a missing value.
pub open spec fn or_minus_one(o: Option<i64>) -> i64 {
    match o {
        Some(n) => n,
        None => -1 as i64,
    }
}

/// Whether a text holds the character that ends a string in C.
pub open spec fn has_nul(s: Seq<char>) -> bool {
    s.contains('\0')
}

/// Whether `s` holds the character that ends a string in C.
pub fn holds_nul(s: &str) -> (r: bool)
    ensures
        r == has_nul(s@),
{
    let v = chars_of(s);
    let mut i: usize = 0;
    while i < v.len()
        invariant
            i <= v@.len(),
            v@ == s@,
            forall|k: int| 0 <= k < i ==> v@[k] != '\0',
        decreases v@.len() - i,
    {
        if v[i] == '\0' {
            assert(s@[i as int] == '\0');
            return true;
        }
        i += 1;
    }
    false
}

/// An optional string as C gets it: one that C cannot hold is left out.
pub open spec fn c_option(o: Option<String>) -> Option<String> {
    match o {
        Some(s) => if has_nul(s@) {
            None
        } else {
            Some(s)
        },
        None => None,
    }
}

fn to_c_option(o: Option<String>) -> (r: Option<String>)
    ensures
        r == c_option(o),
{
    match o {
        Some(s) => if holds_nul(s.as_str()) {
            None
        } else {
            Some(s)
        },
        None => None,
    }
}

/// The search query as one phrase.
pub open spec fn quoted_phrase(s: Seq<char>) -> Seq<char> {
    seq!['"'] + doubled_quotes(s) + seq!['"']
}

/// A text with each quotation mark doubled.
pub open spec fn doubled_quotes(s: Seq<char>) -> Seq<char>
    decreases s.len(),
{
    if s.len() == 0 {
        seq![]
    } else if s.last() == '"' {
        doubled_quotes(s.drop_last()).push('"').push('"')
    } else {
        doubled_quotes(s.drop_last()).push(s.last())
    }
}

/// Appends `s` with each quotation mark doubled.
pub(crate) fn push_doubled_quotes(r: &mut String, s: &str)
    ensures
        final(r)@ == old(r)@ + doubled_quotes(s@),
{
    let v = chars_of(s);
    let mut i: usize = 0;
    assert(v@.take(0) =~= Seq::<char>::empty());
    assert(r@ =~= old(r)@ + doubled_quotes(v@.take(0)));
    while i < v.len()
        invariant
            i <= v@.len(),
            r@ == old(r)@ + doubled_quotes(v@.take(i as int)),
        decreases v@.len() - i,
    {
        assert(v@.take(i + 1).drop_last() =~= v@.take(i as int));
        let c = v[i];
        r.push(c);
        if c == '"' {
            r.push(c);
        }
        i += 1;
        assert(r@ =~= old(r)@ + doubled_quotes(v@.take(i as int)));
    }
    assert(v@.take(v@.len() as int) =~= s@);
}

/// The search query as one phrase, so that nothing in it is taken for an operator.
pub fn escape_fts5_query(query: &str) -> (r: String)
    ensures
        r@ == quoted_phrase(query@),
{
    let mut r = String::new();
    r.push('"');
    push_doubled_quotes(&mut r, query);
    r.push('"');
    assert(r@ =~= quoted_phrase(query@));
    r
}

/// A message as C hands it over. A string that is not UTF-8 is none.
#[derive(Debug, Clone)]
pub struct MessageIn {
    pub uuid: Option<String>,
    pub role: i32,
    pub content: Option<String>,
    pub timestamp: i64,
    pub sequence: i64,
}

/// Whether `r` is the message `m` as it is written: one content stands for both forms.
pub open spec fn is_message_from_c(r: MessageInput, m: MessageIn) -> bool {
    &&& 0 <= m.role <= 2
    &&& message_type_number(r.message_type) == m.role
    &&& Some(r.uuid) == m.uuid
    &&& Some(r.content_text) == m.content
    &&& Some(r.content_full) == m.content
    &&& r.timestamp == m.timestamp
    &&& r.sequence == m.sequence
    &&& r.source is None
    &&& r.channel is None
    &&& r.model is None
    &&& r.tool_call_id is None
    &&& r.tool_name is None
    &&& r.tool_args is None
    &&& r.raw is None
    &&& r.approval_status is None
    &&& r.approval_resolved_at is None
}

/// What is wrong with a message that C hands over: a string that is not UTF-8, or else a role that
/// is no user's, assistant's or tool's.
pub open spec fn fault_of_message(m: MessageIn) -> Option<FfiError> {
    if m.uuid is None || m.content is None {
        Some(FfiError::InvalidUtf8)
    } else if !(0 <= m.role <= 2) {
        Some(FfiError::Unknown)
    } else {
        None
    }
}

/// What is wrong with the first message of those that C hands over with which anything is.
pub open spec fn first_fault(messages: Seq<MessageIn>) -> Option<FfiError>
    decreases messages.len(),
{
    if messages.len() == 0 {
        None
    } else if fault_of_message(messages[0]) is Some {
        fault_of_message(messages[0])
    } else {
        first_fault(messages.drop_first())
    }
}

/// The messages that C hands over, as they are written. The first one with which anything is wrong
/// fails the whole call.
pub fn messages_from_c(messages: Vec<MessageIn>) -> (r: Result<Vec<MessageInput>, FfiError>)
    ensures
        match r {
            Ok(v) => {
                &&& first_fault(messages@) is None
                &&& v@.len() == messages@.len()
                &&& forall|i: int|
                    0 <= i < v@.len() ==> is_message_from_c(#[trigger] v@[i], messages@[i])
            },
            Err(e) => first_fault(messages@) == Some(e),
        },
{
    let ghost all = messages@;
    let mut v: Vec<MessageInput> = Vec::new();
    assert(all.skip(0) =~= all);
    for m in it: messages
        invariant
            it.seq() == all,
            all == messages@,
            v@.len() == it.index(),
            first_fault(all) == first_fault(all.skip(it.index())),
            forall|i: int| 0 <= i < v@.len() ==> is_message_from_c(#[trigger] v@[i], all[i]),
    {
        assert(all.skip(it.index()).drop_first() =~= all.skip(it.index() + 1));
        assert(all.skip(it.index())[0] == m);
        let (uuid, content) = match (m.uuid, m.content) {
            (Some(uuid), Some(content)) => (uuid, content),
            _ => {
                return Err(FfiError::InvalidUtf8);
            },
        };
        let message_type = match m.role {
            0 => MessageType::User,
            1 => MessageType::Assistant,
            2 => MessageType::Tool,
            _ => {
                return Err(FfiError::Unknown);
            },
        };
        v.push(
            MessageInput {
                uuid,
                message_type,
                content_text: content.clone(),
                content_full: content,
                timestamp: m.timestamp,
                sequence: m.sequence,
                source: None,
                channel: None,
                model: None,
                tool_call_id: None,
                tool_name: None,
                tool_args: None,
                raw: None,
                approval_status: None,
                approval_resolved_at: None,
            },
        );
    }
    Ok(v)
}

/// A message as C gets it.
#[derive(Debug, Clone)]
pub struct MessageOut {
    pub id: i64,
    pub session_id: String,
    pub uuid: String,
    pub role: i32,
    pub content: String,
    pub timestamp: i64,
    pub sequence: i64,
    pub raw: Option<String>,
}

/// Whether C can hold the strings of a message that it must hold.
pub open spec fn message_fits_c(m: Message) -> bool {
    !has_nul(m.session_id@) && !has_nul(m.uuid@) && !has_nul(m.content_full@)
}

/// Whether `r` is the message `m` as C gets it.
pub open spec fn is_message_for_c(r: MessageOut, m: Message) -> bool {
    &&& r.id == m.id
    &&& r.session_id == m.session_id
    &&& r.uuid == m.uuid
    &&& r.role == message_type_number(m.message_type)
    &&& r.content == m.content_full
    &&& r.timestamp == m.timestamp
    &&& r.sequence == m.sequence
    &&& r.raw == c_option(m.raw)
}

/// The messages as C gets them. One that C cannot hold fails the whole call.
pub fn export_messages(messages: Vec<Message>) -> (r: Result<Vec<MessageOut>, FfiError>)
    ensures
        match r {
            Ok(v) => {
                &&& v@.len() == messages@.len()
                &&& forall|i: int|
                    0 <= i < v@.len() ==> is_message_for_c(#[trigger] v@[i], messages@[i])
                &&& forall|i: int| 0 <= i < v@.len() ==> message_fits_c(#[trigger] messages@[i])
            },
            Err(e) => e == FfiError::InvalidUtf8 && exists|i: int|
                0 <= i < messages@.len() && !message_fits_c(#[trigger] messages@[i]),
        },
{
    let ghost all = messages@;
    let mut v: Vec<MessageOut> = Vec::new();
    for m in it: messages
        invariant
            it.seq() == all,
            v@.len() == it.index(),
            forall|i: int| 0 <= i < v@.len() ==> is_message_for_c(#[trigger] v@[i], all[i]),
            forall|i: int| 0 <= i < v@.len() ==> message_fits_c(#[trigger] all[i]),
    {
        if holds_nul(m.session_id.as_str()) || holds_nul(m.uuid.as_str()) || holds_nul(
            m.content_full.as_str(),
        ) {
            assert(!message_fits_c(all[it.index()]));
            return Err(FfiError::InvalidUtf8);
        }
        v.push(
            MessageOut {
                id: m.id,
                session_id: m.session_id,
                uuid: m.uuid,
                role: message_type_code(m.message_type),
                content: m.content_full,
                timestamp: m.timestamp,
                sequence: m.sequence,
                raw: to_c_option(m.raw),
            },
        );
    }
    Ok(v)
}

/// Whether C can hold the strings of a project.
pub open spec fn project_fits_c(p: Project) -> bool {
    !has_nul(p.name@) && !has_nul(p.path@) && !has_nul(p.source@)
}

/// The projects, which C gets as they are. One that C cannot hold fails the whole call.
pub fn export_projects(projects: Vec<Project>) -> (r: Result<Vec<Project>, FfiError>)
    ensures
        match r {
            Ok(v) => v@ == projects@ && forall|i: int|
                0 <= i < v@.len() ==> project_fits_c(#[trigger] v@[i]),
            Err(e) => e == FfiError::InvalidUtf8 && exists|i: int|
                0 <= i < projects@.len() && !project_fits_c(#[trigger] projects@[i]),
        },
{
    let mut i: usize = 0;
    while i < projects.len()
        invariant
            i <= projects@.len(),
            forall|k: int| 0 <= k < i ==> project_fits_c(#[trigger] projects@[k]),
        decreases projects@.len() - i,
    {
        let p = &projects[i];
        if holds_nul(p.name.as_str()) || holds_nul(p.path.as_str()) || holds_nul(p.source.as_str()) {
            assert(!project_fits_c(projects@[i as int]));
            return Err(FfiError::InvalidUtf8);
        }
        i += 1;
    }
    Ok(projects)
}

/// A session as C gets it.
#[derive(Debug, Clone)]
pub struct SessionOut {
    pub id: i64,
    pub session_id: String,
    pub project_id: i64,
    pub message_count: i64,
    /// The time of the last message, or -1 where there is none.
    pub last_message_at: i64,
    pub created_at: i64,
    pub updated_at: i64,
}

/// Whether `r` is the session `s` as C gets it.
pub open spec fn is_session_for_c(r: SessionOut, s: Session) -> bool {
    &&& r.id == s.id
    &&& r.session_id == s.session_id
    &&& r.project_id == s.project_id
    &&& r.message_count == s.message_count
    &&& r.last_message_at == or_minus_one(s.last_message_at)
    &&& r.created_at == s.created_at
    &&& r.updated_at == s.updated_at
}

/// The sessions as C gets them. One that C cannot hold fails the whole call.
pub fn export_sessions(sessions: Vec<Session>) -> (r: Result<Vec<SessionOut>, FfiError>)
    ensures
        match r {
            Ok(v) => {
                &&& v@.len() == sessions@.len()
                &&& forall|i: int|
                    0 <= i < v@.len() ==> is_session_for_c(#[trigger] v@[i], sessions@[i])
                &&& forall|i: int|
                    0 <= i < v@.len() ==> !has_nul((#[trigger] sessions@[i]).session_id@)
            },
            Err(e) => e == FfiError::InvalidUtf8 && exists|i: int|
                0 <= i < sessions@.len() && has_nul((#[trigger] sessions@[i]).session_id@),
        },
{
    let ghost all = sessions@;
    let mut v: Vec<SessionOut> = Vec::new();
    for s in it: sessions
        invariant
            it.seq() == all,
            v@.len() == it.index(),
            forall|i: int| 0 <= i < v@.len() ==> is_session_for_c(#[trigger] v@[i], all[i]),
            forall|i: int| 0 <= i < v@.len() ==> !has_nul((#[trigger] all[i]).session_id@),
    {
        if holds_nul(s.session_id.as_str()) {
            assert(has_nul(all[it.index()].session_id@));
            return Err(FfiError::InvalidUtf8);
        }
        v.push(
            SessionOut {
                id: s.id,
                session_id: s.session_id,
                project_id: s.project_id,
                message_count: s.message_count,
                last_message_at: s.last_message_at.unwrap_or(-1),
                created_at: s.created_at,
                updated_at: s.updated_at,
            },
        );
    }
    Ok(v)
}

/// Whether C can hold the strings of a search result.
pub open spec fn search_result_fits_c(s: SearchResult) -> bool {
    &&& !has_nul(s.session_id@)
    &&& !has_nul(s.project_name@)
    &&& !has_nul(s.message_type@)
    &&& !has_nul(s.content_full@)
    &&& !has_nul(s.snippet@)
}

/// The times of the search results as C gets them, -1 where one has none; the rest of them C gets
/// as it is. One that C cannot hold fails the whole call.
pub fn export_search_results(results: &Vec<SearchResult>) -> (r: Result<Vec<i64>, FfiError>)
    ensures
        match r {
            Ok(v) => {
                &&& v@.len() == results@.len()
                &&& forall|i: int|
                    0 <= i < v@.len() ==> #[trigger] v@[i] == or_minus_one(results@[i].timestamp)
                &&& forall|i: int|
                    0 <= i < v@.len() ==> search_result_fits_c(#[trigger] results@[i])
            },
            Err(e) => e == FfiError::InvalidUtf8 && exists|i: int|
                0 <= i < results@.len() && !search_result_fits_c(#[trigger] results@[i]),
        },
{
    let mut v: Vec<i64> = Vec::new();
    let mut i: usize = 0;
    while i < results.len()
        invariant
            i <= results@.len(),
            v@.len() == i,
            forall|k: int|
                0 <= k < i ==> #[trigger] v@[k] == or_minus_one(results@[k].timestamp),
            forall|k: int| 0 <= k < i ==> search_result_fits_c(#[trigger] results@[k]),
        decreases results@.len() - i,
    {
        let s = &results[i];
        if holds_nul(s.session_id.as_str()) || holds_nul(s.project_name.as_str()) || holds_nul(
            s.message_type.as_str(),
        ) || holds_nul(s.content_full.as_str()) || holds_nul(s.snippet.as_str()) {
            assert(!search_result_fits_c(results@[i as int]));
            return Err(FfiError::InvalidUtf8);
        }
        v.push(s.timestamp.unwrap_or(-1));
        i += 1;
    }
    Ok(v)
}

/// Whether C can hold the strings of a message for the index.
pub open spec fn indexed_message_fits_c(m: IndexableMessage) -> bool {
    !has_nul(m.uuid@) && !has_nul(m.role@) && !has_nul(m.content.full@)
}

/// Whether C can hold the strings of a session for the index.
pub open spec fn indexed_session_fits_c(s: IndexableSession) -> bool {
    &&& forall|i: int|
        0 <= i < s.messages@.len() ==> indexed_message_fits_c(#[trigger] s.messages@[i])
    &&& !has_nul(s.session_id@)
    &&& !has_nul(s.project_path@)
    &&& !has_nul(s.project_name@)
}

/// How the reading of a session file through the C interface ends: with the session, with none
/// where the file holds none, or with an error where it could not be read or C cannot hold it.
pub fn export_indexable<E>(parsed: Result<Option<IndexableSession>, E>) -> (r: (
    Option<IndexableSession>,
    FfiError,
))
    ensures
        r == match parsed {
            Ok(Some(s)) => if indexed_session_fits_c(s) {
                (Some(s), FfiError::Success)
            } else {
                (None, FfiError::InvalidUtf8)
            },
            Ok(None) => (None, FfiError::Success),
            Err(_) => (None, FfiError::DatabaseError),
        },
{
    match parsed {
        Ok(Some(s)) => {
            let mut i: usize = 0;
            while i < s.messages.len()
                invariant
                    i <= s.messages@.len(),
                    parsed == Ok::<Option<IndexableSession>, E>(Some(s)),
                    forall|k: int|
                        0 <= k < i ==> indexed_message_fits_c(#[trigger] s.messages@[k]),
                decreases s.messages@.len() - i,
            {
                let m = &s.messages[i];
                if holds_nul(m.uuid.as_str()) || holds_nul(m.role.as_str()) || holds_nul(
                    m.content.full.as_str(),
                ) {
                    assert(!indexed_message_fits_c(s.messages@[i as int]));
                    return (None, FfiError::InvalidUtf8);
                }
                i += 1;
            }
            if holds_nul(s.session_id.as_str()) || holds_nul(s.project_path.as_str()) || holds_nul(
                s.project_name.as_str(),
            ) {
                (None, FfiError::InvalidUtf8)
            } else {
                (Some(s), FfiError::Success)
            }
        },
        Ok(None) => (None, FfiError::Success),
        Err(_) => (None, FfiError::DatabaseError),
    }
}

/// A project with its sessions counted, as C gets it.
#[derive(Debug, Clone)]
pub struct ProjectInfoOut {
    pub encoded_name: String,
    pub path: String,
    pub name: String,
    pub session_count: usize,
    /// When it was last active, or zero where that is unknown.
    pub last_active: u64,
}

/// Whether C can hold the strings of a project.
pub open spec fn info_fits_c(p: ProjectInfo) -> bool {
    !has_nul(p.encoded_name@) && !has_nul(p.path@) && !has_nul(p.name@)
}

/// The project as C gets it.
pub open spec fn info_for_c(p: ProjectInfo) -> ProjectInfoOut {
    ProjectInfoOut {
        encoded_name: p.encoded_name,
        path: p.path,
        name: p.name,
        session_count: p.session_count,
        last_active: match p.last_active {
            Some(t) => t,
            None => 0,
        },
    }
}

/// The projects that C can hold, as C gets them.
pub open spec fn infos_for_c(projects: Seq<ProjectInfo>) -> Seq<ProjectInfoOut>
    decreases projects.len(),
{
    if projects.len() == 0 {
        seq![]
    } else {
        let p = infos_for_c(projects.drop_last());
        if info_fits_c(projects.last()) {
            p.push(info_for_c(projects.last()))
        } else {
            p
        }
    }
}

/// The projects as C gets them; those that C cannot hold are left out.
pub fn export_project_infos(projects: Vec<ProjectInfo>) -> (r: Vec<ProjectInfoOut>)
    ensures
        r@ == infos_for_c(projects@),
{
    let ghost all = projects@;
    let mut r: Vec<ProjectInfoOut> = Vec::new();
    assert(all.take(0) =~= Seq::<ProjectInfo>::empty());
    for p in it: projects
        invariant
            it.seq() == all,
            r@ == infos_for_c(all.take(it.index())),
    {
        assert(all.take(it.index() + 1).drop_last() =~= all.take(it.index()));
        if !holds_nul(p.encoded_name.as_str()) && !holds_nul(p.path.as_str()) && !holds_nul(
            p.name.as_str(),
        ) {
            r.push(
                ProjectInfoOut {
                    encoded_name: p.encoded_name,
                    path: p.path,
                    name: p.name,
                    session_count: p.session_count,
                    last_active: p.last_active.unwrap_or(0),
                },
            );
        }
    }
    assert(all.take(all.len() as int) =~= all);
    r
}

/// A listed session as C gets it.
#[derive(Debug, Clone)]
pub struct SessionMetaOut {
    pub id: String,
    pub project_path: String,
    pub project_name: Option<String>,
    pub encoded_dir_name: Option<String>,
    pub session_path: Option<String>,
    /// When its file was modified, or -1 where that is unknown.
    pub file_mtime: i64,
    /// How many messages it has, or -1 where that is unknown.
    pub message_count: i64,
}

/// Whether C can hold the strings of a listed session that it must hold.
pub open spec fn meta_fits_c(s: SessionMeta) -> bool {
    !has_nul(s.id@) && !has_nul(s.project_path@)
}

/// A listed session as C gets it.
pub open spec fn meta_for_c(s: SessionMeta) -> SessionMetaOut {
    SessionMetaOut {
        id: s.id,
        project_path: s.project_path,
        project_name: c_option(s.project_name),
        encoded_dir_name: c_option(s.encoded_dir_name),
        session_path: c_option(s.session_path),
        file_mtime: match s.file_mtime {
            Some(t) => t as i64,
            None => -1 as i64,
        },
        message_count: match s.message_count {
            Some(n) => n as i64,
            None => -1 as i64,
        },
    }
}

/// The listed sessions that C can hold, as C gets them.
pub open spec fn metas_for_c(sessions: Seq<SessionMeta>) -> Seq<SessionMetaOut>
    decreases sessions.len(),
{
    if sessions.len() == 0 {
        seq![]
    } else {
        let p = metas_for_c(sessions.drop_last());
        if meta_fits_c(sessions.last()) {
            p.push(meta_for_c(sessions.last()))
        } else {
            p
        }
    }
}

/// The listed sessions as C gets them. Those that C cannot hold are left out; of the others, what
/// is optional and cannot be held is.
pub fn export_session_metas(sessions: Vec<SessionMeta>) -> (r: Vec<SessionMetaOut>)
    ensures
        r@ == metas_for_c(sessions@),
{
    let ghost all = sessions@;
    let mut r: Vec<SessionMetaOut> = Vec::new();
    assert(all.take(0) =~= Seq::<SessionMeta>::empty());
    for s in it: sessions
        invariant
            it.seq() == all,
            r@ == metas_for_c(all.take(it.index())),
    {
        assert(all.take(it.index() + 1).drop_last() =~= all.take(it.index()));
        if !holds_nul(s.id.as_str()) && !holds_nul(s.project_path.as_str()) {
            r.push(
                SessionMetaOut {
                    id: s.id,
                    project_path: s.project_path,
                    project_name: to_c_option(s.project_name),
                    encoded_dir_name: to_c_option(s.encoded_dir_name),
                    session_path: to_c_option(s.session_path),
                    file_mtime: match s.file_mtime {
                        Some(t) => t as i64,
                        None => -1,
                    },
                    message_count: match s.message_count {
                        Some(n) => n as i64,
                        None => -1,
                    },
                },
            );
        }
    }
    assert(all.take(all.len() as int) =~= all);
    r
}

/// Whether a listed session is recent enough for a search that reaches back `within_seconds`,
/// where zero is no bound.
pub open spec fn is_within(file_mtime: i64, within_seconds: u64, now: i64) -> bool {
    within_seconds == 0 || file_mtime <= 0 || now - file_mtime <= (within_seconds as i64) * 1000
}

/// The first of the listed sessions, unless it is too old.
pub fn find_latest_session(sessions: Vec<SessionMetaOut>, within_seconds: u64, now: i64) -> (r:
    Option<SessionMetaOut>)
    requires
        i64::MIN <= (within_seconds as i64) * 1000 <= i64::MAX,
        now >= 0,
    ensures
        r == if sessions@.len() > 0 && is_within(sessions@[0].file_mtime, within_seconds, now) {
            Some(sessions@[0])
        } else {
            None
        },
{
    let mut rest = sessions;
    if rest.len() == 0 {
        return None;
    }
    let first = rest.swap_remove(0);
    if within_seconds > 0 && first.file_mtime > 0 {
        let diff_ms: i64 = now - first.file_mtime;
        if diff_ms > within_seconds as i64 * 1000 {
            return None;
        }
    }
    Some(first)
}

/// A message of a session file as C gets it.
#[derive(Debug, Clone)]
pub struct ParsedMessageOut {
    pub uuid: String,
    pub session_id: String,
    pub message_type: i32,
    pub content: String,
    pub timestamp: Option<String>,
}

/// Whether C can hold the strings of a message that it must hold.
pub open spec fn parsed_message_fits_c(m: ParsedMessage) -> bool {
    !has_nul(m.uuid@) && !has_nul(m.session_id@) && !has_nul(m.content.full@)
}

/// A message of a session file as C gets it.
pub open spec fn parsed_message_for_c(m: ParsedMessage) -> ParsedMessageOut {
    ParsedMessageOut {
        uuid: m.uuid,
        session_id: m.session_id,
        message_type: message_type_number(m.message_type),
        content: m.content.full,
        timestamp: c_option(m.timestamp),
    }
}

/// The messages that C can hold, as C gets them.
pub open spec fn parsed_messages_for_c(messages: Seq<ParsedMessage>) -> Seq<ParsedMessageOut>
    decreases messages.len(),
{
    if messages.len() == 0 {
        seq![]
    } else {
        let p = parsed_messages_for_c(messages.drop_last());
        if parsed_message_fits_c(messages.last()) {
            p.push(parsed_message_for_c(messages.last()))
        } else {
            p
        }
    }
}

/// The place where a page that starts at `offset` begins.
pub open spec fn c_page_start(total: int, offset: int) -> int {
    if offset <= total {
        offset
    } else {
        total
    }
}

/// The place where a page of at most `limit` messages ends; zero is no bound.
pub open spec fn c_page_end(total: int, limit: int, offset: int) -> int {
    let start = c_page_start(total, offset);
    if limit == 0 || start + limit > total {
        total
    } else {
        start + limit
    }
}

/// A page of the messages of a session file as C gets it.
#[derive(Debug, Clone)]
pub struct MessagesPage {
    pub messages: Vec<ParsedMessageOut>,
    pub total: usize,
    pub has_more: bool,
}

/// A page of the messages of a session file that has been read. Messages that C cannot hold are
/// left out of the page. A file that holds no session is an empty page.
pub fn read_session_messages(
    parsed: Option<Vec<ParsedMessage>>,
    limit: usize,
    offset: usize,
    order_asc: bool,
) -> (r: MessagesPage)
    requires
        offset + (if parsed is Some {
            parsed->0@.len()
        } else {
            0
        }) <= usize::MAX,
    ensures
        ({
            let all = match parsed {
                Some(v) => v@,
                None => Seq::empty(),
            };
            let ordered = in_order(all, if order_asc { Order::Asc } else { Order::Desc });
            let n = all.len() as int;
            &&& r.messages@ == parsed_messages_for_c(
                ordered.subrange(
                    c_page_start(n, offset as int),
                    c_page_end(n, limit as int, offset as int),
                ),
            )
            &&& r.total == n
            &&& r.has_more == (offset + r.messages@.len() < n)
        }),
{
    let all: Vec<ParsedMessage> = match parsed {
        Some(v) => v,
        None => Vec::new(),
    };
    let ghost ordered = in_order(all@, if order_asc { Order::Asc } else { Order::Desc });
    let total: usize = all.len();
    let start: usize = if offset <= total { offset } else { total };
    let end: usize = if limit == 0 || limit > total - start { total } else { start + limit };
    let ghost page = ordered.subrange(start as int, end as int);
    let mut messages: Vec<ParsedMessageOut> = Vec::new();
    let mut i: usize = start;
    assert(page.take(0) =~= Seq::<ParsedMessage>::empty());
    while i < end
        invariant
            start <= i <= end <= total == all@.len(),
            ordered == in_order(all@, if order_asc { Order::Asc } else { Order::Desc }),
            page == ordered.subrange(start as int, end as int),
            messages@ == parsed_messages_for_c(page.take(i - start)),
            messages@.len() <= i - start,
        decreases end - i,
    {
        assert(page.take(i - start + 1).drop_last() =~= page.take(i - start));
        let m = if order_asc { &all[i] } else { &all[total - 1 - i] };
        assert(*m == page[i - start]);
        if !holds_nul(m.uuid.as_str()) && !holds_nul(m.session_id.as_str()) && !holds_nul(
            m.content.full.as_str(),
        ) {
            let copy = m.copy();
            messages.push(
                ParsedMessageOut {
                    uuid: copy.uuid,
                    session_id: copy.session_id,
                    message_type: message_type_code(copy.message_type),
                    content: copy.content.full,
                    timestamp: to_c_option(copy.timestamp),
                },
            );
        }
        i += 1;
    }
    assert(page.take(end - start) =~= page);
    let has_more = offset + messages.len() < total;
    MessagesPage { messages, total, has_more }
}

/// What a collection has done, as C gets it.
#[derive(Debug, Clone)]
pub struct CollectResultOut {
    pub projects_scanned: usize,
    pub sessions_scanned: usize,
    pub messages_inserted: usize,
    pub error_count: usize,
    /// What went wrong, as far as C can hold it.
    pub first_error: Option<String>,
}

/// Whether `r` is what C gets of a collection, with `error` for what went wrong.
pub open spec fn is_collect_result_for_c(
    r: CollectResultOut,
    result: CollectResult,
    error: Option<Seq<char>>,
) -> bool {
    &&& r.projects_scanned == result.projects_scanned
    &&& r.sessions_scanned == result.sessions_scanned
    &&& r.messages_inserted == result.messages_inserted
    &&& r.error_count == result.errors@.len()
    &&& opt_view(r.first_error) == match error {
        Some(e) => if has_nul(e) {
            None
        } else {
            Some(e)
        },
        None => None,
    }
}

/// What C gets of a collection that it asked for: the first error alone.
pub fn export_collect_result(result: CollectResult) -> (r: CollectResultOut)
    ensures
        is_collect_result_for_c(
            r,
            result,
            if result.errors@.len() > 0 {
                Some(result.errors@[0]@)
            } else {
                None
            },
        ),
{
    let first = if result.errors.len() > 0 {
        Some(result.errors[0].clone())
    } else {
        None
    };
    CollectResultOut {
        projects_scanned: result.projects_scanned,
        sessions_scanned: result.sessions_scanned,
        messages_inserted: result.messages_inserted,
        error_count: result.errors.len(),
        first_error: to_c_option(first),
    }
}

/// What C gets of the collection that follows a registration: all errors in one text.
pub fn export_registration_result(result: CollectResult) -> (r: CollectResultOut)
    ensures
        is_collect_result_for_c(
            r,
            result,
            if result.errors@.len() > 0 {
                Some(joined(views(result.errors@), "; "@))
            } else {
                None
            },
        ),
{
    let all = if result.errors.len() > 0 {
        Some(join(&result.errors, "; "))
    } else {
        None
    };
    CollectResultOut {
        projects_scanned: result.projects_scanned,
        sessions_scanned: result.sessions_scanned,
        messages_inserted: result.messages_inserted,
        error_count: result.errors.len(),
        first_error: to_c_option(all),
    }
}

/// The time up to which a session has been scanned, or -1 where it has not been.
pub fn checkpoint_code(checkpoint: Option<i64>) -> (r: i64)
    ensures
        r == or_minus_one(checkpoint),
{
    checkpoint.unwrap_or(-1)
}

} // verus!

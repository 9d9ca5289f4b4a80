//! What a client and the agent say to each other.
use vstd::prelude::*;
use crate::json::Json;
use crate::text::copy_opt;

verus! {

/// Something that happened in a session, as a hook of the command-line tool tells it.
#[derive(Debug, Clone)]
pub struct HookEvent {
    /// What happened; words that are not known are passed on like the others.
    pub event_type: String,
    pub session_id: String,
    pub transcript_path: Option<String>,
    pub cwd: Option<String>,
    pub prompt: Option<String>,
    pub tool_name: Option<String>,
    pub tool_input: Option<serde_json::Value>,
    pub tool_use_id: Option<String>,
    pub notification_type: Option<String>,
    pub message: Option<String>,
    /// What the sender adds for the subscribers; the agent passes it on unread.
    pub context: Option<serde_json::Value>,
}

/// A session begins.
pub const SESSION_START: &'static str = "SessionStart";

/// A session ends.
pub const SESSION_END: &'static str = "SessionEnd";

/// A user has sent a prompt.
pub const USER_PROMPT_SUBMIT: &'static str = "UserPromptSubmit";

/// An answer is complete.
pub const STOP: &'static str = "Stop";

/// The tool has something to tell.
pub const NOTIFICATION: &'static str = "Notification";

/// The tool asks for a permission.
pub const PERMISSION_REQUEST: &'static str = "PermissionRequest";

/// What a client asks of the agent.
#[derive(Debug)]
pub enum Request {
    /// Introduces the client.
    Handshake { component: String, version: String },
    /// Says that a session file has changed.
    NotifyFileChange { path: String },
    /// Asks for events of the types.
    Subscribe { events: Vec<EventType> },
    /// Asks for no more events of the types.
    Unsubscribe { events: Vec<EventType> },
    /// Says which messages have been indexed.
    WriteIndexResult { session_id: String, indexed_message_ids: Vec<i64> },
    /// Hands in the summaries of a talk.
    WriteCompactResult {
        session_id: String,
        talk_id: String,
        summary_l2: String,
        summary_l3: Option<String>,
    },
    /// Says how an approval was resolved.
    WriteApproveResult { tool_call_id: String, status: ApprovalStatus, resolved_at: i64 },
    /// Keeps the connection.
    Heartbeat,
    /// Asks about the agent.
    Query { query_type: QueryType },
    /// Tells what happened in a session.
    HookEvent(HookEvent),
}

/// What the agent answers.
#[derive(Debug)]
pub enum Response {
    /// It is done.
    Success,
    /// It failed.
    Error { code: i32, message: String },
    /// The client is known now.
    HandshakeOk { agent_version: String },
    /// What was asked about the agent.
    QueryResult { data: Json },
}

/// What the agent tells a subscriber.
#[derive(Debug)]
pub enum Push {
    NewMessages { session_id: String, path: String, count: usize, message_ids: Vec<i64> },
    SessionStart { session_id: String, project_path: String },
    SessionEnd { session_id: String },
    HookEvent(HookEvent),
}

/// The types of events that a client can subscribe to.
#[derive(Debug, Clone, Copy, PartialEq, Eq, Hash, Structural)]
pub enum EventType {
    NewMessage,
    SessionStart,
    SessionEnd,
    HookEvent,
}

/// How an approval was resolved, as clients name it.
#[derive(Debug, Clone, Copy, PartialEq, Eq, Structural)]
pub enum ApprovalStatus {
    Pending,
    Approved,
    Rejected,
    Timeout,
}

/// What can be asked about the agent.
#[derive(Debug, Clone, Copy, PartialEq, Eq, Structural)]
pub enum QueryType {
    /// Its version and its connections.
    Status,
    /// The number of its connections.
    ConnectionCount,
}

/// Something that subscribers are told.
#[derive(Debug)]
pub enum Event {
    NewMessages { session_id: String, path: String, count: usize, message_ids: Vec<i64> },
    SessionStart { session_id: String, project_path: String },
    SessionEnd { session_id: String },
    HookEvent(HookEvent),
}

/// `serde_json::Value::clone`: the same value again.
#[verifier::external_body]
fn copy_value(v: &serde_json::Value) -> (r: serde_json::Value)
    ensures
        r == *v,
{
    v.clone()
}

fn copy_opt_value(v: &Option<serde_json::Value>) -> (r: Option<serde_json::Value>)
    ensures
        r == *v,
{
    match v {
        Some(v) => Some(copy_value(v)),
        None => None,
    }
}

impl HookEvent {
    /// The event again.
    pub fn copy(&self) -> (r: HookEvent)
        ensures
            r == *self,
    {
        HookEvent {
            event_type: self.event_type.clone(),
            session_id: self.session_id.clone(),
            transcript_path: copy_opt(&self.transcript_path),
            cwd: copy_opt(&self.cwd),
            prompt: copy_opt(&self.prompt),
            tool_name: copy_opt(&self.tool_name),
            tool_input: copy_opt_value(&self.tool_input),
            tool_use_id: copy_opt(&self.tool_use_id),
            notification_type: copy_opt(&self.notification_type),
            message: copy_opt(&self.message),
            context: copy_opt_value(&self.context),
        }
    }
}

fn copy_ids(v: &Vec<i64>) -> (r: Vec<i64>)
    ensures
        r@ == v@,
{
    let mut r: Vec<i64> = Vec::new();
    let mut i: usize = 0;
    while i < v.len()
        invariant
            i <= v@.len(),
            r@ == v@.take(i as int),
        decreases v@.len() - i,
    {
        r.push(v[i]);
        i += 1;
        assert(r@ =~= v@.take(i as int));
    }
    assert(v@.take(v@.len() as int) =~= v@);
    r
}

/// Whether `p` tells what `e` is, with nothing added or left out.
pub open spec fn tells(p: Push, e: Event) -> bool {
    match e {
        Event::NewMessages { session_id, path, count, message_ids } => p matches Push::NewMessages {
            session_id: s,
            path: f,
            count: n,
            message_ids: ids,
        } && s == session_id && f == path && n == count && ids@ == message_ids@,
        Event::SessionStart {
            session_id,
            project_path,
        } => p matches Push::SessionStart { session_id: s, project_path: f } && s == session_id && f
            == project_path,
        Event::SessionEnd { session_id } => p matches Push::SessionEnd { session_id: s } && s
            == session_id,
        Event::HookEvent(h) => p == Push::HookEvent(h),
    }
}

/// The type of an event.
pub open spec fn type_of_event(e: Event) -> EventType {
    match e {
        Event::NewMessages { .. } => EventType::NewMessage,
        Event::SessionStart { .. } => EventType::SessionStart,
        Event::SessionEnd { .. } => EventType::SessionEnd,
        Event::HookEvent(_) => EventType::HookEvent,
    }
}

impl Event {
    /// The type by which the event is subscribed to.
    pub fn event_type(&self) -> (r: EventType)
        ensures
            r == type_of_event(*self),
    {
        match self {
            Event::NewMessages { .. } => EventType::NewMessage,
            Event::SessionStart { .. } => EventType::SessionStart,
            Event::SessionEnd { .. } => EventType::SessionEnd,
            Event::HookEvent(_) => EventType::HookEvent,
        }
    }

    /// What a subscriber is told of the event.
    pub fn to_push(&self) -> (r: Push)
        ensures
            tells(r, *self),
    {
        match self {
            Event::NewMessages { session_id, path, count, message_ids } => Push::NewMessages {
                session_id: session_id.clone(),
                path: path.clone(),
                count: *count,
                message_ids: copy_ids(message_ids),
            },
            Event::SessionStart { session_id, project_path } => Push::SessionStart {
                session_id: session_id.clone(),
                project_path: project_path.clone(),
            },
            Event::SessionEnd { session_id } => Push::SessionEnd {
                session_id: session_id.clone(),
            },
            Event::HookEvent(h) => Push::HookEvent(h.copy()),
        }
    }
}

/// The context of a hook event reaches the subscribers as it was sent.
pub proof fn context_passes_through(h: HookEvent, p: Push)
    requires
        tells(p, Event::HookEvent(h)),
    ensures
        p matches Push::HookEvent(told) && told.context == h.context,
{
}

} // verus!

//! What the agent does with a request.
use vstd::prelude::*;
use crate::agent::broadcaster::{is_updated, recipients, ConnId, ConnectionManager};
use crate::json::{json_view, Json, JsonView};
use crate::protocol;
use crate::protocol::{Event, EventType, HookEvent, QueryType, Request, Response};
use crate::text::{decimal, decimal_of};
use crate::types;

verus! {

/// What the agent does about a request before it answers.
#[derive(Debug)]
pub enum Action {
    /// Answers at once.
    Reply(Response),
    /// Collects a session file; `file_change_reply` answers.
    Collect { path: String },
    /// Marks messages as indexed; `index_reply` answers.
    MarkIndexed { message_ids: Vec<i64> },
    /// Writes the summaries of a talk; `compact_reply` answers.
    WriteSummary {
        session_id: String,
        talk_id: String,
        summary_l2: String,
        summary_l3: Option<String>,
    },
    /// Writes how an approval was resolved; `approve_reply` answers.
    WriteApproval { tool_call_id: String, status: types::ApprovalStatus, resolved_at: i64 },
    /// Deals with a hook event; `handle_hook_event` says how.
    Hook(HookEvent),
}

/// The status of an approval in the store.
pub open spec fn stored_status(s: protocol::ApprovalStatus) -> types::ApprovalStatus {
    match s {
        protocol::ApprovalStatus::Pending => types::ApprovalStatus::Pending,
        protocol::ApprovalStatus::Approved => types::ApprovalStatus::Approved,
        protocol::ApprovalStatus::Rejected => types::ApprovalStatus::Rejected,
        protocol::ApprovalStatus::Timeout => types::ApprovalStatus::Timeout,
    }
}

fn status_in_store(s: protocol::ApprovalStatus) -> (r: types::ApprovalStatus)
    ensures
        r == stored_status(s),
{
    match s {
        protocol::ApprovalStatus::Pending => types::ApprovalStatus::Pending,
        protocol::ApprovalStatus::Approved => types::ApprovalStatus::Approved,
        protocol::ApprovalStatus::Rejected => types::ApprovalStatus::Rejected,
        protocol::ApprovalStatus::Timeout => types::ApprovalStatus::Timeout,
    }
}

/// What is told about the agent.
pub open spec fn query_data(q: QueryType, version: Seq<char>, connections: nat) -> JsonView {
    match q {
        QueryType::Status => JsonView::Object(
            seq![
                ("agent_version"@, JsonView::Text(version)),
                ("connections"@, JsonView::Number(decimal(connections))),
            ],
        ),
        QueryType::ConnectionCount => JsonView::Object(
            seq![("count"@, JsonView::Number(decimal(connections)))],
        ),
    }
}

/// Whether `a` is what the agent does about the request, of which the connections are those given.
pub open spec fn is_action(
    request: Request,
    version: Seq<char>,
    connections: nat,
    a: Action,
) -> bool {
    match request {
        Request::Handshake { .. } => a matches Action::Reply(
            Response::HandshakeOk { agent_version },
        ) && agent_version@ == version,
        Request::NotifyFileChange { path } => a == (Action::Collect { path }),
        Request::Subscribe { .. } => a == Action::Reply(Response::Success),
        Request::Unsubscribe { .. } => a == Action::Reply(Response::Success),
        Request::WriteIndexResult { session_id, indexed_message_ids } => a == (
        Action::MarkIndexed { message_ids: indexed_message_ids }),
        Request::WriteCompactResult { session_id, talk_id, summary_l2, summary_l3 } => a == (
        Action::WriteSummary { session_id, talk_id, summary_l2, summary_l3 }),
        Request::WriteApproveResult { tool_call_id, status, resolved_at } => a == (
        Action::WriteApproval { tool_call_id, status: stored_status(status), resolved_at }),
        Request::Heartbeat => a == Action::Reply(Response::Success),
        Request::Query { query_type } => a matches Action::Reply(Response::QueryResult { data })
            && json_view(data) == query_data(query_type, version, connections),
        Request::HookEvent(h) => a == Action::Hook(h),
    }
}

/// What the agent knows about its connections after a request.
pub open spec fn connections_after(
    request: Request,
    before: ConnectionManager,
    conn_id: ConnId,
    after: ConnectionManager,
) -> bool {
    match request {
        Request::Subscribe { events } => after.next_conn_id == before.next_conn_id && is_updated(
            before.connections@,
            conn_id,
            events@,
            true,
            after.connections@,
        ),
        Request::Unsubscribe { events } => after.next_conn_id == before.next_conn_id && is_updated(
            before.connections@,
            conn_id,
            events@,
            false,
            after.connections@,
        ),
        _ => after == before,
    }
}

/// What the agent, which is of the version given, does about a request of a connection.
pub fn handle(
    connections: &mut ConnectionManager,
    conn_id: ConnId,
    request: Request,
    version: &str,
) -> (r: Action)
    requires
        old(connections).wf(),
    ensures
        final(connections).wf(),
        is_action(request, version@, old(connections).connections@.len(), r),
        connections_after(request, *old(connections), conn_id, *final(connections)),
{
    match request {
        Request::Handshake { component: _, version: _ } => Action::Reply(
            Response::HandshakeOk { agent_version: version.to_owned() },
        ),
        Request::NotifyFileChange { path } => Action::Collect { path },
        Request::Subscribe { events } => {
            connections.subscribe(conn_id, &events);
            Action::Reply(Response::Success)
        },
        Request::Unsubscribe { events } => {
            connections.unsubscribe(conn_id, &events);
            Action::Reply(Response::Success)
        },
        Request::WriteIndexResult { session_id: _, indexed_message_ids } => Action::MarkIndexed {
            message_ids: indexed_message_ids,
        },
        Request::WriteCompactResult {
            session_id,
            talk_id,
            summary_l2,
            summary_l3,
        } => Action::WriteSummary { session_id, talk_id, summary_l2, summary_l3 },
        Request::WriteApproveResult {
            tool_call_id,
            status,
            resolved_at,
        } => Action::WriteApproval { tool_call_id, status: status_in_store(status), resolved_at },
        Request::Heartbeat => Action::Reply(Response::Success),
        Request::Query { query_type } => Action::Reply(
            handle_query(query_type, version, connections.connection_count()),
        ),
        Request::HookEvent(h) => Action::Hook(h),
    }
}

/// What is told about the agent of the version given with so many connections.
pub fn handle_query(query_type: QueryType, version: &str, connections: usize) -> (r: Response)
    ensures
        r matches Response::QueryResult { data } && json_view(data) == query_data(
            query_type,
            version@,
            connections as nat,
        ),
{
    let count = Json::Number(decimal_of(connections as u64));
    match query_type {
        QueryType::Status => {
            let members: Vec<(String, Json)> = vec![
                ("agent_version".to_owned(), Json::Text(version.to_owned())),
                ("connections".to_owned(), count),
            ];
            let data = Json::Object(members);
            proof {
                lemma_members(members);
                assert(json_view(data)->Object_0 =~= query_data(
                    query_type,
                    version@,
                    connections as nat,
                )->Object_0);
            }
            Response::QueryResult { data }
        },
        QueryType::ConnectionCount => {
            let members: Vec<(String, Json)> = vec![("count".to_owned(), count)];
            let data = Json::Object(members);
            proof {
                lemma_members(members);
                assert(json_view(data)->Object_0 =~= query_data(
                    query_type,
                    version@,
                    connections as nat,
                )->Object_0);
            }
            Response::QueryResult { data }
        },
    }
}

proof fn lemma_members(members: Vec<(String, Json)>)
    ensures
        json_view(Json::Object(members)) matches JsonView::Object(seen) && seen.len()
            == members@.len() && forall|i: int|
            0 <= i < members@.len() ==> #[trigger] seen[i] == (
                members@[i].0@,
                json_view(members@[i].1),
            ),
{
}

/// The answer that a failure brings.
pub open spec fn is_failure(r: Response, what: Seq<char>, error: Seq<char>) -> bool {
    r matches Response::Error { code, message } && code == 500 && message@ == what + error
}

fn failure(what: &str, error: &str) -> (r: Response)
    ensures
        is_failure(r, what@, error@),
{
    let mut message = what.to_owned();
    message.push_str(error);
    Response::Error { code: 500, message }
}

/// The answer to a file change once the file has been collected, or collecting it has failed, and
/// whether the sync worker is woken.
pub fn file_change_reply(error: Option<&str>) -> (r: (Response, bool))
    ensures
        match error {
            None => r == (Response::Success, true),
            Some(e) => is_failure(r.0, "Collection failed: "@, e@) && !r.1,
        },
{
    match error {
        None => (Response::Success, true),
        Some(e) => (failure("Collection failed: ", e), false),
    }
}

/// The answer once messages have been marked as indexed, or marking them has failed.
pub fn index_reply(error: Option<&str>) -> (r: Response)
    ensures
        match error {
            None => r is Success,
            Some(e) => is_failure(r, "Failed to mark messages indexed: "@, e@),
        },
{
    match error {
        None => Response::Success,
        Some(e) => failure("Failed to mark messages indexed: ", e),
    }
}

/// The answer once summaries have been written, or writing them has failed.
pub fn compact_reply(error: Option<&str>) -> (r: Response)
    ensures
        match error {
            None => r is Success,
            Some(e) => is_failure(r, "Failed to write compact result: "@, e@),
        },
{
    match error {
        None => Response::Success,
        Some(e) => failure("Failed to write compact result: ", e),
    }
}

/// The answer once an approval has been written, or writing it has failed.
pub fn approve_reply(error: Option<&str>) -> (r: Response)
    ensures
        match error {
            None => r is Success,
            Some(e) => is_failure(r, "Failed to update approval status: "@, e@),
        },
{
    match error {
        None => Response::Success,
        Some(e) => failure("Failed to update approval status: ", e),
    }
}

/// What the agent does about a hook event.
#[derive(Debug)]
pub struct HookPlan {
    /// The file to collect, whether or not that succeeds, before the sync worker is woken.
    pub collect: Option<String>,
    /// What subscribers are told.
    pub event: Event,
    /// The connections that are told.
    pub recipients: Vec<ConnId>,
    /// The answer.
    pub reply: Response,
}

/// What the agent does about a hook event, whose transcript, if it names one, is there or not.
pub fn handle_hook_event(
    connections: &ConnectionManager,
    event: HookEvent,
    transcript_exists: bool,
) -> (r: HookPlan)
    ensures
        r.collect == if transcript_exists {
            event.transcript_path
        } else {
            None
        },
        r.event == Event::HookEvent(event),
        r.recipients@ == recipients(connections.connections@, EventType::HookEvent),
        r.reply is Success,
{
    let collect = match &event.transcript_path {
        Some(p) => if transcript_exists {
            Some(p.clone())
        } else {
            None
        },
        None => None,
    };
    HookPlan {
        collect,
        recipients: connections.subscribers(EventType::HookEvent),
        event: Event::HookEvent(event),
        reply: Response::Success,
    }
}

} // verus!

//! What holds of the agent.
use vstd::prelude::*;
use crate::agent::broadcaster::{kept, recipients, ConnId, Connection, ConnectionManager};
use crate::agent::handler::{
    approve_reply, compact_reply, file_change_reply, handle, handle_hook_event, handle_query,
    index_reply, Action, HookPlan,
};
use crate::agent::server;
use crate::agent::server::{
    after_wait, is_agent_running, must_stop, recorded_pid, AfterWait, AgentConfig, Awaited,
    IdleChecker, Stage,
};
use crate::agent::watcher::trigger_collect;
use crate::json::{field, json_view, JsonView};
use crate::laws::texts::{number_reads_back, trimmed_text_stays};
use crate::paths::PathStyle;
use crate::protocol::{Event, EventType, HookEvent, Push, QueryType, Request, Response};
use crate::text::{decimal, signed_decimal};

verus! {

/// A client that introduces itself learns the version of the agent; one that keeps its connection, or
/// asks for events or for no more of them, is told that it is done.
pub proof fn greetings_are_answered(
    connections: &mut ConnectionManager,
    id: ConnId,
    request: Request,
    version: &str,
    r: Action,
)
    requires
        call_ensures(handle, (connections, id, request, version), r),
    ensures
        request is Handshake ==> {
            &&& r matches Action::Reply(Response::HandshakeOk { agent_version })
            &&& agent_version@ == version@
        },
        request is Heartbeat || request is Subscribe || request is Unsubscribe ==> r
            == Action::Reply(Response::Success),
        !(request is Subscribe) && !(request is Unsubscribe) ==> *final(connections) == *old(
            connections
        ),
{
}

/// What a client hands in is written as it is: the file it names is collected, the messages are marked,
/// the summaries are stored, and an approval keeps its outcome.
pub proof fn results_are_written(
    connections: &mut ConnectionManager,
    id: ConnId,
    request: Request,
    version: &str,
    r: Action,
)
    requires
        call_ensures(handle, (connections, id, request, version), r),
    ensures
        request matches Request::NotifyFileChange { path } ==> r == (Action::Collect { path }),
        request matches Request::WriteIndexResult { session_id, indexed_message_ids } ==> r == (
        Action::MarkIndexed { message_ids: indexed_message_ids }),
        request matches Request::WriteCompactResult { session_id, talk_id, summary_l2, summary_l3 }
            ==> r == (Action::WriteSummary { session_id, talk_id, summary_l2, summary_l3 }),
        request matches Request::WriteApproveResult { tool_call_id, status, resolved_at } ==> {
            &&& r matches Action::WriteApproval { tool_call_id: call, status: s, resolved_at: at }
            &&& call == tool_call_id
            &&& at == resolved_at
            &&& s is Pending <==> status is Pending
            &&& s is Approved <==> status is Approved
            &&& s is Rejected <==> status is Rejected
            &&& s is Timeout <==> status is Timeout
        },
        request matches Request::HookEvent(h) ==> r == Action::Hook(h),
{
}

/// A question about the agent is answered with its version and the number of connections.
pub proof fn questions_are_answered(version: &str, connections: usize, status: Response, count: Response)
    requires
        call_ensures(handle_query, (QueryType::Status, version, connections), status),
        call_ensures(handle_query, (QueryType::ConnectionCount, version, connections), count),
    ensures
        status matches Response::QueryResult { data } && field(
            json_view(data),
            "agent_version"@,
        ) == Some(JsonView::Text(version@)) && field(json_view(data), "connections"@) == Some(
            JsonView::Number(decimal(connections as nat)),
        ),
        count matches Response::QueryResult { data } && field(json_view(data), "count"@) == Some(
            JsonView::Number(decimal(connections as nat)),
        ),
{
    reveal_strlit("agent_version");
    reveal_strlit("connections");
    assert("agent_version"@ != "connections"@) by {
        assert("agent_version"@.len() != "connections"@.len());
    }
    reveal_with_fuel(crate::json::member, 3);
}

/// A request that was carried out is answered with success, and one that failed with the reason; and
/// only a file that was collected wakes the push.
pub proof fn outcomes_are_told(
    error: Option<&str>,
    file: (Response, bool),
    index: Response,
    compact: Response,
    approve: Response,
)
    requires
        call_ensures(file_change_reply, (error,), file),
        call_ensures(index_reply, (error,), index),
        call_ensures(compact_reply, (error,), compact),
        call_ensures(approve_reply, (error,), approve),
    ensures
        file.1 <==> error is None,
        error is None ==> file.0 is Success && index is Success && compact is Success && approve
            is Success,
        error is Some ==> file.0 is Error && index is Error && compact is Error && approve is Error,
        error is Some ==> file.0->code == 500 && index->code == 500 && compact->code == 500
            && approve->code == 500,
{
}

/// A hook event is told to everyone who has asked for hook events, as it came; its transcript is
/// collected where there is one.
pub proof fn hook_event_is_passed_on(
    connections: &ConnectionManager,
    event: HookEvent,
    exists_there: bool,
    r: HookPlan,
    i: int,
)
    requires
        call_ensures(handle_hook_event, (connections, event, exists_there), r),
        0 <= i < connections.connections@.len(),
        connections.connections@[i].events.hook_event,
    ensures
        r.event == Event::HookEvent(event),
        r.recipients@.contains(connections.connections@[i].id),
        exists_there ==> r.collect == event.transcript_path,
        !exists_there ==> r.collect is None,
        r.reply is Success,
{
    lemma_recipient(connections.connections@, EventType::HookEvent, i);
}

proof fn lemma_recipient(connections: Seq<Connection>, e: EventType, i: int)
    requires
        0 <= i < connections.len(),
        connections[i].events.has(e),
    ensures
        recipients(connections, e).contains(connections[i].id),
    decreases connections.len(),
{
    let q = recipients(connections, e);
    if i == connections.len() - 1 {
        assert(q[q.len() - 1] == connections[i].id);
    } else {
        let d = connections.drop_last();
        lemma_recipient(d, e, i);
        let p = recipients(d, e);
        let k = choose|k: int| 0 <= k < p.len() && p[k] == d[i].id;
        assert(q[k] == connections[i].id);
    }
}

/// The subscribers of a type of event are exactly the connections that have asked for it.
pub proof fn subscribers_are_those_who_asked(
    c: &ConnectionManager,
    e: EventType,
    r: Vec<ConnId>,
    id: ConnId,
)
    requires
        call_ensures(ConnectionManager::subscribers, (c, e), r),
    ensures
        r@.contains(id) <==> exists|i: int|
            0 <= i < c.connections@.len() && (#[trigger] c.connections@[i]).id == id && match e {
                EventType::NewMessage => c.connections@[i].events.new_message,
                EventType::SessionStart => c.connections@[i].events.session_start,
                EventType::SessionEnd => c.connections@[i].events.session_end,
                EventType::HookEvent => c.connections@[i].events.hook_event,
            },
{
    let all = c.connections@;
    if r@.contains(id) {
        lemma_recipient_is_there(all, e, id);
    }
    if exists|i: int|
        0 <= i < all.len() && (#[trigger] all[i]).id == id && match e {
            EventType::NewMessage => all[i].events.new_message,
            EventType::SessionStart => all[i].events.session_start,
            EventType::SessionEnd => all[i].events.session_end,
            EventType::HookEvent => all[i].events.hook_event,
        } {
        let i = choose|i: int|
            0 <= i < all.len() && (#[trigger] all[i]).id == id && match e {
                EventType::NewMessage => all[i].events.new_message,
                EventType::SessionStart => all[i].events.session_start,
                EventType::SessionEnd => all[i].events.session_end,
                EventType::HookEvent => all[i].events.hook_event,
            };
        lemma_recipient(all, e, i);
    }
}

proof fn lemma_recipient_is_there(connections: Seq<Connection>, e: EventType, id: ConnId)
    requires
        recipients(connections, e).contains(id),
    ensures
        exists|i: int|
            0 <= i < connections.len() && (#[trigger] connections[i]).id == id
                && connections[i].events.has(e),
    decreases connections.len(),
{
    let q = recipients(connections, e);
    if connections.len() > 0 {
        let d = connections.drop_last();
        let p = recipients(d, e);
        let k = choose|k: int| 0 <= k < q.len() && q[k] == id;
        if k < p.len() {
            assert(p[k] == id);
            lemma_recipient_is_there(d, e, id);
            let i = choose|i: int|
                0 <= i < d.len() && (#[trigger] d[i]).id == id && d[i].events.has(e);
            assert(connections[i].id == id);
        } else {
            assert(connections[connections.len() - 1].id == id);
        }
    }
}

/// Subscribers are told what happened, with the type under which they asked for it.
pub proof fn events_are_told_as_they_are(e: &Event, p: Push, t: EventType)
    requires
        call_ensures(Event::to_push, (e,), p),
        call_ensures(Event::event_type, (e,), t),
    ensures
        e matches Event::NewMessages { session_id, path, count, message_ids } ==> {
            &&& t == EventType::NewMessage
            &&& p matches Push::NewMessages { session_id: s, path: f, count: n, message_ids: ids }
            &&& s == session_id
            &&& f == path
            &&& n == count
            &&& ids@ == message_ids@
        },
        e matches Event::SessionStart { session_id, project_path } ==> {
            &&& t == EventType::SessionStart
            &&& p matches Push::SessionStart { session_id: s, project_path: f }
            &&& s == session_id
            &&& f == project_path
        },
        e matches Event::SessionEnd { session_id } ==> {
            &&& t == EventType::SessionEnd
            &&& p matches Push::SessionEnd { session_id: s }
            &&& s == session_id
        },
        e matches Event::HookEvent(h) ==> t == EventType::HookEvent && p == Push::HookEvent(*h),
{
}

/// A collection that found new messages is told with their number and ids; one that found none is not
/// told.
pub proof fn new_messages_are_told(
    style: PathStyle,
    path: &str,
    inserted: usize,
    ids: Vec<i64>,
    r: Option<Event>,
)
    requires
        call_ensures(trigger_collect, (style, path, inserted, ids), r),
    ensures
        r is Some <==> inserted > 0,
        r is Some ==> {
            &&& r->0 is NewMessages
            &&& r->0->NewMessages_path@ == path@
            &&& r->0->NewMessages_count == inserted
            &&& r->0->NewMessages_message_ids == ids
        },
{
}

/// The agent starts in order: it serves only once it watches, watches only once it has scanned, scans
/// only once its socket is protected, and protects it only once it listens; and it ends only once it
/// has cleaned up behind itself.
pub proof fn agent_starts_in_order(
    stage: Stage,
    outcome: Result<(), String>,
    socket_exists: bool,
    r: Stage,
)
    requires
        call_ensures(server::run, (stage, outcome, socket_exists), r),
        r != stage,
    ensures
        r is Serve ==> stage is Watch && outcome is Ok,
        r is Watch ==> stage is Scan,
        r is Scan ==> stage is Protect && outcome is Ok,
        r is Protect ==> stage is Bind && outcome is Ok,
        r is Bind ==> (stage is WritePid && !socket_exists || stage is RemoveSocket) && outcome
            is Ok,
        r is RemoveSocket ==> stage is WritePid && socket_exists && outcome is Ok,
        r is Finished ==> stage is Cleanup,
        r is Cleanup ==> stage is Serve,
        r is Failed ==> outcome is Err,
        stage is Serve ==> r is Cleanup,
        stage is Scan ==> r is Watch,
        !(r is WritePid),
{
}

/// An agent stops for its own part only while nobody is connected.
pub proof fn connected_agent_stays(shutdown: bool, connected: bool, r: bool)
    requires
        call_ensures(must_stop, (shutdown, connected), r),
    ensures
        connected ==> !r,
        !shutdown ==> !r,
        shutdown && !connected ==> r,
{
}

/// What the agent waits for decides what it does: a connection is served, a signal ends it, and nothing
/// else does.
pub proof fn signal_ends_the_agent(awaited: Awaited, r: AfterWait)
    requires
        call_ensures(after_wait, (awaited,), r),
    ensures
        r is Stop <==> awaited is Signal,
        r is Serve <==> awaited is Accepted,
        r is Wait <==> awaited is AcceptFailed || awaited is Elapsed,
{
}

/// The agent may be idle for as many checks of five seconds as fit into its timeout; a check with
/// connections starts the count again, and one without goes on with it.
pub proof fn idle_checks_are_counted(
    config: &AgentConfig,
    fresh: IdleChecker,
    idle: &mut IdleChecker,
    connected: bool,
)
    requires
        call_ensures(IdleChecker::new, (config,), fresh),
        call_ensures(IdleChecker::idle_checker, (idle, connected), ()),
    ensures
        fresh.idle_count == 0,
        !fresh.shutdown,
        5 * fresh.idle_threshold <= config.idle_timeout_secs < 5 * fresh.idle_threshold + 5,
        final(idle).idle_threshold == old(idle).idle_threshold,
        connected ==> final(idle).idle_count == 0 && !final(idle).shutdown,
        !connected ==> final(idle).idle_count == old(idle).idle_count + 1,
        !connected && final(idle).idle_count >= old(idle).idle_threshold ==> final(idle).shutdown,
        !connected && final(idle).idle_count < old(idle).idle_threshold ==> final(idle).shutdown
            == old(idle).shutdown,
{
}

/// The number of the agent's process is read back as it was recorded, also where a line ends behind it.
pub proof fn recorded_process_is_read(content: &str, n: u32, r: Option<u32>)
    requires
        content@ == signed_decimal(n as int) || content@ == signed_decimal(n as int).push('\n'),
        call_ensures(recorded_pid, (Some(content),), r),
    ensures
        r == Some(n),
{
    number_reads_back(n as i64);
    trimmed_text_stays(n as int);
}

/// An agent runs where its process is recorded and alive.
pub proof fn agent_runs_while_its_process_does(pid: Option<u32>, alive: bool, r: bool)
    requires
        call_ensures(is_agent_running, (pid, alive), r),
    ensures
        r ==> pid is Some && alive,
        pid is Some && alive ==> r,
{
}

/// A connection gets a number that none has had, and asks for nothing yet; the others stay.
pub proof fn new_connection_has_a_new_number(c: &mut ConnectionManager, r: ConnId, i: int)
    requires
        old(c).wf(),
        call_ensures(ConnectionManager::register, (c,), r),
        0 <= i < old(c).connections@.len(),
    ensures
        old(c).connections@[i].id != r,
        final(c).connections@[i] == old(c).connections@[i],
        final(c).connections@.len() == old(c).connections@.len() + 1,
        final(c).connections@.last().id == r,
        !final(c).connections@.last().events.has(EventType::NewMessage),
        !final(c).connections@.last().events.has(EventType::SessionStart),
        !final(c).connections@.last().events.has(EventType::SessionEnd),
        !final(c).connections@.last().events.has(EventType::HookEvent),
        final(c).next_conn_id > r,
{
    assert(final(c).connections@.drop_last()[i] == final(c).connections@[i]);
}

proof fn lemma_kept_is_filtered(connections: Seq<Connection>, gone: Seq<ConnId>)
    ensures
        kept(connections, gone) == connections.filter(|c: Connection| !gone.contains(c.id)),
    decreases connections.len(),
{
    reveal(Seq::filter);
    if connections.len() > 0 {
        lemma_kept_is_filtered(connections.drop_last(), gone);
    }
    assert(kept(connections, gone) =~= connections.filter(|c: Connection| !gone.contains(c.id)));
}

/// A connection that ends is gone, and no other with it.
pub proof fn ended_connection_is_gone(c: &mut ConnectionManager, id: ConnId, x: Connection, r: ())
    requires
        call_ensures(ConnectionManager::unregister, (c, id), r),
    ensures
        final(c).connections@.contains(x) <==> old(c).connections@.contains(x) && x.id != id,
        final(c).next_conn_id == old(c).next_conn_id,
{
    let gone = seq![id];
    lemma_kept_is_filtered(old(c).connections@, gone);
    let stays = |x: Connection| !gone.contains(x.id);
    lemma_filtered_contains(old(c).connections@, stays, x);
    assert(gone.contains(x.id) <==> x.id == id) by {
        if x.id == id {
            assert(gone[0] == id);
        }
    }
}

proof fn lemma_filtered_contains<T>(s: Seq<T>, keep: spec_fn(T) -> bool, x: T)
    ensures
        s.filter(keep).contains(x) <==> s.contains(x) && keep(x),
    decreases s.len(),
{
    reveal(Seq::filter);
    if s.len() > 0 {
        let d = s.drop_last();
        lemma_filtered_contains(d, keep, x);
        let f = s.filter(keep);
        let p = d.filter(keep);
        if d.contains(x) {
            let i = choose|i: int| 0 <= i < d.len() && d[i] == x;
            assert(s[i] == x);
        }
        if s.contains(x) && !d.contains(x) {
            let i = choose|i: int| 0 <= i < s.len() && s[i] == x;
            if i < d.len() {
                assert(d[i] == x);
            }
            assert(s.last() == x);
        }
        assert(s[s.len() - 1] == s.last());
        if keep(s.last()) {
            assert(f == p.push(s.last()));
            assert(f[p.len() as int] == s.last());
            if p.contains(x) {
                let i = choose|i: int| 0 <= i < p.len() && p[i] == x;
                assert(f[i] == x);
            }
            if f.contains(x) {
                let i = choose|i: int| 0 <= i < f.len() && f[i] == x;
                if i < p.len() {
                    assert(p[i] == x);
                }
            }
        }
    }
}

/// Of the connections those that were closed are dropped, and the rest are counted.
pub proof fn closed_connections_are_dropped(
    c: &mut ConnectionManager,
    closed: &Vec<ConnId>,
    x: Connection,
    r: usize,
)
    requires
        call_ensures(ConnectionManager::cleanup_closed, (c, closed), r),
    ensures
        final(c).connections@.contains(x) <==> old(c).connections@.contains(x)
            && !closed@.contains(x.id),
        r == final(c).connections@.len(),
{
    lemma_kept_is_filtered(old(c).connections@, closed@);
    lemma_filtered_contains(
        old(c).connections@,
        |x: Connection| !closed@.contains(x.id),
        x,
    );
}

/// A connection that asks for events gets those and keeps what it had; none else is touched.
pub proof fn asking_adds_and_renouncing_takes_away(
    c: &mut ConnectionManager,
    d: &mut ConnectionManager,
    id: ConnId,
    events: &Vec<EventType>,
    i: int,
    e: EventType,
    a: (),
    b: (),
)
    requires
        call_ensures(ConnectionManager::subscribe, (c, id, events), a),
        call_ensures(ConnectionManager::unsubscribe, (d, id, events), b),
        0 <= i < old(c).connections@.len(),
        0 <= i < old(d).connections@.len(),
    ensures
        final(c).connections@.len() == old(c).connections@.len(),
        old(c).connections@[i].id != id ==> final(c).connections@[i].events == old(
            c,
        ).connections@[i].events,
        old(c).connections@[i].id == id ==> (final(c).connections@[i].events.has(e) <==> old(
            c,
        ).connections@[i].events.has(e) || events@.contains(e)),
        old(d).connections@[i].id == id ==> (final(d).connections@[i].events.has(e) <==> old(
            d,
        ).connections@[i].events.has(e) && !events@.contains(e)),
        old(d).connections@[i].id != id ==> final(d).connections@[i].events == old(
            d,
        ).connections@[i].events,
{
    assert(final(c).connections@[i].id == old(c).connections@[i].id);
    assert(final(d).connections@[i].id == old(d).connections@[i].id);
}

/// A client that asks for events gets them from then on beside those it had, and one that asks for no more
/// of them gets none of them; no other client is touched.
pub proof fn client_gets_what_it_asks_for(
    c: &mut ConnectionManager,
    d: &mut ConnectionManager,
    id: ConnId,
    events: Vec<EventType>,
    version: &str,
    a: Action,
    b: Action,
    i: int,
    e: EventType,
)
    requires
        call_ensures(handle, (c, id, Request::Subscribe { events }, version), a),
        call_ensures(handle, (d, id, Request::Unsubscribe { events }, version), b),
        0 <= i < old(c).connections@.len(),
        0 <= i < old(d).connections@.len(),
    ensures
        old(c).connections@[i].id == id ==> (final(c).connections@[i].events.has(e) <==> old(
            c,
        ).connections@[i].events.has(e) || events@.contains(e)),
        old(c).connections@[i].id != id ==> final(c).connections@[i].events == old(
            c,
        ).connections@[i].events,
        old(d).connections@[i].id == id ==> (final(d).connections@[i].events.has(e) <==> old(
            d,
        ).connections@[i].events.has(e) && !events@.contains(e)),
        old(d).connections@[i].id != id ==> final(d).connections@[i].events == old(
            d,
        ).connections@[i].events,
{
    assert(final(c).connections@[i].id == old(c).connections@[i].id);
    assert(final(d).connections@[i].id == old(d).connections@[i].id);
}

/// No other request touches the connections.
pub proof fn other_requests_touch_no_connection(
    c: &mut ConnectionManager,
    id: ConnId,
    request: Request,
    version: &str,
    r: Action,
)
    requires
        call_ensures(handle, (c, id, request, version), r),
        !(request is Subscribe),
        !(request is Unsubscribe),
    ensures
        *final(c) == *old(c),
{
}

} // verus!

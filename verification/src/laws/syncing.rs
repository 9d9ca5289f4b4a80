//! What holds of moving on with a push.
use vstd::prelude::*;
use vstd::arithmetic::power2::{lemma2_to64, pow2};
use crate::laws::searching::says;
use crate::sql::{value_views, SqlView, Statement};
use crate::sync::client::{
    collect_batch, cursor_of, effective_api_key, ends_round, entry_of, greatest_sequence_covers,
    list_syncable_sessions, push_cursors, push_url, pushed_sessions, read_messages,
    without_slashes, BatchStats, PendingPush, SessionSync, SyncStats, SyncStep,
};
use crate::sync::db::{
    device_id_or, get_cursor, get_or_init_device_id, get_vector_cursor, update_cursor,
    update_cursor_with_count,
};
use crate::sync::filter::{path_passes, ProjectFilter, SensitiveWordFilter};
use crate::sync::stream::{authenticate, http_to_ws_url, AuthAck};
use crate::sync::worker::{
    after_ws_send, cools, delay_after, distinct, due, enter_http_fallback, failed_at,
    fallback_wait, must_register, restored_paused, run_http_fallback_once, run_ws_event_loop,
    without_repetition, Failures, StreamOutcome, WorkerAction, WorkerEvent, WorkerLoop,
    WorkerStep,
};
use crate::sync::{
    SyncBatch, SyncChainNode, SyncContinuationChain, SyncCursor, SyncMessage, SyncProject,
    SyncSession, SyncSessionRelation, SyncTalk,
};
use crate::text::{begins_with, views};

verus! {

/// A session begins behind its cursor with nothing pushed. It is done where there is no message left;
/// otherwise its cursor goes to the greatest number of the messages collected, also where the filters
/// leave none of them.
pub proof fn cursor_goes_to_the_last_message(
    s: SessionSync,
    batch: SyncBatch,
    projects: &ProjectFilter,
    words: Option<&SensitiveWordFilter>,
    r: SyncStep,
)
    requires
        call_ensures(SessionSync::collected, (s, batch, projects, words), r),
    ensures
        r is Done <==> batch.messages@.len() == 0,
        r matches SyncStep::Done(stats) ==> stats.messages_pushed == s.messages_pushed
            && stats.messages_skipped == s.messages_skipped,
        r matches SyncStep::Skip(next) ==> {
            &&& forall|i: int|
                0 <= i < batch.messages@.len() ==> (#[trigger] batch.messages@[i]).sequence
                    <= next.cursor
            &&& exists|k: int|
                0 <= k < batch.messages@.len() && (#[trigger] batch.messages@[k]).sequence
                    == next.cursor
            &&& next.messages_pushed == s.messages_pushed
            &&& next.batch_size == s.batch_size
        },
        r matches SyncStep::Push(p) ==> {
            &&& p.state == s
            &&& p.batch.messages@.len() > 0
            &&& forall|i: int|
                0 <= i < batch.messages@.len() ==> (#[trigger] batch.messages@[i]).sequence
                    <= p.next_cursor
            &&& exists|k: int|
                0 <= k < batch.messages@.len() && (#[trigger] batch.messages@[k]).sequence
                    == p.next_cursor
        },
{
    if batch.messages@.len() > 0 {
        greatest_sequence_covers(batch.messages@);
    }
}

/// What the server took is counted, the cursor moves on, and the session is done exactly where fewer
/// messages were pushed than fit into a batch.
pub proof fn push_is_counted(p: PendingPush, accepted: u64, skipped: u64, r: (SessionSync, bool))
    requires
        call_ensures(PendingPush::pushed, (p, accepted, skipped), r),
        p.state.messages_pushed + accepted <= u64::MAX,
        p.state.messages_skipped + skipped <= u64::MAX,
    ensures
        r.0.cursor == p.next_cursor,
        r.0.messages_pushed == p.state.messages_pushed + accepted,
        r.0.messages_skipped == p.state.messages_skipped + skipped,
        r.0.batch_size == p.state.batch_size,
        r.1 <==> p.batch.messages@.len() < p.state.batch_size,
{
}

/// A session starts behind the number kept for it.
pub proof fn session_starts_at_its_cursor(last: i64, size: usize, r: SessionSync)
    requires
        call_ensures(SessionSync::start, (last, size), r),
    ensures
        r.cursor == last,
        r.messages_pushed == 0,
        r.messages_skipped == 0,
        r.batch_size == size,
{
}

/// Every session of a round is counted once, as pushed or as failed, with its messages.
pub proof fn sessions_are_tallied(s: &mut SyncStats, outcome: Option<BatchStats>)
    requires
        call_ensures(SyncStats::record, (s, outcome), ()),
        old(s).sessions_synced < u64::MAX,
        old(s).sessions_failed < u64::MAX,
        outcome is Some ==> old(s).messages_pushed + outcome->0.messages_pushed <= u64::MAX,
        outcome is Some ==> old(s).messages_skipped + outcome->0.messages_skipped <= u64::MAX,
    ensures
        final(s).sessions_synced + final(s).sessions_failed == old(s).sessions_synced
            + old(s).sessions_failed + 1,
        outcome is Some ==> {
            &&& final(s).sessions_synced == old(s).sessions_synced + 1
            &&& final(s).messages_pushed == old(s).messages_pushed + outcome->0.messages_pushed
            &&& final(s).messages_skipped == old(s).messages_skipped + outcome->0.messages_skipped
        },
        outcome is None ==> {
            &&& final(s).sessions_failed == old(s).sessions_failed + 1
            &&& final(s).messages_pushed == old(s).messages_pushed
            &&& final(s).messages_skipped == old(s).messages_skipped
        },
{
}

/// Whether the session has a message.
pub open spec fn speaks(messages: Seq<SyncMessage>, id: Seq<char>) -> bool {
    exists|i: int| 0 <= i < messages.len() && (#[trigger] messages[i]).session_id@ == id
}

proof fn lemma_cursor(messages: Seq<SyncMessage>, id: Seq<char>)
    ensures
        cursor_of(messages, id) is Some <==> speaks(messages, id),
        forall|i: int|
            0 <= i < messages.len() && (#[trigger] messages[i]).session_id@ == id
                ==> messages[i].sequence <= cursor_of(messages, id)->0.last_sequence,
        cursor_of(messages, id) is Some ==> {
            let c = cursor_of(messages, id)->0;
            ||| c.last_sequence == 0 && c.last_timestamp == 0
            ||| exists|i: int|
                0 <= i < messages.len() && (#[trigger] messages[i]).session_id@ == id
                    && messages[i].sequence == c.last_sequence && messages[i].timestamp
                    == c.last_timestamp
        },
    decreases messages.len(),
{
    if messages.len() > 0 {
        let d = messages.drop_last();
        lemma_cursor(d, id);
        assert forall|i: int| 0 <= i < d.len() implies #[trigger] messages[i] == d[i] by {}
        let n = messages.len() - 1;
        assert(messages.last() == messages[n]);
        if speaks(d, id) {
            let i = choose|i: int| 0 <= i < d.len() && (#[trigger] d[i]).session_id@ == id;
            assert(messages[i].session_id@ == id);
            let c = cursor_of(d, id)->0;
            if !(c.last_sequence == 0 && c.last_timestamp == 0) {
                let k = choose|k: int|
                    0 <= k < d.len() && (#[trigger] d[k]).session_id@ == id && d[k].sequence
                        == c.last_sequence && d[k].timestamp == c.last_timestamp;
                assert(messages[k].session_id@ == id);
            }
        }
    }
}

/// A push names a cursor for each session that has a message in it and for no other: the greatest
/// number of its messages, with the time of that message; none is below zero.
pub proof fn push_names_its_cursors(
    messages: &Vec<SyncMessage>,
    r: Vec<(String, SyncCursor)>,
    id: Seq<char>,
)
    requires
        call_ensures(push_cursors, (messages,), r),
    ensures
        entry_of(r@, id) is Some <==> speaks(messages@, id),
        forall|i: int|
            0 <= i < messages@.len() && (#[trigger] messages@[i]).session_id@ == id
                ==> messages@[i].sequence <= entry_of(r@, id)->0.last_sequence,
        entry_of(r@, id) is Some ==> {
            let c = entry_of(r@, id)->0;
            ||| c.last_sequence == 0 && c.last_timestamp == 0
            ||| exists|i: int|
                0 <= i < messages@.len() && (#[trigger] messages@[i]).session_id@ == id
                    && messages@[i].sequence == c.last_sequence && messages@[i].timestamp
                    == c.last_timestamp
        },
{
    lemma_cursor(messages@, id);
}

proof fn lemma_pushed_filtered(f: ProjectFilter, all: Seq<(String, String)>)
    ensures
        pushed_sessions(f, all) == all.filter(
            |s: (String, String)| path_passes(f.allow_globs(), f.deny_globs(), s.1@),
        ),
    decreases all.len(),
{
    reveal(Seq::filter);
    if all.len() > 0 {
        lemma_pushed_filtered(f, all.drop_last());
    }
    assert(pushed_sessions(f, all) =~= all.filter(
        |s: (String, String)| path_passes(f.allow_globs(), f.deny_globs(), s.1@),
    ));
}

/// The sessions that are pushed are those whose project passes, in their order.
pub proof fn sessions_of_pushed_projects_are_pushed(
    f: &ProjectFilter,
    all: Vec<(String, String)>,
    r: Vec<(String, String)>,
)
    requires
        call_ensures(list_syncable_sessions, (f, all), r),
    ensures
        r@ == all@.filter(
            |s: (String, String)| path_passes(f.allow_globs(), f.deny_globs(), s.1@),
        ),
{
    lemma_pushed_filtered(*f, all@);
}

/// The messages of a push are asked for behind the cursor, at most a batch of them; their raw form only
/// where it is to be pushed.
pub proof fn messages_are_read_behind_the_cursor(
    session_id: &str,
    after: i64,
    sync_raw: bool,
    size: usize,
    r: Statement,
    other: Statement,
)
    requires
        call_ensures(read_messages, (session_id, after, sync_raw, size), r),
        call_ensures(read_messages, (session_id, after, !sync_raw, size), other),
    ensures
        value_views(r.params@) == seq![
            SqlView::Text(session_id@),
            SqlView::Integer(after),
            SqlView::Integer(size as i64),
        ],
        says(
            r.sql@,
            if sync_raw {
                "raw"@
            } else {
                "NULL"@
            },
        ),
        r.sql@.len() != other.sql@.len(),
{
    let middle = if sync_raw {
        "raw"@
    } else {
        "NULL"@
    };
    reveal_strlit("raw");
    reveal_strlit("NULL");
    assert(r.sql@ == crate::sync::client::SYNC_MESSAGES_SELECT@ + middle
        + crate::sync::client::SYNC_MESSAGES_FROM@);
}

proof fn lemma_slashes_cut(s: Seq<char>)
    requires
        s.len() == 0 || s.last() != '/',
    ensures
        without_slashes(s) == s,
        without_slashes(s.push('/')) == s,
{
    assert(s.push('/').drop_last() =~= s);
}

/// The addresses of a server: a push goes to its path below the server, and the stream to its own, as
/// secure as the server's address; a slash at the end of that makes no difference.
pub proof fn server_has_its_addresses(
    plain: &str,
    slashed: &str,
    host: Seq<char>,
    push: String,
    push_slashed: String,
    stream: String,
    stream_slashed: String,
)
    requires
        host.len() > 0 && host.last() != '/',
        plain@ == "https://"@ + host || plain@ == "http://"@ + host,
        slashed@ == plain@.push('/'),
        call_ensures(push_url, (plain,), push),
        call_ensures(push_url, (slashed,), push_slashed),
        call_ensures(http_to_ws_url, (plain,), stream),
        call_ensures(http_to_ws_url, (slashed,), stream_slashed),
    ensures
        push@ == plain@ + "/api/sync/push"@,
        push_slashed@ == push@,
        plain@ == "https://"@ + host ==> stream@ == "wss://"@ + host + "/api/sync/stream"@,
        plain@ == "http://"@ + host ==> stream@ == "ws://"@ + host + "/api/sync/stream"@,
        stream_slashed@ == stream@,
{
    reveal_strlit("https://");
    reveal_strlit("http://");
    assert(plain@.last() == host.last());
    lemma_slashes_cut(plain@);
    if plain@ == "https://"@ + host {
        assert(plain@.subrange(0, 8) =~= "https://"@);
        assert(plain@.skip(8) =~= host);
        assert(plain@[4] == 's');
        if begins_with(plain@, "http://"@) {
            assert(plain@.subrange(0, 7)[4] == plain@[4]);
        }
    } else {
        assert(plain@.subrange(0, 7) =~= "http://"@);
        assert(plain@.skip(7) =~= host);
        assert(plain@[4] == ':');
        if begins_with(plain@, "https://"@) {
            assert(plain@.subrange(0, 8)[4] == plain@[4]);
        }
    }
}

/// The key that is configured is used; the one that was kept only where none is configured.
pub proof fn configured_key_prevails(configured: &str, kept: Option<String>, r: Option<String>)
    requires
        call_ensures(effective_api_key, (configured, kept), r),
    ensures
        configured@.len() > 0 ==> r is Some && r->0@ == configured@,
        configured@.len() == 0 && kept is Some ==> r is Some && r->0@ == kept->0@,
        configured@.len() == 0 && kept is None ==> r is None,
{
}

/// A stream is authenticated exactly where the server accepts it.
pub proof fn stream_is_authenticated_by_acceptance(ack: AuthAck, r: Result<String, String>)
    requires
        call_ensures(authenticate, (ack,), r),
    ensures
        r is Ok <==> ack is Accepted,
        ack matches AuthAck::Accepted { server_version } ==> r->Ok_0 == server_version,
{
}

/// A session without a cursor has pushed nothing.
pub proof fn missing_cursor_is_zero(row: Option<(i64, i64)>, r: (i64, i64))
    requires
        call_ensures(get_cursor, (row,), r),
    ensures
        row is Some ==> r == row->0,
        row is None ==> r == (0i64, 0i64),
{
}

/// The identity of a device is made once and kept.
pub proof fn device_keeps_its_identity(
    kept: Option<String>,
    fresh: String,
    first: (String, bool),
    again: (String, bool),
    other: String,
)
    requires
        call_ensures(device_id_or, (kept, fresh), first),
        call_ensures(device_id_or, (Some(first.0), other), again),
    ensures
        again.0 == first.0,
        !again.1,
        first.1 <==> kept is None,
        kept is Some ==> first.0 == kept->0,
        kept is None ==> first.0 == fresh,
{
}

proof fn lemma_distinct(ids: Seq<Seq<char>>)
    ensures
        without_repetition(ids).no_duplicates(),
        forall|id: Seq<char>| #[trigger]
            without_repetition(ids).contains(id) <==> ids.contains(id),
    decreases ids.len(),
{
    if ids.len() > 0 {
        let d = ids.drop_last();
        let p = without_repetition(d);
        let q = without_repetition(ids);
        lemma_distinct(d);
        assert forall|id: Seq<char>| #[trigger] q.contains(id) <==> ids.contains(id) by {
            if q.contains(id) {
                let k = choose|k: int| 0 <= k < q.len() && q[k] == id;
                if k < p.len() {
                    assert(p[k] == id);
                    assert(p.contains(id));
                    let i = choose|i: int| 0 <= i < d.len() && d[i] == id;
                    assert(ids[i] == id);
                } else {
                    assert(ids[ids.len() - 1] == id);
                }
            }
            if ids.contains(id) {
                let i = choose|i: int| 0 <= i < ids.len() && ids[i] == id;
                if i < d.len() {
                    assert(d[i] == id);
                    assert(p.contains(id) <==> d.contains(id));
                    let k = choose|k: int| 0 <= k < p.len() && p[k] == id;
                    assert(q[k] == id);
                } else if p.contains(id) {
                    let k = choose|k: int| 0 <= k < p.len() && p[k] == id;
                    assert(q[k] == id);
                } else {
                    assert(q[q.len() - 1] == id);
                }
            }
        }
        assert forall|j: int, k: int| 0 <= j < q.len() && 0 <= k < q.len() && j != k implies q[j]
            != q[k] by {
            if j < p.len() && k < p.len() {
                assert(q[j] == p[j] && q[k] == p[k]);
            } else if j < p.len() {
                assert(p[j] == q[j]);
                assert(p.contains(q[j]));
            } else {
                assert(p[k] == q[k]);
                assert(p.contains(q[k]));
            }
        }
    }
}

proof fn lemma_due(entries: Seq<(String, u64)>, ids: Seq<Seq<char>>, now: u64)
    ensures
        due(entries, ids, now) == ids.filter(|id: Seq<char>| !cools(entries, id, now)),
    decreases ids.len(),
{
    reveal(Seq::filter);
    if ids.len() > 0 {
        lemma_due(entries, ids.drop_last(), now);
    }
    assert(due(entries, ids, now) =~= ids.filter(|id: Seq<char>| !cools(entries, id, now)));
}

/// A session is pushed again exactly once a minute has passed since it failed last, and at once where it
/// has not failed.
pub proof fn failed_session_rests_a_minute(f: &Failures, id: &str, now: u64, r: bool)
    requires
        call_ensures(Failures::in_cooldown, (f, id, now), r),
    ensures
        failed_at(f.entries@, id@) is None ==> !r,
        failed_at(f.entries@, id@) matches Some(at) ==> (r <==> now < at + 60_000_000_000),
{
}

/// A failure counts from when it happened; a success forgets it.
pub proof fn failures_are_remembered(f: &mut Failures, g: &mut Failures, id: &str, now: u64)
    requires
        call_ensures(Failures::failed, (f, id, now), ()),
        call_ensures(Failures::succeeded, (g, id), ()),
    ensures
        failed_at(final(f).entries@, id@) == Some(now),
        failed_at(final(g).entries@, id@) is None,
{
}

/// Of the sessions that are asked for, those are due that do not rest, each once.
pub proof fn due_sessions_do_not_rest(f: &Failures, ids: &Vec<String>, now: u64, r: Vec<String>)
    requires
        call_ensures(Failures::due_sessions, (f, ids, now), r),
    ensures
        forall|id: Seq<char>| #[trigger]
            views(r@).contains(id) <==> views(ids@).contains(id) && match failed_at(
                f.entries@,
                id,
            ) {
                Some(at) => now >= at + 60_000_000_000,
                None => true,
            },
{
    let once = without_repetition(views(ids@));
    lemma_distinct(views(ids@));
    assert forall|id: Seq<char>| #[trigger]
        views(r@).contains(id) <==> views(ids@).contains(id) && match failed_at(f.entries@, id) {
            Some(at) => now >= at + 60_000_000_000,
            None => true,
        } by {
        crate::sync::worker::due_is_reported(f.entries@, once, id, now);
        assert(once.contains(id) <==> views(ids@).contains(id));
    }
}

/// What a stream does with sessions that are asked for: it pushes each once, and nothing while it is
/// paused; it pushes all when the time has come, and sends a sign of life whether paused or not.
pub proof fn stream_pushes_what_is_asked_for(
    event: &Option<WorkerEvent>,
    ids: Vec<String>,
    paused: bool,
    r: WorkerStep,
)
    requires
        call_ensures(run_ws_event_loop, (event, paused), r),
    ensures
        *event == Some(WorkerEvent::Triggered(ids)) && !paused ==> {
            &&& r is PushSessions
            &&& views(r->PushSessions_0@).no_duplicates()
            &&& forall|id: Seq<char>| #[trigger]
                views(r->PushSessions_0@).contains(id) <==> views(ids@).contains(id)
        },
        event is Some && event->0 is Periodic && !paused ==> r is PushAll,
        event is Some && event->0 is Shutdown ==> r is Exit,
        event is Some && event->0 is Heartbeat ==> r is SendHeartbeat,
        paused ==> !(r is PushSessions) && !(r is PushAll),
        event is None && paused ==> r is Leave,
        event is None && !paused ==> r is Wait,
{
    lemma_distinct(views(ids@));
}

/// While the stream is down, sessions that are asked for are pushed each once, and the fallback ends
/// when its time is over or a pause begins.
pub proof fn fallback_pushes_what_is_asked_for(
    event: &Option<WorkerEvent>,
    ids: Vec<String>,
    paused: bool,
    remaining: u64,
    r: WorkerStep,
)
    requires
        call_ensures(run_http_fallback_once, (event, paused, remaining), r),
    ensures
        *event == Some(WorkerEvent::Triggered(ids)) ==> {
            &&& r is PushSessions
            &&& views(r->PushSessions_0@).no_duplicates()
            &&& forall|id: Seq<char>| #[trigger]
                views(r->PushSessions_0@).contains(id) <==> views(ids@).contains(id)
        },
        event is Some && event->0 is Periodic && !paused ==> r is PushAll,
        event is Some && event->0 is Periodic && paused ==> r is Wait,
        event is Some && event->0 is Shutdown ==> r is Exit,
        event is None && remaining == 0 ==> r is Leave,
        event is None && paused ==> r is Leave,
        event is None && remaining > 0 && !paused ==> r is Wait,
{
    lemma_distinct(views(ids@));
}

/// The fallback waits for the shorter of what is left of it and the interval.
pub proof fn fallback_waits_no_longer_than_it_may(remaining: u64, interval: u64, r: u64)
    requires
        call_ensures(fallback_wait, (remaining, interval), r),
    ensures
        r <= remaining,
        r <= interval,
        r == remaining || r == interval,
{
}

/// The delay before the stream is opened again doubles with every failure, from a second to a minute.
pub proof fn delay_doubles_up_to_a_minute(failures: nat)
    ensures
        failures < 6 ==> delay_after(failures) == pow2(failures),
        failures >= 6 ==> delay_after(failures) == 60,
    decreases failures,
{
    lemma2_to64();
    reveal_with_fuel(delay_after, 8);
    if failures > 6 {
        delay_doubles_up_to_a_minute((failures - 1) as nat);
    }
}

/// A stream that was up and broke down is opened again after a second; one that could not be opened
/// after the delay that has grown; and a shutdown ends the worker.
pub proof fn broken_stream_is_opened_again(w: &mut WorkerLoop, outcome: StreamOutcome, r: WorkerAction)
    requires
        call_ensures(WorkerLoop::after_stream, (w, outcome), r),
    ensures
        outcome is Shutdown ==> r is Exit,
        outcome is Disconnected ==> final(w).reconnect_delay == 1 && r
            == WorkerAction::Fallback(1),
        outcome !is Shutdown && outcome !is Disconnected ==> final(w).reconnect_delay
            == old(w).reconnect_delay && r == WorkerAction::Fallback(old(w).reconnect_delay),
{
}

/// After each fallback the delay is twice as long, but never more than a minute.
pub proof fn delay_grows(w: &mut WorkerLoop, r: bool)
    requires
        call_ensures(WorkerLoop::after_fallback, (w, false), r),
    ensures
        r,
        old(w).reconnect_delay <= 30 ==> final(w).reconnect_delay == 2 * old(w).reconnect_delay,
        old(w).reconnect_delay > 30 ==> final(w).reconnect_delay == 60,
{
}

/// What a worker does next: it ends on a shutdown, rests while paused, opens a stream where it has a
/// key, and does without one where it has none.
pub proof fn worker_opens_a_stream_with_a_key(
    w: &WorkerLoop,
    shutdown: bool,
    paused: bool,
    key: bool,
    r: WorkerAction,
)
    requires
        call_ensures(WorkerLoop::next_round, (w, shutdown, paused, key), r),
    ensures
        r is Exit <==> shutdown,
        r is Sleep <==> !shutdown && paused,
        r is OpenStream <==> !shutdown && !paused && key,
        r is HttpOnly <==> !shutdown && !paused && !key,
{
}

/// A pause outlasts the process exactly where it was kept as `true`.
pub proof fn pause_is_restored(kept: &Option<String>, r: bool)
    requires
        call_ensures(restored_paused, (kept,), r),
    ensures
        r <==> kept is Some && kept->0@ == "true"@,
{
}

/// A batch holds what was read for it, each in its own place.
pub proof fn batch_holds_what_was_read(
    project: Option<SyncProject>,
    session: Option<SyncSession>,
    messages: Vec<SyncMessage>,
    relations: Vec<SyncSessionRelation>,
    chains: Vec<SyncContinuationChain>,
    nodes: Vec<SyncChainNode>,
    talks: Vec<SyncTalk>,
    r: SyncBatch,
)
    requires
        call_ensures(
            collect_batch,
            (project, session, messages, relations, chains, nodes, talks),
            r,
        ),
    ensures
        project is Some ==> r.projects@ == seq![project->0],
        project is None ==> r.projects@.len() == 0,
        session is Some ==> r.sessions@ == seq![session->0],
        session is None ==> r.sessions@.len() == 0,
        r.messages@ == messages@,
        r.session_relations@ == relations@,
        r.continuation_chains@ == chains@,
        r.chain_nodes@ == nodes@,
        r.talks@ == talks@,
{
}

/// A failure ends a round only over a stream.
pub proof fn failure_over_a_stream_ends_the_round(failed: bool, stream: bool, r: bool)
    requires
        call_ensures(ends_round, (failed, stream), r),
    ensures
        r <==> failed && stream,
{
}

/// A cursor is written with the session, the number and the time, each in its own place.
pub proof fn cursor_is_written(
    id: &str,
    last: i64,
    now: i64,
    count: i64,
    a: Statement,
    b: Statement,
)
    requires
        call_ensures(update_cursor, (id, last, now), a),
        call_ensures(update_cursor_with_count, (id, last, now, count), b),
    ensures
        a.params@.len() == 3,
        a.params@[0]@ == SqlView::Text(id@),
        a.params@[1]@ == SqlView::Integer(last),
        a.params@[2]@ == SqlView::Integer(now),
        b.params@.len() == 4,
        b.params@[0]@ == SqlView::Text(id@),
        b.params@[1]@ == SqlView::Integer(last),
        b.params@[2]@ == SqlView::Integer(now),
        b.params@[3]@ == SqlView::Integer(count),
{
    let v = value_views(a.params@);
    let w = value_views(b.params@);
    assert(v.len() == a.params@.len() && w.len() == b.params@.len());
    assert(v[0] == a.params@[0]@ && v[1] == a.params@[1]@ && v[2] == a.params@[2]@);
    assert(w[0] == b.params@[0]@ && w[1] == b.params@[1]@ && w[2] == b.params@[2]@ && w[3]
        == b.params@[3]@);
}

/// A device that has an identity keeps it, and only a new one is to be stored.
pub proof fn device_is_named_once(kept: Option<String>, r: (String, bool))
    requires
        call_ensures(get_or_init_device_id, (kept,), r),
    ensures
        kept is Some ==> r.0@ == kept->0@ && !r.1,
        kept is None ==> r.1,
{
}

/// A session that was never put into the index starts at its beginning.
pub proof fn missing_place_in_the_index_is_zero(row: Option<i64>, r: i64)
    requires
        call_ensures(get_vector_cursor, (row,), r),
    ensures
        row is Some ==> r == row->0,
        row is None ==> r == 0,
{
}

/// A stream that could not be written to is left, and without a pause a fallback begins by pushing all.
pub proof fn broken_stream_is_left(sent: bool, paused: bool, a: WorkerStep, b: WorkerStep)
    requires
        call_ensures(after_ws_send, (sent,), a),
        call_ensures(enter_http_fallback, (paused,), b),
    ensures
        a is Wait <==> sent,
        a is Leave <==> !sent,
        b is PushAll <==> !paused,
        b is Wait <==> paused,
{
}

/// A device registers exactly where it has no key, but a name and the key to register with.
pub proof fn device_without_a_key_registers(has_key: bool, master: &str, name: &str, r: bool)
    requires
        call_ensures(must_register, (has_key, master, name), r),
    ensures
        r <==> !has_key && master@.len() > 0 && name@.len() > 0,
{
}

/// Sessions that were reported are pushed each once, and none is forgotten.
pub proof fn reported_sessions_are_pushed_once(ids: &Vec<String>, r: Vec<String>, id: Seq<char>)
    requires
        call_ensures(distinct, (ids,), r),
    ensures
        views(r@).contains(id) <==> views(ids@).contains(id),
        views(r@).no_duplicates(),
{
    lemma_distinct(views(ids@));
}

/// Without a stream, sessions that are reported are pushed each once unless they rest, all are pushed from
/// time to time and their failures forgotten then, and nothing is pushed in a pause.
pub proof fn sessions_are_pushed_without_a_stream(
    failures: &mut Failures,
    event: &Option<WorkerEvent>,
    ids: Vec<String>,
    paused: bool,
    now: u64,
    r: WorkerStep,
)
    requires
        call_ensures(Failures::run_http_event_loop, (failures, event, paused, now), r),
    ensures
        event is Some && event->0 is Shutdown ==> r is Exit,
        event is Some && event->0 is Periodic && !paused ==> r is PushAll
            && final(failures).entries@.len() == 0,
        event is Some && event->0 is Periodic && paused ==> r is Wait,
        *event == Some(WorkerEvent::Triggered(ids)) && paused ==> r is Wait,
        *event == Some(WorkerEvent::Triggered(ids)) && !paused ==> {
            &&& r is PushSessions
            &&& views(r->PushSessions_0@) == due(
                old(failures).entries@,
                without_repetition(views(ids@)),
                now,
            )
        },
        event is None && paused ==> r is Sleep,
        event is None && !paused ==> r is Wait,
        !(event is Some && event->0 is Periodic) ==> *final(failures) == *old(failures),
        paused ==> !(r is PushSessions) && !(r is PushAll),
{
}

/// A cursor that is named for a session is the one that is found for it, and for no other.
pub proof fn named_cursor_is_found(
    pairs: Seq<(String, SyncCursor)>,
    key: String,
    c: SyncCursor,
    other: Seq<char>,
)
    ensures
        entry_of(pairs.push((key, c)), key@) == Some(c),
        other != key@ ==> entry_of(pairs.push((key, c)), other) == entry_of(pairs, other),
        entry_of(Seq::empty(), other) is None,
{
    assert(pairs.push((key, c)).drop_last() =~= pairs);
}

} // verus!

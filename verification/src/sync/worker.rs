//! When the store is pushed: over a stream while there is one, otherwise by single
//! requests until the next attempt to open one.
use vstd::prelude::*;
use crate::host::{expand_tilde, expands};
use crate::sync::SyncConfig;
use crate::text::{holds_text, same_text, views};

verus! {

/// The time between two heartbeats on the stream, in seconds.
pub const HEARTBEAT_INTERVAL: u64 = 90;

/// The shortest wait before the stream is opened again, in seconds.
pub const RECONNECT_BASE: u64 = 1;

/// The longest wait before the stream is opened again, in seconds.
pub const RECONNECT_CAP: u64 = 60;

/// How long a session whose push failed is left alone, in nanoseconds.
pub const FAILURE_COOLDOWN: u64 = 60_000_000_000;

/// How long a worker that is paused sleeps, in seconds.
pub const PAUSE_SLEEP: u64 = 5;

/// What a worker does next.
#[derive(Debug, Clone, Copy, PartialEq, Eq, Structural)]
pub enum WorkerAction {
    /// Ends.
    Exit,
    /// Sleeps for a while.
    Sleep,
    /// Pushes by single requests for good: without a key there is no stream.
    HttpOnly,
    /// Opens the stream.
    OpenStream,
    /// Pushes by single requests for so many seconds.
    Fallback(u64),
}

/// How an attempt at the stream ended.
#[derive(Debug, Clone, Copy, PartialEq, Eq, Structural)]
pub enum StreamOutcome {
    /// It could not be opened.
    ConnectFailed,
    /// The server refused the client.
    AuthFailed,
    /// It was open, and broke off.
    Disconnected,
    /// It was open until the worker was told to end.
    Shutdown,
}

/// A worker between two attempts at the stream.
#[derive(Debug, Clone, Copy, PartialEq, Eq, Structural)]
pub struct WorkerLoop {
    /// The wait before the next attempt, in seconds.
    pub reconnect_delay: u64,
}

impl WorkerLoop {
    /// That the wait is between the shortest and the longest.
    pub open spec fn wf(self) -> bool {
        RECONNECT_BASE <= self.reconnect_delay <= RECONNECT_CAP
    }

    /// A worker that has not tried the stream yet.
    pub fn new() -> (r: WorkerLoop)
        ensures
            r.wf(),
            r.reconnect_delay == RECONNECT_BASE,
    {
        WorkerLoop { reconnect_delay: RECONNECT_BASE }
    }

    /// What the worker does at the beginning of a round.
    pub fn next_round(&self, shutdown: bool, paused: bool, has_api_key: bool) -> (r: WorkerAction)
        ensures
            r == if shutdown {
                WorkerAction::Exit
            } else if paused {
                WorkerAction::Sleep
            } else if !has_api_key {
                WorkerAction::HttpOnly
            } else {
                WorkerAction::OpenStream
            },
    {
        if shutdown {
            WorkerAction::Exit
        } else if paused {
            WorkerAction::Sleep
        } else if !has_api_key {
            WorkerAction::HttpOnly
        } else {
            WorkerAction::OpenStream
        }
    }

    /// What the worker does after an attempt at the stream. Once the stream was open, the wait is
    /// the shortest again.
    pub fn after_stream(&mut self, outcome: StreamOutcome) -> (r: WorkerAction)
        requires
            old(self).wf(),
        ensures
            final(self).wf(),
            match outcome {
                StreamOutcome::Shutdown => r == WorkerAction::Exit && *final(self) == *old(self),
                StreamOutcome::Disconnected => {
                    &&& final(self).reconnect_delay == RECONNECT_BASE
                    &&& r == WorkerAction::Fallback(RECONNECT_BASE)
                },
                _ => {
                    &&& *final(self) == *old(self)
                    &&& r == WorkerAction::Fallback(old(self).reconnect_delay)
                },
            },
    {
        match outcome {
            StreamOutcome::Shutdown => WorkerAction::Exit,
            StreamOutcome::Disconnected => {
                self.reconnect_delay = RECONNECT_BASE;
                WorkerAction::Fallback(self.reconnect_delay)
            },
            _ => WorkerAction::Fallback(self.reconnect_delay),
        }
    }

    /// Goes on after pushing by single requests, unless told to end: the next wait is twice as
    /// long, up to the longest.
    pub fn after_fallback(&mut self, shutdown: bool) -> (r: bool)
        requires
            old(self).wf(),
        ensures
            r == !shutdown,
            final(self).wf(),
            if shutdown {
                *final(self) == *old(self)
            } else if old(self).reconnect_delay * 2 <= RECONNECT_CAP {
                final(self).reconnect_delay == old(self).reconnect_delay * 2
            } else {
                final(self).reconnect_delay == RECONNECT_CAP
            },
    {
        if shutdown {
            return false;
        }
        let doubled: u64 = self.reconnect_delay * 2;
        self.reconnect_delay = if doubled <= RECONNECT_CAP {
            doubled
        } else {
            RECONNECT_CAP
        };
        true
    }
}

/// The wait after a number of failed attempts in a row.
pub open spec fn delay_after(failures: nat) -> nat
    decreases failures,
{
    if failures == 0 {
        RECONNECT_BASE as nat
    } else {
        let d = delay_after((failures - 1) as nat) * 2;
        if d <= RECONNECT_CAP {
            d
        } else {
            RECONNECT_CAP as nat
        }
    }
}

/// From the sixth failure in a row on, the wait is the longest.
pub proof fn delay_reaches_the_cap(failures: nat)
    requires
        failures >= 6,
    ensures
        delay_after(failures) == RECONNECT_CAP,
    decreases failures,
{
    if failures == 6 {
        reveal_with_fuel(delay_after, 7);
    } else {
        delay_reaches_the_cap((failures - 1) as nat);
    }
}

/// The sessions whose push failed, with the time of the failure in seconds.
#[derive(Debug, Clone)]
pub struct Failures {
    pub entries: Vec<(String, u64)>,
}

/// When the push of a session failed last.
pub open spec fn failed_at(entries: Seq<(String, u64)>, id: Seq<char>) -> Option<u64>
    decreases entries.len(),
{
    if entries.len() == 0 {
        None
    } else if entries.last().0@ == id {
        Some(entries.last().1)
    } else {
        failed_at(entries.drop_last(), id)
    }
}

/// The failures of all sessions but one.
pub open spec fn others(entries: Seq<(String, u64)>, id: Seq<char>) -> Seq<(String, u64)>
    decreases entries.len(),
{
    if entries.len() == 0 {
        seq![]
    } else if entries.last().0@ == id {
        others(entries.drop_last(), id)
    } else {
        others(entries.drop_last(), id).push(entries.last())
    }
}

proof fn lemma_others(entries: Seq<(String, u64)>, id: Seq<char>, key: Seq<char>)
    ensures
        failed_at(others(entries, id), key) == if key == id {
            None
        } else {
            failed_at(entries, key)
        },
    decreases entries.len(),
{
    if entries.len() > 0 {
        lemma_others(entries.drop_last(), id, key);
        if entries.last().0@ != id {
            assert(others(entries, id).drop_last() =~= others(entries.drop_last(), id));
        }
    }
}

impl Failures {
    /// No failures.
    pub fn new() -> (r: Failures)
        ensures
            r.entries@.len() == 0,
    {
        Failures { entries: Vec::new() }
    }

    /// Whether a session is left alone, because its push failed a moment ago. Times are those of a
    /// clock that only moves forward, in nanoseconds.
    pub fn in_cooldown(&self, id: &str, now: u64) -> (r: bool)
        ensures
            r == cools(self.entries@, id@, now),
    {
        let mut i: usize = self.entries.len();
        assert(self.entries@.take(i as int) =~= self.entries@);
        while i > 0
            invariant
                i <= self.entries@.len(),
                failed_at(self.entries@, id@) == failed_at(self.entries@.take(i as int), id@),
            decreases i,
        {
            assert(self.entries@.take(i as int).drop_last() =~= self.entries@.take(i - 1));
            i -= 1;
            if same_text(self.entries[i].0.as_str(), id) {
                let at = self.entries[i].1;
                return now < at || now - at < FAILURE_COOLDOWN;
            }
        }
        false
    }

    /// Forgets the failure of a session.
    pub fn succeeded(&mut self, id: &str)
        ensures
            failed_at(final(self).entries@, id@) is None,
            forall|key: Seq<char>| #[trigger]
                failed_at(final(self).entries@, key) == if key == id@ {
                    None
                } else {
                    failed_at(old(self).entries@, key)
                },
    {
        let mut kept: Vec<(String, u64)> = Vec::new();
        let mut i: usize = 0;
        assert(self.entries@.take(0) =~= Seq::<(String, u64)>::empty());
        while i < self.entries.len()
            invariant
                i <= self.entries@.len(),
                self.entries@ == old(self).entries@,
                kept@ == others(self.entries@.take(i as int), id@),
            decreases self.entries@.len() - i,
        {
            assert(self.entries@.take(i + 1).drop_last() =~= self.entries@.take(i as int));
            if !same_text(self.entries[i].0.as_str(), id) {
                kept.push((self.entries[i].0.clone(), self.entries[i].1));
            }
            i += 1;
        }
        assert(self.entries@.take(self.entries@.len() as int) =~= self.entries@);
        self.entries = kept;
        assert forall|key: Seq<char>| #[trigger]
            failed_at(self.entries@, key) == if key == id@ {
                None
            } else {
                failed_at(old(self).entries@, key)
            } by {
            lemma_others(old(self).entries@, id@, key);
        }
    }

    /// Remembers that the push of a session failed, and when, in nanoseconds.
    pub fn failed(&mut self, id: &str, now: u64)
        ensures
            failed_at(final(self).entries@, id@) == Some(now),
            forall|key: Seq<char>| #[trigger]
                failed_at(final(self).entries@, key) == if key == id@ {
                    Some(now)
                } else {
                    failed_at(old(self).entries@, key)
                },
    {
        self.succeeded(id);
        let ghost before = self.entries@;
        self.entries.push((id.to_owned(), now));
        assert(self.entries@.drop_last() =~= before);
        assert forall|key: Seq<char>| #[trigger]
            failed_at(self.entries@, key) == if key == id@ {
                Some(now)
            } else {
                failed_at(old(self).entries@, key)
            } by {
            assert(failed_at(before, key) == if key == id@ {
                None
            } else {
                failed_at(old(self).entries@, key)
            });
        }
    }
}

/// The ids without repetition, in the order in which they come first.
pub open spec fn without_repetition(ids: Seq<Seq<char>>) -> Seq<Seq<char>>
    decreases ids.len(),
{
    if ids.len() == 0 {
        seq![]
    } else {
        let p = without_repetition(ids.drop_last());
        if p.contains(ids.last()) {
            p
        } else {
            p.push(ids.last())
        }
    }
}

/// The sessions that were reported as changed, each once.
pub fn distinct(ids: &Vec<String>) -> (r: Vec<String>)
    ensures
        views(r@) == without_repetition(views(ids@)),
{
    let ghost texts = views(ids@);
    let mut r: Vec<String> = Vec::new();
    let mut i: usize = 0;
    assert(texts.take(0) =~= Seq::<Seq<char>>::empty());
    assert(views(r@) =~= Seq::<Seq<char>>::empty());
    while i < ids.len()
        invariant
            i <= ids@.len(),
            texts == views(ids@),
            views(r@) == without_repetition(texts.take(i as int)),
        decreases ids@.len() - i,
    {
        assert(texts.take(i + 1).drop_last() =~= texts.take(i as int));
        assert(texts[i as int] == ids@[i as int]@);
        if !holds_text(&r, ids[i].as_str()) {
            let ghost before = r@;
            r.push(ids[i].clone());
            assert(views(r@) =~= views(before).push(ids@[i as int]@));
        }
        i += 1;
    }
    assert(texts.take(texts.len() as int) =~= texts);
    r
}

/// What a worker that pushes is waiting for.
#[derive(Debug, Clone)]
pub enum WorkerEvent {
    /// It is told to end.
    Shutdown,
    /// Sessions are reported as changed.
    Triggered(Vec<String>),
    /// The time for a full round has come.
    Periodic,
    /// The time for a heartbeat has come.
    Heartbeat,
}

/// What a worker that pushes does next.
#[derive(Debug, Clone)]
pub enum WorkerStep {
    /// Ends.
    Exit,
    /// Gives up the way of pushing, but does not end.
    Leave,
    /// Sleeps for a while.
    Sleep,
    /// Waits for what comes next.
    Wait,
    /// Pushes these sessions.
    PushSessions(Vec<String>),
    /// Pushes all sessions.
    PushAll,
    /// Sends a heartbeat.
    SendHeartbeat,
}

/// What a worker on the stream does. Before it waits, there is no event yet.
pub fn run_ws_event_loop(event: &Option<WorkerEvent>, paused: bool) -> (r: WorkerStep)
    ensures
        match event {
            None => r == if paused {
                WorkerStep::Leave
            } else {
                WorkerStep::Wait
            },
            Some(WorkerEvent::Shutdown) => r == WorkerStep::Exit,
            Some(WorkerEvent::Triggered(ids)) => if paused {
                r == WorkerStep::Wait
            } else {
                r matches WorkerStep::PushSessions(s) && views(s@) == without_repetition(
                    views(ids@),
                )
            },
            Some(WorkerEvent::Periodic) => r == if paused {
                WorkerStep::Wait
            } else {
                WorkerStep::PushAll
            },
            Some(WorkerEvent::Heartbeat) => r == WorkerStep::SendHeartbeat,
        },
{
    match event {
        None => if paused {
            WorkerStep::Leave
        } else {
            WorkerStep::Wait
        },
        Some(WorkerEvent::Shutdown) => WorkerStep::Exit,
        Some(WorkerEvent::Triggered(ids)) => if paused {
            WorkerStep::Wait
        } else {
            WorkerStep::PushSessions(distinct(ids))
        },
        Some(WorkerEvent::Periodic) => if paused {
            WorkerStep::Wait
        } else {
            WorkerStep::PushAll
        },
        Some(WorkerEvent::Heartbeat) => WorkerStep::SendHeartbeat,
    }
}

/// What a worker on the stream does once it has sent: where that failed, it leaves the stream.
pub fn after_ws_send(sent: bool) -> (r: WorkerStep)
    ensures
        r == if sent {
            WorkerStep::Wait
        } else {
            WorkerStep::Leave
        },
{
    if sent {
        WorkerStep::Wait
    } else {
        WorkerStep::Leave
    }
}

/// Whether a session is left alone at a time.
pub open spec fn cools(entries: Seq<(String, u64)>, id: Seq<char>, now: u64) -> bool {
    match failed_at(entries, id) {
        Some(at) => now - at < FAILURE_COOLDOWN,
        None => false,
    }
}

/// The ids that are not left alone at a time.
pub open spec fn due(entries: Seq<(String, u64)>, ids: Seq<Seq<char>>, now: u64) -> Seq<Seq<char>>
    decreases ids.len(),
{
    if ids.len() == 0 {
        seq![]
    } else if cools(entries, ids.last(), now) {
        due(entries, ids.drop_last(), now)
    } else {
        due(entries, ids.drop_last(), now).push(ids.last())
    }
}

/// A session that is pushed was reported and is not left alone, and one that was reported and is
/// not left alone is pushed.
pub proof fn due_is_reported(entries: Seq<(String, u64)>, ids: Seq<Seq<char>>, id: Seq<char>, now: u64)
    ensures
        due(entries, ids, now).contains(id) <==> ids.contains(id) && !cools(entries, id, now),
    decreases ids.len(),
{
    if ids.len() > 0 {
        let front = ids.drop_last();
        due_is_reported(entries, front, id, now);
        assert(ids.contains(id) <==> front.contains(id) || ids.last() == id) by {
            if front.contains(id) {
                let i = choose|i: int| 0 <= i < front.len() && front[i] == id;
                assert(ids[i] == id);
            }
            if ids.contains(id) && ids.last() != id {
                let i = choose|i: int| 0 <= i < ids.len() && ids[i] == id;
                assert(front[i] == id);
            }
            if ids.last() == id {
                assert(ids[ids.len() - 1] == id);
            }
        }
        let d = due(entries, front, now);
        assert(d.push(ids.last()).contains(id) <==> d.contains(id) || ids.last() == id) by {
            let e = d.push(ids.last());
            if d.contains(id) {
                let i = choose|i: int| 0 <= i < d.len() && d[i] == id;
                assert(e[i] == id);
            }
            if e.contains(id) && ids.last() != id {
                let i = choose|i: int| 0 <= i < e.len() && e[i] == id;
                assert(d[i] == id);
            }
            if ids.last() == id {
                assert(e[d.len() as int] == id);
            }
        }
    }
}

impl Failures {
    /// The sessions of those reported that are pushed, each once.
    pub fn due_sessions(&self, ids: &Vec<String>, now: u64) -> (r: Vec<String>)
        ensures
            views(r@) == due(self.entries@, without_repetition(views(ids@)), now),
    {
        let all = distinct(ids);
        let ghost texts = views(all@);
        let mut r: Vec<String> = Vec::new();
        let mut i: usize = 0;
        assert(texts.take(0) =~= Seq::<Seq<char>>::empty());
        assert(views(r@) =~= Seq::<Seq<char>>::empty());
        while i < all.len()
            invariant
                i <= all@.len(),
                texts == views(all@),
                views(r@) == due(self.entries@, texts.take(i as int), now),
            decreases all@.len() - i,
        {
            assert(texts.take(i + 1).drop_last() =~= texts.take(i as int));
            assert(texts[i as int] == all@[i as int]@);
            if !self.in_cooldown(all[i].as_str(), now) {
                let ghost before = r@;
                r.push(all[i].clone());
                assert(views(r@) =~= views(before).push(all@[i as int]@));
            }
            i += 1;
        }
        assert(texts.take(texts.len() as int) =~= texts);
        r
    }

    /// What a worker without a stream does. A full round begins with no failures. Before the
    /// worker waits, there is no event yet.
    pub fn run_http_event_loop(
        &mut self,
        event: &Option<WorkerEvent>,
        paused: bool,
        now: u64,
    ) -> (r: WorkerStep)
        ensures
            if event matches Some(WorkerEvent::Periodic) && !paused {
                final(self).entries@.len() == 0
            } else {
                *final(self) == *old(self)
            },
            match event {
                None => r == if paused {
                    WorkerStep::Sleep
                } else {
                    WorkerStep::Wait
                },
                Some(WorkerEvent::Shutdown) => r == WorkerStep::Exit,
                Some(WorkerEvent::Triggered(ids)) => if paused {
                    r == WorkerStep::Wait
                } else {
                    r matches WorkerStep::PushSessions(s) && views(s@) == due(
                        old(self).entries@,
                        without_repetition(views(ids@)),
                        now,
                    )
                },
                Some(WorkerEvent::Periodic) => r == if paused {
                    WorkerStep::Wait
                } else {
                    WorkerStep::PushAll
                },
                Some(WorkerEvent::Heartbeat) => r == WorkerStep::Wait,
            },
    {
        match event {
            None => if paused {
                WorkerStep::Sleep
            } else {
                WorkerStep::Wait
            },
            Some(WorkerEvent::Shutdown) => WorkerStep::Exit,
            Some(WorkerEvent::Triggered(ids)) => if paused {
                WorkerStep::Wait
            } else {
                WorkerStep::PushSessions(self.due_sessions(ids, now))
            },
            Some(WorkerEvent::Periodic) => if paused {
                WorkerStep::Wait
            } else {
                self.entries = Vec::new();
                WorkerStep::PushAll
            },
            Some(WorkerEvent::Heartbeat) => WorkerStep::Wait,
        }
    }
}

/// What a worker does as it begins to push by single requests for a while.
pub fn enter_http_fallback(paused: bool) -> (r: WorkerStep)
    ensures
        r == if paused {
            WorkerStep::Wait
        } else {
            WorkerStep::PushAll
        },
{
    if paused {
        WorkerStep::Wait
    } else {
        WorkerStep::PushAll
    }
}

/// What a worker does that pushes by single requests for a while, with the time that is left of it,
/// in nanoseconds. Before it waits, there is no event yet.
pub fn run_http_fallback_once(event: &Option<WorkerEvent>, paused: bool, remaining: u64) -> (r:
    WorkerStep)
    ensures
        match event {
            None => r == if remaining == 0 || paused {
                WorkerStep::Leave
            } else {
                WorkerStep::Wait
            },
            Some(WorkerEvent::Shutdown) => r == WorkerStep::Exit,
            Some(WorkerEvent::Triggered(ids)) => r matches WorkerStep::PushSessions(s) && views(s@)
                == without_repetition(views(ids@)),
            Some(WorkerEvent::Periodic) => r == if paused {
                WorkerStep::Wait
            } else {
                WorkerStep::PushAll
            },
            Some(WorkerEvent::Heartbeat) => r == WorkerStep::Wait,
        },
{
    match event {
        None => if remaining == 0 || paused {
            WorkerStep::Leave
        } else {
            WorkerStep::Wait
        },
        Some(WorkerEvent::Shutdown) => WorkerStep::Exit,
        Some(WorkerEvent::Triggered(ids)) => WorkerStep::PushSessions(distinct(ids)),
        Some(WorkerEvent::Periodic) => if paused {
            WorkerStep::Wait
        } else {
            WorkerStep::PushAll
        },
        Some(WorkerEvent::Heartbeat) => WorkerStep::Wait,
    }
}

/// How long such a worker waits at most before a full round, of the same unit as what it is given.
pub fn fallback_wait(remaining: u64, interval: u64) -> (r: u64)
    ensures
        r == if remaining <= interval {
            remaining
        } else {
            interval
        },
{
    if remaining <= interval {
        remaining
    } else {
        interval
    }
}

/// A worker that is paused pushes nothing over the stream: whatever comes, it leaves, ends, waits,
/// or is heard of.
pub proof fn paused_stream_is_quiet(event: Option<WorkerEvent>, r: WorkerStep)
    requires
        call_ensures(run_ws_event_loop, (&event, true), r),
    ensures
        !(r is PushSessions),
        !(r is PushAll),
{
}

/// The file with a certificate to trust, where one is configured.
pub fn ca_cert_path(config: &SyncConfig) -> (r: Option<String>)
    ensures
        match r {
            Some(p) => config.ca_cert is Some && expands(config.ca_cert->0@, p@),
            None => config.ca_cert is None,
        },
{
    match &config.ca_cert {
        Some(p) => Some(expand_tilde(p.as_str())),
        None => None,
    }
}

/// Whether the worker starts out paused, given what was kept of it.
pub fn restored_paused(kept: &Option<String>) -> (r: bool)
    ensures
        r == (kept is Some && kept->0@ == "true"@),
{
    match kept {
        Some(v) => same_text(v.as_str(), "true"),
        None => false,
    }
}

/// Whether the device registers itself first: it has no key yet, and knows its name and the key
/// to register with.
pub fn must_register(has_api_key: bool, master_key: &str, name: &str) -> (r: bool)
    ensures
        r == (!has_api_key && master_key@.len() > 0 && name@.len() > 0),
{
    !has_api_key && !master_key.is_empty() && !name.is_empty()
}

} // verus!

//! The connections of the agent and what they have subscribed to.
use vstd::prelude::*;
use crate::protocol::EventType;

verus! {

/// The number of a connection.
pub type ConnId = u64;

/// The types of events that a connection is told of.
#[derive(Debug, Clone, Copy, PartialEq, Eq, Structural)]
pub struct Subscriptions {
    pub new_message: bool,
    pub session_start: bool,
    pub session_end: bool,
    pub hook_event: bool,
}

impl Subscriptions {
    /// Whether events of the type are among them.
    pub open spec fn has(self, e: EventType) -> bool {
        match e {
            EventType::NewMessage => self.new_message,
            EventType::SessionStart => self.session_start,
            EventType::SessionEnd => self.session_end,
            EventType::HookEvent => self.hook_event,
        }
    }

    /// No events at all.
    pub fn none() -> (r: Subscriptions)
        ensures
            forall|e: EventType| !#[trigger] r.has(e),
    {
        Subscriptions {
            new_message: false,
            session_start: false,
            session_end: false,
            hook_event: false,
        }
    }

    /// Whether events of the type are among them.
    pub fn holds(&self, e: EventType) -> (r: bool)
        ensures
            r == self.has(e),
    {
        match e {
            EventType::NewMessage => self.new_message,
            EventType::SessionStart => self.session_start,
            EventType::SessionEnd => self.session_end,
            EventType::HookEvent => self.hook_event,
        }
    }

    /// The subscriptions with the types switched on or off.
    pub fn switched(self, events: &Vec<EventType>, on: bool) -> (r: Subscriptions)
        ensures
            is_switched(self, events@, on, r),
    {
        let mut r = self;
        let mut i: usize = 0;
        while i < events.len()
            invariant
                i <= events@.len(),
                is_switched(self, events@.take(i as int), on, r),
            decreases events@.len() - i,
        {
            let ghost before = r;
            let e = events[i];
            match e {
                EventType::NewMessage => {
                    r.new_message = on;
                },
                EventType::SessionStart => {
                    r.session_start = on;
                },
                EventType::SessionEnd => {
                    r.session_end = on;
                },
                EventType::HookEvent => {
                    r.hook_event = on;
                },
            }
            proof {
                let now = events@.take(i + 1);
                assert forall|t: EventType| #[trigger]
                    r.has(t) == if now.contains(t) {
                        on
                    } else {
                        self.has(t)
                    } by {
                    assert(before.has(t) == if events@.take(i as int).contains(t) {
                        on
                    } else {
                        self.has(t)
                    });
                    if t == e {
                        assert(now[i as int] == t);
                    } else if events@.take(i as int).contains(t) {
                        let k = choose|k: int| 0 <= k < i && events@.take(i as int)[k] == t;
                        assert(now[k] == t);
                    } else if now.contains(t) {
                        let k = choose|k: int| 0 <= k <= i && now[k] == t;
                        assert(events@.take(i as int)[k] == t);
                    }
                }
            }
            i += 1;
        }
        assert(events@.take(events@.len() as int) =~= events@);
        r
    }
}

/// Whether `after` is `before` with the types switched on or off, and the others untouched.
pub open spec fn is_switched(
    before: Subscriptions,
    events: Seq<EventType>,
    on: bool,
    after: Subscriptions,
) -> bool {
    forall|e: EventType| #[trigger]
        after.has(e) == if events.contains(e) {
            on
        } else {
            before.has(e)
        }
}

/// A connection and its subscriptions.
#[derive(Debug, Clone, Copy)]
pub struct Connection {
    pub id: ConnId,
    pub events: Subscriptions,
}

/// The connections that are open, in the order in which they came.
#[derive(Debug)]
pub struct ConnectionManager {
    pub connections: Vec<Connection>,
    pub next_conn_id: ConnId,
}

/// The connections whose numbers are not among `gone`, in their order.
pub open spec fn kept(connections: Seq<Connection>, gone: Seq<ConnId>) -> Seq<Connection>
    decreases connections.len(),
{
    if connections.len() == 0 {
        seq![]
    } else {
        let rest = kept(connections.drop_last(), gone);
        if gone.contains(connections.last().id) {
            rest
        } else {
            rest.push(connections.last())
        }
    }
}

/// The numbers of the connections that are told of events of the type, in their order.
pub open spec fn recipients(connections: Seq<Connection>, e: EventType) -> Seq<ConnId>
    decreases connections.len(),
{
    if connections.len() == 0 {
        seq![]
    } else {
        let rest = recipients(connections.drop_last(), e);
        if connections.last().events.has(e) {
            rest.push(connections.last().id)
        } else {
            rest
        }
    }
}

/// Whether a connection of the number is open.
pub open spec fn is_open(connections: Seq<Connection>, id: ConnId) -> bool {
    exists|i: int| 0 <= i < connections.len() && (#[trigger] connections[i]).id == id
}

/// Whether no number is given twice, and each is less than `next`.
pub open spec fn numbered(connections: Seq<Connection>, next: ConnId) -> bool {
    &&& forall|i: int, j: int|
        0 <= i < j < connections.len() ==> (#[trigger] connections[i]).id < (
        #[trigger] connections[j]).id
    &&& forall|i: int| 0 <= i < connections.len() ==> 1 <= (#[trigger] connections[i]).id < next
    &&& next >= 1
}

/// Whether the subscriptions of the connection `id` are switched and all else stays.
pub open spec fn is_updated(
    before: Seq<Connection>,
    id: ConnId,
    events: Seq<EventType>,
    on: bool,
    after: Seq<Connection>,
) -> bool {
    &&& after.len() == before.len()
    &&& forall|i: int|
        0 <= i < before.len() ==> (#[trigger] after[i]).id == before[i].id && if before[i].id
            == id {
            is_switched(before[i].events, events, on, after[i].events)
        } else {
            after[i].events == before[i].events
        }
}

proof fn lemma_kept(connections: Seq<Connection>, gone: Seq<ConnId>, next: ConnId)
    requires
        numbered(connections, next),
    ensures
        numbered(kept(connections, gone), next),
        kept(connections, gone).len() <= connections.len(),
        forall|i: int|
            0 <= i < kept(connections, gone).len() ==> !gone.contains(
                (#[trigger] kept(connections, gone)[i]).id,
            ) && connections.contains(kept(connections, gone)[i]),
        forall|i: int|
            0 <= i < connections.len() && !gone.contains((#[trigger] connections[i]).id)
                ==> kept(connections, gone).contains(connections[i]),
    decreases connections.len(),
{
    if connections.len() > 0 {
        let d = connections.drop_last();
        let last = connections.last();
        let rest = kept(d, gone);
        let all = kept(connections, gone);
        assert(numbered(d, next)) by {
            assert forall|i: int, j: int| 0 <= i < j < d.len() implies (#[trigger] d[i]).id < (
            #[trigger] d[j]).id by {
                assert(d[i] == connections[i] && d[j] == connections[j]);
            }
            assert forall|i: int| 0 <= i < d.len() implies 1 <= (#[trigger] d[i]).id < next by {
                assert(d[i] == connections[i]);
            }
        }
        lemma_kept(d, gone, next);
        assert forall|i: int| 0 <= i < rest.len() implies connections.contains(
            #[trigger] rest[i],
        ) && rest[i].id < last.id by {
            let k = choose|k: int| 0 <= k < d.len() && d[k] == rest[i];
            assert(connections[k] == rest[i]);
            assert(connections[connections.len() - 1] == last);
        }
        assert(connections[connections.len() - 1] == last);
        if !gone.contains(last.id) {
            assert(all == rest.push(last));
            assert forall|i: int| 0 <= i < connections.len() && !gone.contains(
                (#[trigger] connections[i]).id,
            ) implies all.contains(connections[i]) by {
                if i < d.len() {
                    assert(d[i] == connections[i]);
                    let k = choose|k: int| 0 <= k < rest.len() && rest[k] == d[i];
                    assert(all[k] == connections[i]);
                } else {
                    assert(all[rest.len() as int] == last);
                }
            }
        } else {
            assert forall|i: int| 0 <= i < connections.len() && !gone.contains(
                (#[trigger] connections[i]).id,
            ) implies all.contains(connections[i]) by {
                assert(i < d.len());
                assert(d[i] == connections[i]);
            }
        }
    }
}

fn holds_id(ids: &Vec<ConnId>, id: ConnId) -> (r: bool)
    ensures
        r == ids@.contains(id),
{
    let mut i: usize = 0;
    while i < ids.len()
        invariant
            i <= ids@.len(),
            forall|k: int| 0 <= k < i ==> ids@[k] != id,
        decreases ids@.len() - i,
    {
        if ids[i] == id {
            assert(ids@[i as int] == id);
            return true;
        }
        i += 1;
    }
    false
}

impl ConnectionManager {
    /// Whether the numbers of the open connections differ and will not be given again.
    pub open spec fn wf(&self) -> bool {
        numbered(self.connections@, self.next_conn_id)
    }

    /// A manager without connections.
    pub fn new() -> (r: ConnectionManager)
        ensures
            r.wf(),
            r.connections@.len() == 0,
            r.next_conn_id == 1,
    {
        ConnectionManager { connections: Vec::new(), next_conn_id: 1 }
    }

    /// Takes in a connection, which has not subscribed to anything, and gives it a number.
    pub fn register(&mut self) -> (r: ConnId)
        requires
            old(self).wf(),
            old(self).next_conn_id < u64::MAX,
        ensures
            final(self).wf(),
            r == old(self).next_conn_id,
            final(self).next_conn_id == r + 1,
            final(self).connections@.len() == old(self).connections@.len() + 1,
            final(self).connections@.drop_last() == old(self).connections@,
            final(self).connections@.last().id == r,
            forall|e: EventType| !#[trigger] final(self).connections@.last().events.has(e),
    {
        let id = self.next_conn_id;
        self.next_conn_id = id + 1;
        self.connections.push(Connection { id, events: Subscriptions::none() });
        assert(self.connections@.drop_last() =~= old(self).connections@);
        id
    }

    fn forget(&mut self, gone: &Vec<ConnId>)
        requires
            old(self).wf(),
        ensures
            final(self).wf(),
            final(self).next_conn_id == old(self).next_conn_id,
            final(self).connections@ == kept(old(self).connections@, gone@),
    {
        let ghost all = self.connections@;
        let mut left: Vec<Connection> = Vec::new();
        let mut i: usize = 0;
        while i < self.connections.len()
            invariant
                i <= self.connections@.len(),
                self.connections@ == all,
                self.next_conn_id == old(self).next_conn_id,
                left@ == kept(all.take(i as int), gone@),
            decreases self.connections@.len() - i,
        {
            assert(all.take(i + 1).drop_last() =~= all.take(i as int));
            let c = self.connections[i];
            if !holds_id(gone, c.id) {
                left.push(c);
            }
            i += 1;
        }
        assert(all.take(all.len() as int) =~= all);
        proof {
            lemma_kept(all, gone@, self.next_conn_id);
        }
        self.connections = left;
    }

    /// Forgets a connection.
    pub fn unregister(&mut self, conn_id: ConnId)
        requires
            old(self).wf(),
        ensures
            final(self).wf(),
            final(self).next_conn_id == old(self).next_conn_id,
            final(self).connections@ == kept(old(self).connections@, seq![conn_id]),
    {
        let gone: Vec<ConnId> = vec![conn_id];
        assert(gone@ =~= seq![conn_id]);
        self.forget(&gone);
    }

    /// The number of connections.
    pub fn connection_count(&self) -> (r: usize)
        ensures
            r == self.connections@.len(),
    {
        self.connections.len()
    }

    /// Forgets the connections that are closed and says how many are left.
    pub fn cleanup_closed(&mut self, closed: &Vec<ConnId>) -> (r: usize)
        requires
            old(self).wf(),
        ensures
            final(self).wf(),
            final(self).next_conn_id == old(self).next_conn_id,
            final(self).connections@ == kept(old(self).connections@, closed@),
            r == final(self).connections@.len(),
    {
        self.forget(closed);
        self.connections.len()
    }

    /// Whether any connection is left once the closed ones are forgotten.
    pub fn has_connections(&mut self, closed: &Vec<ConnId>) -> (r: bool)
        requires
            old(self).wf(),
        ensures
            final(self).wf(),
            final(self).next_conn_id == old(self).next_conn_id,
            final(self).connections@ == kept(old(self).connections@, closed@),
            r == (final(self).connections@.len() > 0),
    {
        self.cleanup_closed(closed) > 0
    }

    /// Whether a message can be sent to a connection of the number.
    pub fn knows(&self, conn_id: ConnId) -> (r: bool)
        ensures
            r == is_open(self.connections@, conn_id),
    {
        let mut i: usize = 0;
        while i < self.connections.len()
            invariant
                i <= self.connections@.len(),
                forall|k: int| 0 <= k < i ==> (#[trigger] self.connections@[k]).id != conn_id,
            decreases self.connections@.len() - i,
        {
            if self.connections[i].id == conn_id {
                assert(self.connections@[i as int].id == conn_id);
                return true;
            }
            i += 1;
        }
        false
    }

    fn switch(&mut self, conn_id: ConnId, events: &Vec<EventType>, on: bool)
        requires
            old(self).wf(),
        ensures
            final(self).wf(),
            final(self).next_conn_id == old(self).next_conn_id,
            is_updated(
                old(self).connections@,
                conn_id,
                events@,
                on,
                final(self).connections@,
            ),
    {
        let ghost all = self.connections@;
        let mut after: Vec<Connection> = Vec::new();
        let mut i: usize = 0;
        while i < self.connections.len()
            invariant
                i <= self.connections@.len(),
                self.connections@ == all,
                self.next_conn_id == old(self).next_conn_id,
                is_updated(all.take(i as int), conn_id, events@, on, after@),
            decreases self.connections@.len() - i,
        {
            let ghost before = after@;
            let c = self.connections[i];
            let updated = if c.id == conn_id {
                Connection { id: c.id, events: c.events.switched(events, on) }
            } else {
                c
            };
            after.push(updated);
            proof {
                let done = all.take(i as int);
                let next = all.take(i + 1);
                assert forall|k: int| 0 <= k < next.len() implies (#[trigger] after@[k]).id
                    == next[k].id && if next[k].id == conn_id {
                    is_switched(next[k].events, events@, on, after@[k].events)
                } else {
                    after@[k].events == next[k].events
                } by {
                    if k < i {
                        assert(after@[k] == before[k]);
                        assert(next[k] == done[k]);
                    }
                }
            }
            i += 1;
        }
        assert(all.take(all.len() as int) =~= all);
        proof {
            assert(numbered(after@, self.next_conn_id)) by {
                assert forall|a: int, b: int| 0 <= a < b < after@.len() implies (
                #[trigger] after@[a]).id < (#[trigger] after@[b]).id by {
                    assert(all[a].id < all[b].id);
                }
                assert forall|a: int| 0 <= a < after@.len() implies 1 <= (
                #[trigger] after@[a]).id < self.next_conn_id by {
                    assert(1 <= all[a].id < self.next_conn_id);
                }
            }
        }
        self.connections = after;
    }

    /// Tells the connection of events of the types from now on.
    pub fn subscribe(&mut self, conn_id: ConnId, events: &Vec<EventType>)
        requires
            old(self).wf(),
        ensures
            final(self).wf(),
            final(self).next_conn_id == old(self).next_conn_id,
            is_updated(
                old(self).connections@,
                conn_id,
                events@,
                true,
                final(self).connections@,
            ),
    {
        self.switch(conn_id, events, true);
    }

    /// Tells the connection of events of the types no more.
    pub fn unsubscribe(&mut self, conn_id: ConnId, events: &Vec<EventType>)
        requires
            old(self).wf(),
        ensures
            final(self).wf(),
            final(self).next_conn_id == old(self).next_conn_id,
            is_updated(
                old(self).connections@,
                conn_id,
                events@,
                false,
                final(self).connections@,
            ),
    {
        self.switch(conn_id, events, false);
    }

    /// The connections that are told of events of the type.
    pub fn subscribers(&self, e: EventType) -> (r: Vec<ConnId>)
        ensures
            r@ == recipients(self.connections@, e),
    {
        let ghost all = self.connections@;
        let mut r: Vec<ConnId> = Vec::new();
        let mut i: usize = 0;
        while i < self.connections.len()
            invariant
                i <= self.connections@.len(),
                self.connections@ == all,
                r@ == recipients(all.take(i as int), e),
            decreases self.connections@.len() - i,
        {
            assert(all.take(i + 1).drop_last() =~= all.take(i as int));
            let c = self.connections[i];
            if c.events.holds(e) {
                r.push(c.id);
            }
            i += 1;
        }
        assert(all.take(all.len() as int) =~= all);
        r
    }
}

proof fn lemma_recipients(connections: Seq<Connection>, e: EventType, id: ConnId)
    ensures
        recipients(connections, e).contains(id) <==> exists|i: int|
            0 <= i < connections.len() && (#[trigger] connections[i]).id == id
                && connections[i].events.has(e),
    decreases connections.len(),
{
    if connections.len() > 0 {
        let d = connections.drop_last();
        let last = connections.last();
        let rest = recipients(d, e);
        let all = recipients(connections, e);
        lemma_recipients(d, e, id);
        if all.contains(id) {
            let k = choose|k: int| 0 <= k < all.len() && all[k] == id;
            if k < rest.len() {
                assert(rest[k] == id);
                let i = choose|i: int|
                    0 <= i < d.len() && (#[trigger] d[i]).id == id && d[i].events.has(e);
                assert(connections[i] == d[i]);
            } else {
                assert(connections[connections.len() - 1].id == id);
            }
        }
        if exists|i: int|
            0 <= i < connections.len() && (#[trigger] connections[i]).id == id
                && connections[i].events.has(e) {
            let i = choose|i: int|
                0 <= i < connections.len() && (#[trigger] connections[i]).id == id
                    && connections[i].events.has(e);
            if i < d.len() {
                assert(d[i] == connections[i]);
                let k = choose|k: int| 0 <= k < rest.len() && rest[k] == id;
                assert(all[k] == id);
            } else {
                assert(all[rest.len() as int] == id);
            }
        }
    }
}

/// An open connection that subscribes to a type of events is told of them.
pub proof fn subscriber_is_told(
    before: Seq<Connection>,
    id: ConnId,
    events: Seq<EventType>,
    after: Seq<Connection>,
    e: EventType,
)
    requires
        is_open(before, id),
        is_updated(before, id, events, true, after),
        events.contains(e),
    ensures
        recipients(after, e).contains(id),
{
    let i = choose|i: int| 0 <= i < before.len() && (#[trigger] before[i]).id == id;
    assert(after[i].id == before[i].id);
    assert(after[i].events.has(e));
    lemma_recipients(after, e, id);
}

/// A connection that has unsubscribed from a type of events is not told of them.
pub proof fn unsubscribed_is_not_told(
    before: Seq<Connection>,
    id: ConnId,
    events: Seq<EventType>,
    after: Seq<Connection>,
    e: EventType,
)
    requires
        is_updated(before, id, events, false, after),
        events.contains(e),
    ensures
        !recipients(after, e).contains(id),
{
    lemma_recipients(after, e, id);
    assert forall|i: int| 0 <= i < after.len() && (#[trigger] after[i]).id
        == id implies !after[i].events.has(e) by {
        assert(before[i].id == id);
    }
}

/// What one connection subscribes to or unsubscribes from changes nothing for another.
pub proof fn subscriptions_are_apart(
    before: Seq<Connection>,
    id: ConnId,
    events: Seq<EventType>,
    on: bool,
    after: Seq<Connection>,
    e: EventType,
    other: ConnId,
)
    requires
        is_updated(before, id, events, on, after),
        other != id,
    ensures
        recipients(after, e).contains(other) == recipients(before, e).contains(other),
{
    lemma_recipients(before, e, other);
    lemma_recipients(after, e, other);
    if recipients(before, e).contains(other) {
        let i = choose|i: int|
            0 <= i < before.len() && (#[trigger] before[i]).id == other && before[i].events.has(e);
        assert(after[i].id == before[i].id);
        assert(after[i].events == before[i].events);
    }
    if recipients(after, e).contains(other) {
        let i = choose|i: int|
            0 <= i < after.len() && (#[trigger] after[i]).id == other && after[i].events.has(e);
        assert(before[i].id == other);
    }
}

/// A connection that is gone is told of nothing.
pub proof fn gone_is_not_told(
    connections: Seq<Connection>,
    next: ConnId,
    gone: Seq<ConnId>,
    e: EventType,
    id: ConnId,
)
    requires
        numbered(connections, next),
        gone.contains(id),
    ensures
        !recipients(kept(connections, gone), e).contains(id),
{
    lemma_kept(connections, gone, next);
    lemma_recipients(kept(connections, gone), e, id);
}

/// A connection that is not gone stays open, with its subscriptions.
pub proof fn others_stay(
    connections: Seq<Connection>,
    next: ConnId,
    gone: Seq<ConnId>,
    i: int,
)
    requires
        numbered(connections, next),
        0 <= i < connections.len(),
        !gone.contains(connections[i].id),
    ensures
        kept(connections, gone).contains(connections[i]),
{
    lemma_kept(connections, gone, next);
}

/// Nobody is told of an event twice.
pub proof fn told_once(connections: Seq<Connection>, next: ConnId, e: EventType)
    requires
        numbered(connections, next),
    ensures
        recipients(connections, e).no_duplicates(),
    decreases connections.len(),
{
    if connections.len() > 0 {
        let d = connections.drop_last();
        let last = connections.last();
        assert(numbered(d, last.id)) by {
            assert(connections[connections.len() - 1] == last);
            assert forall|i: int, j: int| 0 <= i < j < d.len() implies (#[trigger] d[i]).id < (
            #[trigger] d[j]).id by {
                assert(d[i] == connections[i] && d[j] == connections[j]);
            }
            assert forall|i: int| 0 <= i < d.len() implies 1 <= (
            #[trigger] d[i]).id < last.id by {
                assert(d[i] == connections[i]);
            }
        }
        told_once(d, last.id, e);
        lemma_recipients(d, e, last.id);
        let rest = recipients(d, e);
        if last.events.has(e) {
            assert(!rest.contains(last.id)) by {
                if rest.contains(last.id) {
                    let i = choose|i: int|
                        0 <= i < d.len() && (#[trigger] d[i]).id == last.id && d[i].events.has(e);
                    assert(d[i].id < last.id);
                }
            }
            let all = recipients(connections, e);
            assert forall|i: int, j: int|
                0 <= i < all.len() && 0 <= j < all.len() && i != j implies all[i] != all[j] by {
                if i == rest.len() {
                    assert(rest[j] == all[j]);
                } else if j == rest.len() {
                    assert(rest[i] == all[i]);
                } else {
                    assert(rest[i] == all[i] && rest[j] == all[j]);
                }
            }
        }
    }
}

} // verus!

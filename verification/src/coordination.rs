//! Which of several processes may write.
//!
//! The store holds at most one registered writer. A process becomes it when there
//! is none, when the one there has not been heard of for too long, or when its own
//! priority is higher.
use vstd::prelude::*;
use crate::error::Error;
use crate::host::{is_random_id, new_id};
use crate::text::same_text;

verus! {

/// What kind of process wants to write.
#[derive(Debug, Clone, Copy, PartialEq, Eq, Structural)]
pub enum WriterType {
    MemexDaemon,
    VlaudeDaemon,
    MemexKit,
    VlaudeKit,
}

impl WriterType {
    /// How much its writing matters; more for a greater number.
    pub open spec fn rank(self) -> i32 {
        match self {
            WriterType::MemexDaemon => 1,
            WriterType::VlaudeDaemon => 1,
            WriterType::MemexKit => 2,
            WriterType::VlaudeKit => 3,
        }
    }

    /// How much its writing matters; more for a greater number.
    pub fn priority(&self) -> (r: i32)
        ensures
            r == self.rank(),
    {
        match self {
            WriterType::MemexDaemon | WriterType::VlaudeDaemon => 1,
            WriterType::MemexKit => 2,
            WriterType::VlaudeKit => 3,
        }
    }

    /// The word that stands for it in the store.
    pub open spec fn word(self) -> Seq<char> {
        match self {
            WriterType::MemexDaemon => "memex_daemon"@,
            WriterType::VlaudeDaemon => "vlaude_daemon"@,
            WriterType::MemexKit => "memex_kit"@,
            WriterType::VlaudeKit => "vlaude_kit"@,
        }
    }

    /// The word that stands for it in the store.
    pub fn name(&self) -> (r: &'static str)
        ensures
            r@ == self.word(),
    {
        match self {
            WriterType::MemexDaemon => "memex_daemon",
            WriterType::VlaudeDaemon => "vlaude_daemon",
            WriterType::MemexKit => "memex_kit",
            WriterType::VlaudeKit => "vlaude_kit",
        }
    }
}

/// Whether a process writes or only reads.
#[derive(Debug, Clone, Copy, PartialEq, Eq, Structural)]
pub enum Role {
    Writer,
    Reader,
}

/// How the registered writer is.
#[derive(Debug, Clone, Copy, PartialEq, Eq, Structural)]
pub enum WriterHealth {
    /// Heard of recently.
    Alive,
    /// Not heard of for too long.
    Timeout,
    /// There is none.
    Released,
}

/// How the processes keep in touch.
#[derive(Debug, Clone, Copy, PartialEq, Eq, Structural)]
pub struct CoordinationConfig {
    /// The time between two heartbeats, in milliseconds.
    pub heartbeat_interval_ms: u64,
    /// The silence after which a writer is given up, in milliseconds.
    pub timeout_threshold_ms: u64,
    /// How often a silence is confirmed.
    pub confirm_count: u32,
}

impl Default for CoordinationConfig {
    fn default() -> (r: CoordinationConfig)
        ensures
            r.heartbeat_interval_ms == 10_000,
            r.timeout_threshold_ms == 30_000,
            r.confirm_count == 3,
    {
        CoordinationConfig {
            heartbeat_interval_ms: 10_000,
            timeout_threshold_ms: 30_000,
            confirm_count: 3,
        }
    }
}

/// The registered writer.
#[derive(Debug, Clone)]
pub struct WriterInfo {
    pub writer_type: String,
    pub writer_id: String,
    pub priority: i32,
    pub heartbeat: i64,
    pub registered_at: i64,
}

/// Whether the writer with the given id is the registered one.
pub open spec fn holds(registry: Option<WriterInfo>, writer_id: Seq<char>) -> bool {
    registry is Some && registry->0.writer_id@ == writer_id
}

/// Whether a writer has not been heard of for longer than the threshold.
pub open spec fn is_silent(info: WriterInfo, now: i64, threshold_ms: u64) -> bool {
    now - info.heartbeat > threshold_ms as i64
}

/// Whether a process may register: nobody is, or who is has been silent for too long or is of a
/// lower priority.
pub open spec fn may_register(
    registry: Option<WriterInfo>,
    writer_type: WriterType,
    now: i64,
    threshold_ms: u64,
) -> bool {
    match registry {
        Some(info) => is_silent(info, now, threshold_ms) || writer_type.rank() > info.priority,
        None => true,
    }
}

/// Whether a process may take over: nobody is registered, or who is has been silent for too long.
pub open spec fn may_take_over(registry: Option<WriterInfo>, now: i64, threshold_ms: u64) -> bool {
    match registry {
        Some(info) => is_silent(info, now, threshold_ms),
        None => true,
    }
}

/// One process in the competition for writing.
#[derive(Debug, Clone)]
pub struct Coordinator {
    pub writer_type: WriterType,
    pub writer_id: String,
    pub config: CoordinationConfig,
    pub role: Role,
}

/// Whether `info` says that the process registered at `now`.
pub open spec fn is_entry_of(info: WriterInfo, c: Coordinator, now: i64) -> bool {
    &&& info.writer_type@ == c.writer_type.word()
    &&& info.writer_id == c.writer_id
    &&& info.priority == c.writer_type.rank()
    &&& info.heartbeat == now
    &&& info.registered_at == now
}

/// Whether the process is the registered writer, since `now`.
pub open spec fn is_registered(registry: Option<WriterInfo>, c: Coordinator, now: i64) -> bool {
    registry is Some && is_entry_of(registry->0, c, now)
}

/// The registry once its writer has been heard of.
pub open spec fn heard_of(registry: Option<WriterInfo>, now: i64) -> Option<WriterInfo> {
    match registry {
        Some(info) => Some(WriterInfo { heartbeat: now, ..info }),
        None => None,
    }
}

/// Whether a claim of the process at `now` leads from one registry to another and to the role: the
/// process is registered where it may register, and otherwise all stays as it is.
pub open spec fn is_claim(
    before: Option<WriterInfo>,
    c: Coordinator,
    now: i64,
    after: Option<WriterInfo>,
    role: Role,
) -> bool {
    if may_register(before, c.writer_type, now, c.config.timeout_threshold_ms) {
        role == Role::Writer && is_registered(after, c, now)
    } else {
        role == Role::Reader && after == before
    }
}

/// Whether the process is the same, whatever its role.
pub open spec fn is_same_process(a: Coordinator, b: Coordinator) -> bool {
    &&& a.writer_type == b.writer_type
    &&& a.writer_id == b.writer_id
    &&& a.config == b.config
}

fn silent(info: &WriterInfo, now: i64, threshold_ms: u64) -> (r: bool)
    ensures
        r == is_silent(*info, now, threshold_ms),
{
    let elapsed: i128 = now as i128 - info.heartbeat as i128;
    elapsed > (threshold_ms as i64) as i128
}

impl Coordinator {
    /// A process that only reads so far, with an id left to chance.
    pub fn new(writer_type: WriterType, config: CoordinationConfig) -> (r: Coordinator)
        ensures
            r.writer_type == writer_type,
            is_random_id(r.writer_id@),
            r.config == config,
            r.role == Role::Reader,
    {
        Coordinator::with_id(writer_type, new_id(), config)
    }

    /// A process that only reads so far. Its id must be unlike that of any other.
    pub fn with_id(writer_type: WriterType, writer_id: String, config: CoordinationConfig) -> (r:
        Coordinator)
        ensures
            r.writer_type == writer_type,
            r.writer_id == writer_id,
            r.config == config,
            r.role == Role::Reader,
    {
        Coordinator { writer_type, writer_id, config, role: Role::Reader }
    }

    /// The id of the process.
    pub fn writer_id(&self) -> (r: &str)
        ensures
            r@ == self.writer_id@,
    {
        self.writer_id.as_str()
    }

    /// What the process may do.
    pub fn current_role(&self) -> (r: Role)
        ensures
            r == self.role,
    {
        self.role
    }

    fn entry(&self, now: i64) -> (r: WriterInfo)
        ensures
            is_entry_of(r, *self, now),
    {
        WriterInfo {
            writer_type: self.writer_type.name().to_owned(),
            writer_id: self.writer_id.clone(),
            priority: self.writer_type.priority(),
            heartbeat: now,
            registered_at: now,
        }
    }

    /// The role of the process once its claim has changed as many rows of the registry.
    pub fn claimed(&mut self, rows: usize) -> (r: Role)
        ensures
            is_same_process(*final(self), *old(self)),
            final(self).role == r,
            r == if rows > 0 {
                Role::Writer
            } else {
                Role::Reader
            },
    {
        self.role = if rows > 0 {
            Role::Writer
        } else {
            Role::Reader
        };
        self.role
    }

    /// How a heartbeat ends that has changed as many rows of the registry: a process whose row is
    /// not there any more only reads from then on, and is told so.
    pub fn renewed(&mut self, rows: usize) -> (r: Result<(), Error>)
        ensures
            is_same_process(*final(self), *old(self)),
            if rows > 0 {
                r is Ok && final(self).role == old(self).role
            } else {
                &&& r matches Err(Error::Coordination(why)) && why@ == "Writer 已被抢占"@
                &&& final(self).role == Role::Reader
            },
    {
        if rows > 0 {
            Ok(())
        } else {
            self.role = Role::Reader;
            Err(Error::Coordination("Writer 已被抢占".to_owned()))
        }
    }

    /// The process once its row has been removed from the registry, if it was there: it reads.
    pub fn released(&mut self)
        ensures
            is_same_process(*final(self), *old(self)),
            final(self).role == Role::Reader,
    {
        self.role = Role::Reader;
    }

    /// Whether the process has taken over, once that has changed as many rows of the registry.
    pub fn taken_over(&mut self, rows: usize) -> (r: bool)
        ensures
            is_same_process(*final(self), *old(self)),
            r == (rows > 0),
            final(self).role == if r {
                Role::Writer
            } else {
                old(self).role
            },
    {
        if rows > 0 {
            self.role = Role::Writer;
        }
        rows > 0
    }

    /// Whether there is a vacancy to fill: a takeover has changed as many rows of the registry, and
    /// as many writers are in it.
    pub fn is_vacant(rows: usize, count: i64) -> (r: bool)
        ensures
            r == (rows == 0 && count == 0),
    {
        rows == 0 && count == 0
    }

    /// Registers the process where it may register; otherwise it reads.
    pub fn try_register(&mut self, registry: &mut Option<WriterInfo>, now: i64) -> (r: Role)
        ensures
            is_same_process(*final(self), *old(self)),
            final(self).role == r,
            is_claim(*old(registry), *old(self), now, *final(registry), r),
    {
        let may = match registry {
            Some(info) => silent(info, now, self.config.timeout_threshold_ms)
                || self.writer_type.priority() > info.priority,
            None => true,
        };
        if may {
            *registry = Some(self.entry(now));
        }
        self.claimed(if may { 1 } else { 0 })
    }

    /// Lets the registered writer be heard of. A process that is not registered any more only
    /// reads from then on, and is told so.
    pub fn heartbeat(&mut self, registry: &mut Option<WriterInfo>, now: i64) -> (r: Result<(), Error>)
        ensures
            is_same_process(*final(self), *old(self)),
            if holds(*old(registry), old(self).writer_id@) {
                &&& r is Ok
                &&& *final(registry) == heard_of(*old(registry), now)
                &&& final(self).role == old(self).role
            } else {
                &&& r matches Err(Error::Coordination(why)) && why@ == "Writer 已被抢占"@
                &&& *final(registry) == *old(registry)
                &&& final(self).role == Role::Reader
            },
    {
        let mine = match registry {
            Some(info) => same_text(info.writer_id.as_str(), self.writer_id.as_str()),
            None => false,
        };
        if mine {
            match registry {
                Some(info) => {
                    info.heartbeat = now;
                },
                None => {},
            }
        }
        self.renewed(if mine { 1 } else { 0 })
    }

    /// Gives up writing. Whoever else is registered stays so.
    pub fn release(&mut self, registry: &mut Option<WriterInfo>)
        ensures
            is_same_process(*final(self), *old(self)),
            final(self).role == Role::Reader,
            *final(registry) == if holds(*old(registry), old(self).writer_id@) {
                None
            } else {
                *old(registry)
            },
    {
        let mine = match registry {
            Some(info) => same_text(info.writer_id.as_str(), self.writer_id.as_str()),
            None => false,
        };
        if mine {
            *registry = None;
        }
        self.released();
    }

    /// The registered writer, if any.
    pub fn get_current_writer(&self, registry: &Option<WriterInfo>) -> (r: Option<WriterInfo>)
        ensures
            r == *registry,
    {
        match registry {
            Some(info) => Some(
                WriterInfo {
                    writer_type: info.writer_type.clone(),
                    writer_id: info.writer_id.clone(),
                    priority: info.priority,
                    heartbeat: info.heartbeat,
                    registered_at: info.registered_at,
                },
            ),
            None => None,
        }
    }

    /// How the registered writer is.
    pub fn check_writer_health(&self, registry: &Option<WriterInfo>, now: i64) -> (r: WriterHealth)
        requires
            registry is Some ==> i64::MIN <= now - registry->0.heartbeat <= i64::MAX,
        ensures
            r == match registry {
                Some(info) => if is_silent(*info, now, self.config.timeout_threshold_ms) {
                    WriterHealth::Timeout
                } else {
                    WriterHealth::Alive
                },
                None => WriterHealth::Released,
            },
    {
        match registry {
            Some(info) => {
                if silent(info, now, self.config.timeout_threshold_ms) {
                    WriterHealth::Timeout
                } else {
                    WriterHealth::Alive
                }
            },
            None => WriterHealth::Released,
        }
    }

    /// Takes the place of a writer that has been silent for too long or has gone.
    pub fn try_takeover(&mut self, registry: &mut Option<WriterInfo>, now: i64) -> (r: bool)
        ensures
            is_same_process(*final(self), *old(self)),
            r == may_take_over(*old(registry), now, old(self).config.timeout_threshold_ms),
            if r {
                &&& is_registered(*final(registry), *old(self), now)
                &&& final(self).role == Role::Writer
            } else {
                *final(registry) == *old(registry) && final(self).role == old(self).role
            },
    {
        let may = match registry {
            Some(info) => silent(info, now, self.config.timeout_threshold_ms),
            None => true,
        };
        if may {
            *registry = Some(self.entry(now));
        }
        self.taken_over(if may { 1 } else { 0 })
    }
}

/// What a connection to the store may do. A connection that has not joined the competition for
/// writing may write.
#[derive(Debug, Clone)]
pub struct WriteAccess {
    pub coordinator: Option<Coordinator>,
}

impl WriteAccess {
    /// Whether the connection may write.
    pub open spec fn writes(self) -> bool {
        match self.coordinator {
            Some(c) => c.role == Role::Writer,
            None => true,
        }
    }

    /// A connection that has not joined the competition.
    pub fn new() -> (r: WriteAccess)
        ensures
            r.coordinator is None,
    {
        WriteAccess { coordinator: None }
    }

    /// Joins the competition, as a process with an id left to chance.
    pub fn register_writer(
        &mut self,
        writer_type: WriterType,
        config: CoordinationConfig,
        registry: &mut Option<WriterInfo>,
        now: i64,
    ) -> (r: Role)
        ensures
            final(self).coordinator is Some,
            is_random_id(final(self).coordinator->0.writer_id@),
            final(self).coordinator->0.writer_type == writer_type,
            final(self).coordinator->0.config == config,
            final(self).coordinator->0.role == r,
            is_claim(*old(registry), final(self).coordinator->0, now, *final(registry), r),
    {
        let mut c = Coordinator::new(writer_type, config);
        let role = c.try_register(registry, now);
        self.coordinator = Some(c);
        role
    }

    /// Whether the connection may write.
    pub fn is_writer(&self) -> (r: bool)
        ensures
            r == self.writes(),
    {
        match &self.coordinator {
            Some(c) => c.role == Role::Writer,
            None => true,
        }
    }

    /// Refuses to go on where the connection may not write.
    pub fn require_writer(&self) -> (r: Result<(), Error>)
        ensures
            match r {
                Ok(_) => self.writes(),
                Err(e) => !self.writes() && e is PermissionDenied,
            },
    {
        if self.is_writer() {
            Ok(())
        } else {
            Err(Error::PermissionDenied)
        }
    }
}

/// At most one process is the registered writer.
pub proof fn one_writer_at_a_time(registry: Option<WriterInfo>, a: Seq<char>, b: Seq<char>)
    requires
        holds(registry, a),
        holds(registry, b),
    ensures
        a == b,
{
}

/// A writer that has been heard of recently can be displaced only by a process of higher
/// priority, and cannot be taken over.
pub proof fn live_writer_yields_to_priority_only(
    info: WriterInfo,
    challenger: WriterType,
    now: i64,
    threshold_ms: u64,
)
    requires
        !is_silent(info, now, threshold_ms),
        may_register(Some(info), challenger, now, threshold_ms),
    ensures
        challenger.rank() > info.priority,
        !may_take_over(Some(info), now, threshold_ms),
{
}

/// Once another process has registered, the one before it is not the registered writer any more:
/// its next heartbeat is refused.
pub proof fn displaced_writer_is_not_registered(
    registry: Option<WriterInfo>,
    winner: Coordinator,
    loser: Coordinator,
    now: i64,
)
    requires
        is_registered(registry, winner, now),
        winner.writer_id@ != loser.writer_id@,
    ensures
        holds(registry, winner.writer_id@),
        !holds(registry, loser.writer_id@),
{
}

/// Of two claims, one after the other, that both make a writer, the second alone leaves its process
/// registered; where the second makes none, the first process stays registered.
pub proof fn claims_leave_one_writer(
    before: Option<WriterInfo>,
    first: Coordinator,
    second: Coordinator,
    then: i64,
    now: i64,
    between: Option<WriterInfo>,
    after: Option<WriterInfo>,
    role: Role,
)
    requires
        first.writer_id@ != second.writer_id@,
        is_claim(before, first, then, between, Role::Writer),
        is_claim(between, second, now, after, role),
    ensures
        holds(after, first.writer_id@) <==> role == Role::Reader,
        holds(after, second.writer_id@) <==> role == Role::Writer,
{
}

/// Of two processes of one kind, the second to come reads as long as the first is heard of.
pub proof fn equals_do_not_displace(
    first: Coordinator,
    second: WriterType,
    entry: WriterInfo,
    then: i64,
    now: i64,
    threshold_ms: u64,
)
    requires
        is_entry_of(entry, first, then),
        second.rank() == first.writer_type.rank(),
        now - then <= threshold_ms as i64,
    ensures
        !may_register(Some(entry), second, now, threshold_ms),
{
}

} // verus!

//! What holds of who may write.
use vstd::prelude::*;
use crate::coordination::{
    CoordinationConfig, Coordinator, Role, WriteAccess, WriterHealth, WriterInfo, WriterType,
};
use crate::error::Error;

verus! {

/// The kinds of writers by their weight: a kit of Vlaude outweighs a kit of Memex, and that one both
/// daemons, which weigh the same.
pub proof fn kits_outweigh_daemons(
    kit: &WriterType,
    other_kit: &WriterType,
    daemon: &WriterType,
    other: &WriterType,
    weights: (i32, i32, i32, i32),
)
    requires
        kit is VlaudeKit,
        other_kit is MemexKit,
        daemon is VlaudeDaemon,
        other is MemexDaemon,
        call_ensures(WriterType::priority, (kit,), weights.0),
        call_ensures(WriterType::priority, (other_kit,), weights.1),
        call_ensures(WriterType::priority, (daemon,), weights.2),
        call_ensures(WriterType::priority, (other,), weights.3),
    ensures
        weights.0 > weights.1,
        weights.1 > weights.2,
        weights.2 == weights.3,
        weights == (3i32, 2i32, 1i32, 1i32),
{
}

/// A process that wants to write becomes the writer where nobody is registered, where the registered
/// one has been silent for longer than the threshold, or where it outweighs that one; and in no other
/// case. The writer is then registered, and a process that is turned away leaves the registry as it is.
pub proof fn claim_is_decided(
    c: &mut Coordinator,
    registry: &mut Option<WriterInfo>,
    now: i64,
    weight: i32,
    r: Role,
)
    requires
        call_ensures(Coordinator::try_register, (c, registry, now), r),
        call_ensures(WriterType::priority, (&old(c).writer_type,), weight),
        old(c).config.timeout_threshold_ms <= i64::MAX,
    ensures
        final(c).role == r,
        final(c).writer_id == old(c).writer_id,
        r == Role::Writer <==> match *old(registry) {
            None => true,
            Some(info) => {
                ||| now - info.heartbeat > old(c).config.timeout_threshold_ms
                ||| weight > info.priority
            },
        },
        r == Role::Writer ==> {
            &&& (*final(registry)) is Some
            &&& (*final(registry))->0.writer_id == old(c).writer_id
            &&& (*final(registry))->0.priority == weight
            &&& (*final(registry))->0.heartbeat == now
            &&& (*final(registry))->0.registered_at == now
        },
        r == Role::Reader ==> *final(registry) == *old(registry),
{
}

/// A heartbeat of the registered writer is noted and changes nothing else; any other process learns
/// that it has been displaced and writes no more.
pub proof fn heartbeat_is_noted(
    c: &mut Coordinator,
    registry: &mut Option<WriterInfo>,
    now: i64,
    r: Result<(), Error>,
)
    requires
        call_ensures(Coordinator::heartbeat, (c, registry, now), r),
    ensures
        r is Ok <==> (*old(registry)) is Some && (*old(registry))->0.writer_id@ == old(c).writer_id@,
        r is Ok ==> {
            &&& (*final(registry)) is Some
            &&& (*final(registry))->0.heartbeat == now
            &&& (WriterInfo { heartbeat: (*old(registry))->0.heartbeat, ..(*final(registry))->0 }) == (*old(registry))->0
            &&& final(c).role == old(c).role
        },
        r is Err ==> *final(registry) == *old(registry) && final(c).role == Role::Reader,
{
}

/// A writer that releases its place leaves it empty; nobody else can empty it. Either way the process
/// is a reader then.
pub proof fn release_empties_the_place(c: &mut Coordinator, registry: &mut Option<WriterInfo>)
    requires
        call_ensures(Coordinator::release, (c, registry), ()),
    ensures
        final(c).role == Role::Reader,
        (*old(registry)) is Some && (*old(registry))->0.writer_id@ == old(c).writer_id@ ==> (*final(registry)) is None,
        (*old(registry)) is Some && (*old(registry))->0.writer_id@ != old(c).writer_id@ ==> *final(registry) == *old(registry),
        (*old(registry)) is None ==> (*final(registry)) is None,
{
}

/// A writer is alive up to the threshold behind its last heartbeat, out of time behind it, and released
/// where none is registered.
pub proof fn health_follows_the_heartbeat(
    c: &Coordinator,
    registry: &Option<WriterInfo>,
    now: i64,
    r: WriterHealth,
)
    requires
        call_ensures(Coordinator::check_writer_health, (c, registry, now), r),
        c.config.timeout_threshold_ms <= i64::MAX,
    ensures
        r is Released <==> registry is None,
        r is Timeout <==> registry is Some && now - registry->0.heartbeat
            > c.config.timeout_threshold_ms,
        r is Alive <==> registry is Some && now - registry->0.heartbeat
            <= c.config.timeout_threshold_ms,
{
}

/// A process takes over exactly where the writer is out of time or released, whatever its weight; and
/// where it does not, nothing changes.
pub proof fn takeover_waits_for_silence(
    c: &mut Coordinator,
    registry: &mut Option<WriterInfo>,
    now: i64,
    r: bool,
)
    requires
        call_ensures(Coordinator::try_takeover, (c, registry, now), r),
        old(c).config.timeout_threshold_ms <= i64::MAX,
    ensures
        r <==> ((*old(registry)) is None || now - (*old(registry))->0.heartbeat
            > old(c).config.timeout_threshold_ms),
        r ==> {
            &&& final(c).role == Role::Writer
            &&& (*final(registry)) is Some
            &&& (*final(registry))->0.writer_id == old(c).writer_id
            &&& (*final(registry))->0.heartbeat == now
        },
        !r ==> *final(registry) == *old(registry) && final(c).role == old(c).role,
{
}

/// A process that is registered as a reader may not write; one that is the writer may, and so may one
/// that has never asked.
pub proof fn readers_do_not_write(a: &WriteAccess, may: bool, r: Result<(), Error>)
    requires
        call_ensures(WriteAccess::is_writer, (a,), may),
        call_ensures(WriteAccess::require_writer, (a,), r),
    ensures
        may <==> r is Ok,
        r is Ok <==> (a.coordinator is None || a.coordinator->0.role == Role::Writer),
        r is Err ==> r->Err_0 is PermissionDenied,
{
}

/// What the number of rows that a statement changed says: a claim or a takeover that changed one has
/// succeeded, and a heartbeat that changed none has failed.
pub proof fn changed_rows_decide(
    claimant: &mut Coordinator,
    beating: &mut Coordinator,
    taking: &mut Coordinator,
    rows: usize,
    role: Role,
    beat: Result<(), Error>,
    took: bool,
)
    requires
        call_ensures(Coordinator::claimed, (claimant, rows), role),
        call_ensures(Coordinator::renewed, (beating, rows), beat),
        call_ensures(Coordinator::taken_over, (taking, rows), took),
    ensures
        rows > 0 ==> role == Role::Writer && final(claimant).role == Role::Writer,
        rows == 0 ==> role == Role::Reader && final(claimant).role == Role::Reader,
        rows > 0 ==> beat is Ok && final(beating).role == old(beating).role,
        rows == 0 ==> beat is Err && final(beating).role == Role::Reader,
        took <==> rows > 0,
        took ==> final(taking).role == Role::Writer,
        !took ==> final(taking).role == old(taking).role,
{
}

/// Each kind of writer has a word of its own.
pub proof fn writers_have_their_words(
    a: &WriterType,
    b: &WriterType,
    wa: &'static str,
    wb: &'static str,
)
    requires
        call_ensures(WriterType::name, (a,), wa),
        call_ensures(WriterType::name, (b,), wb),
        wa@ == wb@,
    ensures
        *a == *b,
{
    reveal_strlit("memex_daemon");
    reveal_strlit("vlaude_daemon");
    reveal_strlit("memex_kit");
    reveal_strlit("vlaude_kit");
    assert("memex_daemon"@.len() != "vlaude_daemon"@.len());
    assert("memex_daemon"@.len() != "memex_kit"@.len());
    assert("memex_daemon"@.len() != "vlaude_kit"@.len());
    assert("vlaude_daemon"@.len() != "memex_kit"@.len());
    assert("vlaude_daemon"@.len() != "vlaude_kit"@.len());
    assert("memex_kit"@.len() != "vlaude_kit"@.len());
}

/// A writer that gave up its place reads on, under the name that it had.
pub proof fn released_writer_reads_on(c: &mut Coordinator)
    requires
        call_ensures(Coordinator::released, (c,), ()),
    ensures
        final(c).role == Role::Reader,
        final(c).writer_id == old(c).writer_id,
        final(c).writer_type == old(c).writer_type,
{
}

/// A place is vacant only where nothing was taken over and no writer is registered.
pub proof fn vacant_place_has_no_writer(rows: usize, count: i64, r: bool)
    requires
        call_ensures(Coordinator::is_vacant, (rows, count), r),
    ensures
        r <==> rows == 0 && count == 0,
{
}

/// A coordinator begins as a reader, under the name and with the weight that it is given; whoever has
/// none may write.
pub proof fn coordinator_begins_as_a_reader(
    kind: WriterType,
    id: String,
    config: CoordinationConfig,
    r: Coordinator,
    free: WriteAccess,
    may: bool,
)
    requires
        call_ensures(Coordinator::with_id, (kind, id, config), r),
        call_ensures(WriteAccess::new, (), free),
        call_ensures(WriteAccess::is_writer, (&free,), may),
    ensures
        r.role == Role::Reader,
        r.writer_id == id,
        r.writer_type == kind,
        r.config == config,
        may,
{
}

/// Whoever registers writes exactly where the place was empty, silent or held by a lesser writer.
pub proof fn registered_writer_holds_the_place(
    w: &mut WriteAccess,
    kind: WriterType,
    config: CoordinationConfig,
    registry: &mut Option<WriterInfo>,
    now: i64,
    r: Role,
)
    requires
        call_ensures(WriteAccess::register_writer, (w, kind, config, registry, now), r),
        config.timeout_threshold_ms <= i64::MAX,
    ensures
        r == Role::Writer <==> {
            ||| (*old(registry)) is None
            ||| now - (*old(registry))->0.heartbeat > config.timeout_threshold_ms
            ||| kind.rank() > (*old(registry))->0.priority
        },
        r == Role::Writer ==> (*final(registry)) is Some && (*final(registry))->0.heartbeat == now
            && (*final(registry))->0.priority == kind.rank(),
        r == Role::Reader ==> *final(registry) == *old(registry),
        final(w).coordinator is Some && final(w).coordinator->0.role == r,
{
}

} // verus!

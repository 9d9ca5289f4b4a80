//! What holds of collecting session files into the store.
use vstd::prelude::*;
use crate::collector::{
    cutoff_of, holds_message, is_batch_of, is_new, lemma_new_place_kept, lemma_places_ascend,
    message_input, message_time, message_timestamp, new_messages, new_places, next_sequence,
    reader_state, CollectResult, FileBatch, FoundFile, OwnedFile, OwnedSession, ParsedFile,
    ParsedSession, ProjectRequest, SessionBatch, SessionJob, WrittenFile, WrittenSession,
};
use crate::db::{MessageInput, SessionInput};
use crate::session::{ParseResult, ParsedMessage, ReaderState, SessionMeta, Source};
use crate::text::{signed_decimal, views};

verus! {

proof fn lemma_all_places(messages: Seq<ParsedMessage>, now: i64)
    ensures
        new_places(messages, None, now) == Seq::new(messages.len(), |i: int| i),
    decreases messages.len(),
{
    if messages.len() > 0 {
        lemma_all_places(messages.drop_last(), now);
    }
    assert(new_places(messages, None, now) =~= Seq::new(messages.len(), |i: int| i));
}

/// A single file is collected whole: every message of it, in order, the number of each as far
/// behind the first number as it stands behind the first message.
pub proof fn file_is_collected_whole(
    batch: Seq<MessageInput>,
    messages: Seq<ParsedMessage>,
    now: i64,
    start: int,
)
    requires
        is_batch_of(batch, messages, None, now, start),
    ensures
        batch.len() == messages.len(),
        forall|i: int|
            0 <= i < batch.len() ==> {
                &&& (#[trigger] batch[i]).uuid == messages[i].uuid
                &&& batch[i].message_type == messages[i].message_type
                &&& batch[i].content_text == messages[i].content.text
                &&& batch[i].content_full == messages[i].content.full
                &&& batch[i].raw == messages[i].raw
                &&& batch[i].sequence == start + i
            },
{
    lemma_all_places(messages, now);
}

/// Of a listed session every message is collected that is younger than half an hour before the
/// newest message of the store, or, where the store has none of its messages, every message behind
/// the beginning of time; and no other. Its number is its place behind the greatest number of the
/// store.
pub proof fn session_is_collected_since(
    batch: Seq<MessageInput>,
    messages: Seq<ParsedMessage>,
    latest: Option<i64>,
    max_sequence: Option<i64>,
    now: i64,
)
    requires
        i64::MIN <= cutoff_of(latest) <= i64::MAX,
        is_batch_of(
            batch,
            messages,
            Some(cutoff_of(latest) as i64),
            now,
            next_sequence(max_sequence),
        ),
    ensures
        forall|i: int|
            #![trigger messages[i]]
            0 <= i < messages.len() ==> {
                let t = message_time(messages[i], now);
                let number = i + match max_sequence {
                    Some(greatest) => greatest + 1,
                    None => 0,
                };
                let young = match latest {
                    Some(newest) => t > newest - 1_800_000,
                    None => t > 0,
                };
                young <==> holds_message(batch, messages[i].uuid@, number, t as int)
            },
        forall|k: int|
            0 <= k < batch.len() ==> {
                let t = (#[trigger] batch[k]).timestamp;
                match latest {
                    Some(newest) => t > newest - 1_800_000,
                    None => t > 0,
                }
            },
{
    let cutoff = Some(cutoff_of(latest) as i64);
    let start = next_sequence(max_sequence);
    let places = new_places(messages, cutoff, now);
    lemma_places_ascend(messages, cutoff, now);
    assert forall|i: int| #![trigger messages[i]] 0 <= i < messages.len() implies (is_new(
        messages[i],
        cutoff,
        now,
    ) <==> holds_message(
        batch,
        messages[i].uuid@,
        start + i,
        message_time(messages[i], now) as int,
    )) by {
        lemma_new_place_kept(messages, cutoff, now, i);
        if is_new(messages[i], cutoff, now) {
            let k = choose|k: int| 0 <= k < places.len() && places[k] == i;
            assert(batch[k].sequence == start + i);
        }
        if holds_message(
            batch,
            messages[i].uuid@,
            start + i,
            message_time(messages[i], now) as int,
        ) {
            let k = choose|k: int|
                0 <= k < batch.len() && (#[trigger] batch[k]).uuid@ == messages[i].uuid@
                    && batch[k].sequence == start + i;
            assert(places[k] == i);
            assert(places.contains(i));
        }
    }
    assert forall|k: int| 0 <= k < batch.len() implies {
        let t = (#[trigger] batch[k]).timestamp;
        match latest {
            Some(newest) => t > newest - 1_800_000,
            None => t > 0,
        }
    } by {
        let i = places[k];
        lemma_new_place_kept(messages, cutoff, now, i);
        assert(places.contains(i));
        assert(batch[k].timestamp == message_time(messages[i], now));
    }
}

/// A listed session gives the message at a place exactly where that is younger than half an hour before
/// the newest message of the store, and where the store has none, where it has a time at all. It is
/// numbered on from the greatest number of the store.
pub proof fn listed_session_gives_its_young_messages(
    w: WrittenSession,
    latest: Option<i64>,
    greatest: Option<i64>,
    now: i64,
    r: Option<SessionBatch>,
    i: int,
)
    requires
        call_ensures(WrittenSession::messages, (w, latest, greatest, now), r),
        0 <= i < w.parsed.messages@.len(),
    ensures
        ({
            let m = w.parsed.messages@[i];
            let t = message_time(m, now);
            let given = r is Some && exists|k: int|
                0 <= k < r->0.messages@.len() && (#[trigger] r->0.messages@[k]).uuid@ == m.uuid@
                    && r->0.messages@[k].sequence == i + (if greatest is Some {
                    greatest->0 + 1
                } else {
                    0
                }) && r->0.messages@[k].timestamp == t;
            &&& latest is None ==> (given <==> t > 0)
            &&& latest is Some ==> (given <==> t > latest->0 - 30 * 60 * 1000)
        }),
        r is Some ==> r->0.session_id == w.meta.id,
{
    assert(w.parsed.messages@[i] == w.parsed.messages@[i]);
}

/// A message without a time has the time of its collection, and one whose time is a number has that
/// number.
pub proof fn message_has_its_time(m: &ParsedMessage, now: i64, n: i64, r: i64)
    requires
        call_ensures(message_timestamp, (m, now), r),
    ensures
        m.timestamp is None ==> r == now,
        m.timestamp is Some && m.timestamp->0@ == signed_decimal(n as int) ==> r == n,
{
}

/// Without a time to start from every message is new, and the newer the time to start from, the fewer
/// are.
pub proof fn later_start_gives_fewer(
    messages: &Vec<ParsedMessage>,
    early: i64,
    late: i64,
    now: i64,
    start: i64,
    a: Vec<MessageInput>,
    b: Vec<MessageInput>,
    c: Vec<MessageInput>,
    k: int,
)
    requires
        call_ensures(new_messages, (messages, Some(early), now, start), a),
        call_ensures(new_messages, (messages, Some(late), now, start), b),
        call_ensures(new_messages, (messages, None, now, start), c),
        early <= late,
        0 <= k < b@.len(),
    ensures
        c@.len() == messages@.len(),
        b@[k].timestamp > late,
        holds_message(a@, b@[k].uuid@, b@[k].sequence as int, b@[k].timestamp as int),
        holds_message(c@, b@[k].uuid@, b@[k].sequence as int, b@[k].timestamp as int),
{
    lemma_all_places(messages@, now);
    lemma_places_ascend(messages@, Some(late), now);
    let i = new_places(messages@, Some(late), now)[k];
    lemma_new_place_kept(messages@, Some(late), now, i);
    lemma_new_place_kept(messages@, Some(early), now, i);
    let j = choose|j: int|
        0 <= j < new_places(messages@, Some(early), now).len() && new_places(
            messages@,
            Some(early),
            now,
        )[j] == i;
    assert(a@[j].sequence == start + i);
    assert(c@[i].sequence == start + i);
}

/// What is written of a message is the message: every text of it, under its own name.
pub proof fn message_is_taken_as_it_is(m: &ParsedMessage, t: i64, n: i64, r: MessageInput)
    requires
        call_ensures(message_input, (m, t, n), r),
    ensures
        r.uuid@ == m.uuid@,
        r.message_type == m.message_type,
        r.content_text@ == m.content.text@,
        r.content_full@ == m.content.full@,
        r.timestamp == t,
        r.sequence == n,
        r.channel == m.channel,
        r.model == m.model,
        r.tool_call_id == m.tool_call_id,
        r.tool_name == m.tool_name,
        r.tool_args == m.tool_args,
        r.raw == m.raw,
        r.approval_status is None,
        r.approval_resolved_at is None,
{
}

/// A session is skipped exactly where it names no project or its file has not changed since it was
/// stored.
pub proof fn unchanged_session_is_skipped(
    meta: SessionMeta,
    source: Source,
    stored: Option<i64>,
    r: Option<SessionJob>,
)
    requires
        call_ensures(SessionJob::open, (meta, source, stored), r),
        stored is Some ==> stored->0 >= 0,
    ensures
        r is None <==> {
            ||| meta.project_path@.len() == 0
            ||| meta.file_mtime is Some && stored is Some && stored->0 == meta.file_mtime->0
        },
        r is Some ==> r->0.meta == meta && r->0.source == source,
{
}

/// A session belongs to the project that was made for it, and is written with what was read of it.
pub proof fn session_belongs_to_its_project(
    job: SessionJob,
    id: i64,
    result: &mut CollectResult,
    owned: Option<OwnedSession>,
)
    requires
        call_ensures(SessionJob::project, (job, Ok(id), result), owned),
    ensures
        owned is Some,
        owned->0.project_id == id,
        owned->0.meta == job.meta,
        *final(result) == *old(result),
{
}

/// A listed session is written under its own id and its project, with as many messages as were read.
pub proof fn listed_session_is_written_as_read(p: &ParsedSession, r: SessionInput)
    requires
        call_ensures(ParsedSession::session_input, (p,), r),
        p.parsed.messages@.len() <= i64::MAX,
    ensures
        r.session_id@ == p.meta.id@,
        r.project_id == p.project_id,
        r.cwd == p.parsed.cwd,
        r.model == p.parsed.model,
        r.message_count is Some && r.message_count->0 == p.parsed.messages@.len(),
        r.file_mtime is Some <==> p.meta.file_mtime is Some,
        r.file_size is Some <==> p.meta.file_size is Some,
        r.file_offset is None,
        r.file_inode is None,
{
}

/// A single file is written under its own name and its project, with what is known of the file.
pub proof fn file_is_written_as_found(o: &OwnedFile, r: SessionInput)
    requires
        call_ensures(OwnedFile::session_input, (o,), r),
        o.file.parsed.messages@.len() <= i64::MAX,
    ensures
        r.session_id@ == o.file.found.job.session_id@,
        r.project_id == o.project_id,
        r.cwd == o.file.parsed.cwd,
        r.model == o.file.parsed.model,
        r.message_count is Some && r.message_count->0 == o.file.parsed.messages@.len(),
        r.file_mtime == o.file.found.facts.mtime,
        r.file_size == Some(o.file.found.facts.size),
        r.file_inode == Some(o.file.found.facts.inode),
        r.file_offset is Some <==> o.file.state is Some,
{
}

/// Every failure on the way of a listed session leaves one more error and changes nothing else that is
/// counted; only messages that were inserted count, and only they make the session count.
pub proof fn failures_are_told_and_successes_counted(
    batch: SessionBatch,
    reply: Result<(usize, Vec<i64>), String>,
    result: &mut CollectResult,
    r: (),
)
    requires
        call_ensures(SessionBatch::inserted, (batch, reply, result), r),
    ensures
        final(result).projects_scanned == old(result).projects_scanned,
        reply is Err ==> {
            &&& final(result).errors@.len() == old(result).errors@.len() + 1
            &&& final(result).sessions_scanned == old(result).sessions_scanned
            &&& final(result).messages_inserted == old(result).messages_inserted
            &&& final(result).new_message_ids@ == old(result).new_message_ids@
        },
        reply is Ok ==> {
            &&& final(result).errors == old(result).errors
            &&& final(result).messages_inserted == old(result).messages_inserted + reply->Ok_0.0
            &&& reply->Ok_0.0 > 0 ==> final(result).sessions_scanned == old(
                result,
            ).sessions_scanned + 1
            &&& reply->Ok_0.0 == 0 ==> final(result).sessions_scanned == old(
                result,
            ).sessions_scanned
            &&& reply->Ok_0.0 > 0 ==> final(result).new_message_ids@ == old(
                result,
            ).new_message_ids@ + reply->Ok_0.1@
        },
{
    if reply is Err {
        assert(views(final(result).errors@).len() == views(old(result).errors@).len() + 1);
    }
}

/// A file without a working directory belongs to no project and is not collected.
pub proof fn file_without_a_directory_is_left(
    f: FoundFile,
    parsed: ParseResult,
    state: Option<ReaderState>,
    r: Option<ParsedFile>,
)
    requires
        call_ensures(FoundFile::parsed, (f, Some(parsed), state), r),
    ensures
        parsed.cwd is None ==> r is None,
        parsed.cwd is Some ==> (r is Some <==> parsed.cwd->0@.len() > 0),
        r is Some ==> {
            &&& r->0.project_path@ == parsed.cwd->0@
            &&& r->0.parsed == parsed
            &&& r->0.state == state
            &&& r->0.found == f
        },
{
}

/// A file that was written counts one project and one session, and hands back where its reading goes on.
pub proof fn collected_file_is_counted(
    batch: FileBatch,
    reply: Result<(usize, Vec<i64>), String>,
    r: (CollectResult, Option<(i64, i64, i64, i64)>),
)
    requires
        call_ensures(FileBatch::finish, (batch, reply), r),
    ensures
        r.0.projects_scanned == 1,
        r.0.sessions_scanned == (if reply is Ok { 1int } else { 0 }),
        reply is Ok ==> r.0.messages_inserted == reply->Ok_0.0 && r.0.new_message_ids@
            == reply->Ok_0.1@ && r.0.errors@.len() == 0,
        reply is Err ==> r.0.messages_inserted == 0 && r.0.errors@.len() == 1,
{
    if reply is Err {
        assert(views(r.0.errors@).len() == 1);
    }
}

/// Reading goes on where the store says it stopped, in the file that it says.
pub proof fn reading_goes_on_where_it_stopped(
    offset: i64,
    mtime: i64,
    size: i64,
    inode: i64,
    batch: FileBatch,
    reply: Result<(usize, Vec<i64>), String>,
    a: Option<ReaderState>,
    b: (CollectResult, Option<(i64, i64, i64, i64)>),
)
    requires
        offset >= 0,
        mtime >= 0,
        size >= 0,
        inode >= 0,
        call_ensures(reader_state, (Some((offset, Some(mtime), Some(size), Some(inode))),), a),
        batch.state == a,
        call_ensures(FileBatch::finish, (batch, reply), b),
    ensures
        a is Some && a->0.offset == offset,
        a->0.file_id is Some,
        a->0.file_id->0.mtime == mtime,
        a->0.file_id->0.size == size,
        a->0.file_id->0.inode == inode,
        b.1 == Some((offset, mtime, size, inode)),
{
}

/// A single file gives all of its messages, numbered on from the greatest number of the store; one
/// without messages counts its project and ends there.
pub proof fn single_file_gives_all_its_messages(
    w: WrittenFile,
    greatest: Option<i64>,
    now: i64,
    r: Result<FileBatch, CollectResult>,
)
    requires
        call_ensures(WrittenFile::messages, (w, greatest, now), r),
    ensures
        r is Ok <==> w.file.parsed.messages@.len() > 0,
        r is Ok ==> {
            &&& r->Ok_0.session_id == w.file.found.job.session_id
            &&& r->Ok_0.state == w.file.state
            &&& r->Ok_0.messages@.len() == w.file.parsed.messages@.len()
            &&& forall|i: int|
                0 <= i < r->Ok_0.messages@.len() ==> (#[trigger] r->Ok_0.messages@[i]).uuid
                    == w.file.parsed.messages@[i].uuid && r->Ok_0.messages@[i].sequence == i + (
                if greatest is Some {
                    greatest->0 + 1
                } else {
                    0
                })
        },
        r is Err ==> r->Err_0.projects_scanned == 1 && r->Err_0.sessions_scanned == 0
            && r->Err_0.messages_inserted == 0 && r->Err_0.errors@.len() == 0,
{
}

/// A step that fails on the way of a single file ends its collection with one error, and nothing is
/// counted.
pub proof fn failed_step_ends_the_file(
    p: ParsedFile,
    o: OwnedFile,
    why: String,
    a: Result<OwnedFile, CollectResult>,
    b: Result<WrittenFile, CollectResult>,
    id: i64,
    c: Result<OwnedFile, CollectResult>,
    d: Result<WrittenFile, CollectResult>,
)
    requires
        call_ensures(ParsedFile::project, (p, Err(why)), a),
        call_ensures(OwnedFile::written, (o, Err(why)), b),
        call_ensures(ParsedFile::project, (p, Ok(id)), c),
        call_ensures(OwnedFile::written, (o, Ok(())), d),
    ensures
        a is Err && a->Err_0.errors@.len() == 1 && a->Err_0.projects_scanned == 0
            && a->Err_0.sessions_scanned == 0 && a->Err_0.messages_inserted == 0,
        b is Err && b->Err_0.errors@.len() == 1 && b->Err_0.projects_scanned == 0
            && b->Err_0.sessions_scanned == 0 && b->Err_0.messages_inserted == 0,
        c is Ok && c->Ok_0.project_id == id && c->Ok_0.file == p,
        d is Ok && d->Ok_0.file == o.file,
{
    assert(views(a->Err_0.errors@).len() == 1);
    assert(views(b->Err_0.errors@).len() == 1);
}

/// A step that fails on the way of a listed session adds one error and leaves the counts; one that
/// succeeds changes nothing of them.
pub proof fn failed_step_is_noted(
    s: OwnedSession,
    q: ParsedSession,
    why: String,
    parsed: ParseResult,
    a: &mut CollectResult,
    b: &mut CollectResult,
    c: &mut CollectResult,
    d: &mut CollectResult,
    ra: Option<ParsedSession>,
    rb: Option<WrittenSession>,
    rc: Option<ParsedSession>,
    rd: Option<WrittenSession>,
)
    requires
        call_ensures(OwnedSession::parsed, (s, Err(why), a), ra),
        call_ensures(ParsedSession::written, (q, Err(why), b), rb),
        call_ensures(OwnedSession::parsed, (s, Ok(Some(parsed)), c), rc),
        call_ensures(ParsedSession::written, (q, Ok(()), d), rd),
    ensures
        ra is None && rb is None,
        final(a).errors@.len() == old(a).errors@.len() + 1,
        final(b).errors@.len() == old(b).errors@.len() + 1,
        final(a).messages_inserted == old(a).messages_inserted && final(a).sessions_scanned == old(
            a,
        ).sessions_scanned,
        final(b).messages_inserted == old(b).messages_inserted && final(b).sessions_scanned == old(
            b,
        ).sessions_scanned,
        rc is Some && rc->0.parsed == parsed && rc->0.project_id == s.project_id && rc->0.meta
            == s.meta,
        rd is Some && rd->0.parsed == q.parsed && rd->0.meta == q.meta,
        *final(c) == *old(c) && *final(d) == *old(d),
{
    assert(views(final(a).errors@).len() == views(old(a).errors@).len() + 1);
    assert(views(final(b).errors@).len() == views(old(b).errors@).len() + 1);
}

/// Each tool that was gone through counts one project more, and one that could not be listed one error.
pub proof fn each_tool_is_counted(
    a: &mut CollectResult,
    b: &mut CollectResult,
    source: &Source,
    why: &str,
    x: (),
    y: (),
)
    requires
        call_ensures(CollectResult::adapter_done, (a,), x),
        call_ensures(CollectResult::listing_failed, (b, source, why), y),
        old(a).projects_scanned < usize::MAX,
    ensures
        final(a).projects_scanned == old(a).projects_scanned + 1,
        final(a).sessions_scanned == old(a).sessions_scanned,
        final(a).errors == old(a).errors,
        final(b).errors@.len() == old(b).errors@.len() + 1,
        final(b).projects_scanned == old(b).projects_scanned,
{
    assert(views(final(b).errors@).len() == views(old(b).errors@).len() + 1);
}

/// A project is asked for by the path that its session names, from the tool that it comes from, in the
/// directory that it lies in.
pub proof fn project_is_asked_for_as_found(
    style: crate::paths::PathStyle,
    p: &ParsedFile,
    j: &SessionJob,
    a: ProjectRequest,
    b: ProjectRequest,
)
    requires
        call_ensures(ParsedFile::project_request, (p, style), a),
        call_ensures(SessionJob::project_request, (j, style), b),
    ensures
        a.path == p.project_path,
        a.source == p.found.source.word,
        a.encoded_dir_name == p.found.job.encoded_dir_name,
        b.path == j.meta.project_path,
        b.source == j.source.word,
        b.encoded_dir_name == j.meta.encoded_dir_name,
        j.meta.project_name is Some ==> b.name@ == j.meta.project_name->0@,
{
}

} // verus!

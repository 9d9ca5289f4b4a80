//! What holds of what is written to the store.
use vstd::prelude::*;
use crate::db::{
    batch_update_approval_status, deduplicate_projects, get_or_create_project_with_encoded,
    insert_messages, insert_outcome, inserted_places, inserted_uuids, is_inserted,
    last_message_preview, lemma_every_uuid_stored, lemma_inserted_bound,
    list_sessions_by_project_path, on_one_line, seconds_of, truncate_preview, upsert_session,
    upsert_session_full, upsert_talk_summary, with_relations, without_controls, written_ids,
    MessageInput, ProjectLoad, ProjectMerge, ProjectWrite, SessionInput, SessionRow, TalkRow,
};
use crate::error::Error;
use crate::order::{arranged, arranging_keeps_all, is_ranking, later};
use crate::queries::store_project;
use crate::session::ParsedMessage;
use crate::sql::{value_views, SqlView, Statement};
use crate::text::{is_control_char, is_word, joined, lemma_words_of_word, views};
use crate::time::rfc3339_millis;
use crate::types::{ApprovalStatus, SessionWithProject};
use crate::writer::{
    convert_message, convert_messages, convert_messages_with_start_sequence,
    scan_session_incremental, scan_takes_what_is_young, scanned, ScanBatch,
};

verus! {

proof fn lemma_scanned_within(messages: Seq<MessageInput>, checkpoint: Option<i64>)
    ensures
        scanned(messages, checkpoint).len() <= messages.len(),
        forall|k: int|
            0 <= k < scanned(messages, checkpoint).len() ==> messages.contains(
                #[trigger] scanned(messages, checkpoint)[k],
            ),
    decreases messages.len(),
{
    if messages.len() > 0 {
        lemma_scanned_within(messages.drop_last(), checkpoint);
    }
    assert forall|k: int| 0 <= k < scanned(messages, checkpoint).len() implies messages.contains(
        #[trigger] scanned(messages, checkpoint)[k],
    ) by {
        scan_takes_what_is_young(messages, checkpoint, scanned(messages, checkpoint)[k]);
        assert(scanned(messages, checkpoint).contains(scanned(messages, checkpoint)[k]));
    }
}

/// Whether the batch holds a message with the uuid.
pub open spec fn carries(batch: Seq<MessageInput>, uuid: Seq<char>) -> bool {
    exists|k: int| 0 <= k < batch.len() && (#[trigger] batch[k]).uuid@ == uuid
}

/// A scan of a session takes every message that is younger than a minute before the last one scanned,
/// or every message where none was, and no other; it numbers them without a gap behind the greatest
/// number of the store; and the next scan begins at the last of them.
pub proof fn scan_takes_the_last_minute_again(
    messages: Vec<MessageInput>,
    checkpoint: Option<i64>,
    max_sequence: Option<i64>,
    r: Option<ScanBatch>,
)
    requires
        call_ensures(scan_session_incremental, (messages, checkpoint, max_sequence), r),
        checkpoint is Some ==> checkpoint->0 - 60_000 >= i64::MIN,
        max_sequence is Some ==> max_sequence->0 + 1 + messages@.len() <= i64::MAX,
        messages@.len() <= i64::MAX,
    ensures
        forall|i: int|
            0 <= i < messages@.len() && (match checkpoint {
                Some(last) => (#[trigger] messages@[i]).timestamp > last - 60_000,
                None => true,
            }) ==> r is Some && carries(r->0.messages@, messages@[i].uuid@),
        r is Some ==> {
            let b = r->0;
            &&& b.messages@.len() > 0
            &&& b.checkpoint == b.messages@.last().timestamp
            &&& forall|k: int|
                0 <= k < b.messages@.len() ==> {
                    &&& (#[trigger] b.messages@[k]).sequence == k + match max_sequence {
                        Some(greatest) => greatest + 1,
                        None => 0,
                    }
                    &&& checkpoint is Some ==> b.messages@[k].timestamp > checkpoint->0 - 60_000
                }
        },
{
    let kept = scanned(messages@, checkpoint);
    lemma_scanned_within(messages@, checkpoint);
    assert forall|i: int|
        0 <= i < messages@.len() && (match checkpoint {
            Some(last) => (#[trigger] messages@[i]).timestamp > last - 60_000,
            None => true,
        }) implies r is Some && carries(r->0.messages@, messages@[i].uuid@) by {
        scan_takes_what_is_young(messages@, checkpoint, messages@[i]);
        assert(messages@.contains(messages@[i]));
        let k = choose|k: int| 0 <= k < kept.len() && kept[k] == messages@[i];
        assert(r->0.messages@[k].uuid == kept[k].uuid);
    }
    if let Some(b) = r {
        assert(b.messages@.len() == kept.len());
        assert forall|k: int| 0 <= k < b.messages@.len() implies {
            &&& (#[trigger] b.messages@[k]).sequence == k + match max_sequence {
                Some(greatest) => greatest + 1,
                None => 0,
            }
            &&& checkpoint is Some ==> b.messages@[k].timestamp > checkpoint->0 - 60_000
        } by {
            assert(b.messages@[k].timestamp == kept[k].timestamp);
            scan_takes_what_is_young(messages@, checkpoint, kept[k]);
            assert(kept.contains(kept[k]));
        }
        assert(b.messages@.last().timestamp == kept.last().timestamp);
    }
}

/// A message is written as it was read, at the instant that it names or at zero where it names none.
pub proof fn message_is_converted(msg: &ParsedMessage, sequence: i64, r: MessageInput)
    requires
        call_ensures(convert_message, (msg, sequence), r),
    ensures
        r.uuid == msg.uuid,
        r.message_type == msg.message_type,
        r.content_text == msg.content.text,
        r.content_full == msg.content.full,
        r.sequence == sequence,
        r.raw == msg.raw,
        r.tool_call_id == msg.tool_call_id,
        r.tool_name == msg.tool_name,
        r.tool_args == msg.tool_args,
        r.model == msg.model,
        r.channel == msg.channel,
        r.approval_status is None,
        msg.timestamp is None ==> r.timestamp == 0,
        msg.timestamp is Some && rfc3339_millis(msg.timestamp->0@) is Some ==> r.timestamp
            == rfc3339_millis(msg.timestamp->0@)->0,
        msg.timestamp is Some && rfc3339_millis(msg.timestamp->0@) is None ==> r.timestamp == 0,
{
}

/// Messages are converted one for one, and numbered on from the first number.
pub proof fn messages_are_converted_in_order(
    messages: &Vec<ParsedMessage>,
    start: i64,
    r: Vec<MessageInput>,
)
    requires
        call_ensures(convert_messages_with_start_sequence, (messages, start), r),
    ensures
        r@.len() == messages@.len(),
        forall|i: int|
            0 <= i < r@.len() ==> {
                &&& (#[trigger] r@[i]).sequence == start + i
                &&& r@[i].uuid == messages@[i].uuid
                &&& r@[i].content_full == messages@[i].content.full
            },
{
}

/// What is said of a session is written; what is not said stays as the store has it. A session keeps
/// its project and the time at which it was created.
pub proof fn session_write_takes_what_is_said(
    old_row: SessionRow,
    input: &SessionInput,
    count_wanted: bool,
    now: i64,
    r: Result<SessionRow, Error>,
)
    requires
        call_ensures(upsert_session_full, (Some(old_row), input, count_wanted, now), r),
    ensures
        r is Err <==> count_wanted && input.message_count is None,
        r is Ok ==> {
            let row = r->Ok_0;
            &&& row.session_id == old_row.session_id
            &&& row.project_id == old_row.project_id
            &&& row.created_at == old_row.created_at
            &&& row.updated_at == now
            &&& row.last_message_at == old_row.last_message_at
            &&& row.encoded_dir_name == old_row.encoded_dir_name
            &&& input.cwd is Some ==> row.cwd == input.cwd
            &&& input.cwd is None ==> row.cwd == old_row.cwd
            &&& input.model is Some ==> row.model == input.model
            &&& input.model is None ==> row.model == old_row.model
            &&& input.channel is Some ==> row.channel == input.channel
            &&& input.channel is None ==> row.channel == old_row.channel
            &&& input.message_count is Some ==> row.message_count == input.message_count
            &&& input.message_count is None ==> row.message_count == old_row.message_count
            &&& input.file_mtime is Some ==> row.file_mtime == input.file_mtime
            &&& input.file_mtime is None ==> row.file_mtime == old_row.file_mtime
            &&& input.file_size is Some ==> row.file_size == input.file_size
            &&& input.file_size is None ==> row.file_size == old_row.file_size
            &&& input.file_offset is Some ==> row.file_offset == input.file_offset
            &&& input.file_offset is None ==> row.file_offset == old_row.file_offset
            &&& input.file_inode is Some ==> row.file_inode == input.file_inode
            &&& input.file_inode is None ==> row.file_inode == old_row.file_inode
            &&& input.meta is Some ==> row.meta == input.meta
            &&& input.meta is None ==> row.meta == old_row.meta
            &&& input.session_type is Some ==> row.session_type == input.session_type
            &&& input.session_type is None ==> row.session_type == old_row.session_type
            &&& input.source is Some ==> row.source == input.source
            &&& input.source is None ==> row.source == old_row.source
        },
{
}

/// A session that the store does not have is written as it is said, created now.
pub proof fn new_session_is_written_as_said(
    input: &SessionInput,
    now: i64,
    r: Result<SessionRow, Error>,
)
    requires
        call_ensures(upsert_session_full, (None::<SessionRow>, input, false, now), r),
    ensures
        r is Ok,
        r->Ok_0.session_id == input.session_id,
        r->Ok_0.project_id == input.project_id,
        r->Ok_0.cwd == input.cwd,
        r->Ok_0.model == input.model,
        r->Ok_0.channel == input.channel,
        r->Ok_0.message_count == input.message_count,
        r->Ok_0.file_mtime == input.file_mtime,
        r->Ok_0.file_size == input.file_size,
        r->Ok_0.file_offset == input.file_offset,
        r->Ok_0.file_inode == input.file_inode,
        r->Ok_0.meta == input.meta,
        r->Ok_0.session_type == input.session_type,
        r->Ok_0.source == input.source,
        r->Ok_0.last_message_at is None,
        r->Ok_0.created_at == now,
        r->Ok_0.updated_at == now,
{
}

/// Seeing a session twice leaves what it was but for the time at which it was seen; seen for the first
/// time it has no messages yet.
pub proof fn seen_session_stays(
    existing: Option<SessionRow>,
    session_id: &str,
    project_id: i64,
    now: i64,
    r: SessionRow,
)
    requires
        call_ensures(upsert_session, (existing, session_id, project_id, now), r),
    ensures
        r.updated_at == now,
        existing is Some ==> (SessionRow { updated_at: existing->0.updated_at, ..r }) == existing->0,
        existing is None ==> {
            &&& r.session_id@ == session_id@
            &&& r.project_id == project_id
            &&& r.message_count == Some(0i64)
            &&& r.file_offset == Some(0i64)
            &&& r.last_message_at is None
            &&& r.created_at == now
        },
{
}

/// The summary of a talk is replaced; its longer form stays where none is given, and so does the time
/// at which it was first written.
pub proof fn talk_summary_is_replaced(
    existing: Option<TalkRow>,
    session_id: &str,
    talk_id: &str,
    summary_l2: &str,
    summary_l3: Option<&str>,
    now: i64,
    r: TalkRow,
)
    requires
        call_ensures(
            upsert_talk_summary,
            (existing, session_id, talk_id, summary_l2, summary_l3, now),
            r,
        ),
    ensures
        r.summary_l2@ == summary_l2@,
        r.updated_at == now,
        summary_l3 is Some ==> r.summary_l3 is Some && r.summary_l3->0@ == summary_l3->0@,
        summary_l3 is None && existing is Some ==> r.summary_l3 == existing->0.summary_l3,
        summary_l3 is None && existing is None ==> r.summary_l3 is None,
        existing is Some ==> r.created_at == existing->0.created_at,
        existing is None ==> r.created_at == now && r.session_id@ == session_id@ && r.talk_id@
            == talk_id@,
{
}

/// A path has at most one project: where there is one, it is kept and only marked as seen, and its
/// directory is noted where it is told; a new one is made only where there is none.
pub proof fn known_project_is_kept(
    existing: Option<i64>,
    name: &str,
    path: &str,
    source: &str,
    encoded: Option<&str>,
    now: i64,
    r: ProjectWrite,
)
    requires
        call_ensures(
            get_or_create_project_with_encoded,
            (existing, name, path, source, encoded, now),
            r,
        ),
    ensures
        r is Create <==> existing is None,
        r is Rename <==> existing is Some && encoded is Some,
        r is Touch <==> existing is Some && encoded is None,
        r matches ProjectWrite::Create { name: n, path: p, source: s, encoded_dir_name: e, created_at }
            ==> {
            &&& n@ == name@
            &&& p@ == path@
            &&& s@ == source@
            &&& created_at == now
            &&& e is Some <==> encoded is Some
            &&& e is Some ==> e->0@ == encoded->0@
        },
        r matches ProjectWrite::Rename { id, updated_at, encoded_dir_name } ==> Some(id) == existing
            && updated_at == now && encoded_dir_name@ == encoded->0@,
        r matches ProjectWrite::Touch { id, updated_at } ==> Some(id) == existing && updated_at
            == now,
{
}

/// Of several projects of one path one with the most sessions is kept, and all others are merged into
/// it.
pub proof fn merge_spares_the_busiest(projects: Vec<ProjectLoad>, r: Option<ProjectMerge>)
    requires
        call_ensures(deduplicate_projects, (projects,), r),
    ensures
        r is Some <==> projects@.len() >= 2,
        r is Some ==> {
            let m = r->0;
            &&& exists|i: int|
                #![trigger projects@[i]]
                {
                    &&& 0 <= i < projects@.len()
                    &&& projects@[i].id == m.keep
                    &&& forall|j: int|
                        0 <= j < projects@.len() ==> (#[trigger] projects@[j]).sessions
                            <= projects@[i].sessions
                }
            &&& m.merge@.len() + 1 == projects@.len()
            &&& forall|j: int|
                0 <= j < projects@.len() ==> (#[trigger] projects@[j]).id == m.keep
                    || m.merge@.contains(projects@[j].id)
        },
{
    if let Some(m) = r {
        let all = projects@;
        let sorted = choose|sorted: Seq<ProjectLoad>|
            {
                &&& #[trigger] arranged(all, sorted)
                &&& sorted.len() >= 2
                &&& m.keep == sorted[0].id
                &&& m.merge@ == sorted.drop_first().map_values(|p: ProjectLoad| p.id)
            };
        let places = choose|places: Seq<int>| #[trigger]
            is_ranking(all, places) && sorted == places.map_values(|p: int| all[p]);
        let top = places[0];
        assert(sorted[0] == all[top]);
        assert forall|j: int| 0 <= j < all.len() implies {
            &&& (#[trigger] all[j]).sessions <= all[top].sessions
            &&& all[j].id == m.keep || m.merge@.contains(all[j].id)
        } by {
            arranging_keeps_all(all, sorted, j);
            let k = choose|k: int| 0 <= k < sorted.len() && sorted[k] == all[j];
            if k > 0 {
                assert(sorted[k] == all[places[k]]);
                assert(all[places[0]].sessions >= all[places[k]].sessions);
                assert(m.merge@[k - 1] == all[j].id);
            }
        }
    }
}

proof fn lemma_seconds_filtered(pairs: Seq<(String, String)>, key: Seq<char>)
    ensures
        seconds_of(pairs, key) == pairs.filter(|p: (String, String)| p.0@ == key).map_values(
            |p: (String, String)| p.1,
        ),
    decreases pairs.len(),
{
    reveal(Seq::filter);
    if pairs.len() > 0 {
        lemma_seconds_filtered(pairs.drop_last(), key);
        let f = pairs.drop_last().filter(|p: (String, String)| p.0@ == key);
        if pairs.last().0@ == key {
            assert(f.push(pairs.last()).map_values(|p: (String, String)| p.1) =~= f.map_values(
                |p: (String, String)| p.1,
            ).push(pairs.last().1));
        }
    }
    assert(seconds_of(pairs, key) =~= pairs.filter(
        |p: (String, String)| p.0@ == key,
    ).map_values(|p: (String, String)| p.1));
}

/// Sessions are listed in their order, each with the children that the relations give it, in their
/// order and counted, and with its parent, the last one that they give it.
pub proof fn listed_sessions_have_their_kin(
    sessions: Vec<SessionWithProject>,
    previews: Vec<Option<(String, String)>>,
    child_rows: &Vec<(String, String)>,
    parent_rows: &Vec<(String, String)>,
    r: Vec<SessionWithProject>,
    i: int,
)
    requires
        call_ensures(
            list_sessions_by_project_path,
            (sessions, previews, child_rows, parent_rows),
            r,
        ),
        0 <= i < sessions@.len(),
        forall|j: int|
            0 <= j < i ==> (#[trigger] sessions@[j]).session_id@ != sessions@[i].session_id@,
    ensures
        r@.len() == sessions@.len(),
        r@[i].session_id == sessions@[i].session_id,
        r@[i].project_id == sessions@[i].project_id,
        ({
            let id = sessions@[i].session_id@;
            let children = child_rows@.filter(|p: (String, String)| p.0@ == id).map_values(
                |p: (String, String)| p.1,
            );
            let parents = parent_rows@.filter(|p: (String, String)| p.0@ == id).map_values(
                |p: (String, String)| p.1,
            );
            &&& children.len() > 0 ==> {
                &&& r@[i].child_session_ids is Some
                &&& r@[i].child_session_ids->0@ == children
                &&& r@[i].children_count == Some(children.len() as i64)
            }
            &&& children.len() == 0 ==> r@[i].children_count == sessions@[i].children_count
            &&& parents.len() > 0 ==> r@[i].parent_session_id == Some(parents.last())
            &&& parents.len() == 0 ==> r@[i].parent_session_id == sessions@[i].parent_session_id
        }),
        previews@[i] is Some ==> r@[i].last_message_type == Some((previews@[i]->0).0)
            && r@[i].last_message_preview == Some((previews@[i]->0).1),
{
    lemma_seconds_filtered(child_rows@, sessions@[i].session_id@);
    lemma_seconds_filtered(parent_rows@, sessions@[i].session_id@);
    assert(r@[i] == r@[i]);
}

proof fn lemma_places_exact(present: Seq<Seq<char>>, messages: Seq<MessageInput>, upto: int, i: int)
    requires
        0 <= i < upto <= messages.len(),
    ensures
        inserted_places(present, messages, upto).contains(i) <==> is_inserted(present, messages, i),
    decreases upto,
{
    let q = inserted_places(present, messages, upto);
    let p = inserted_places(present, messages, upto - 1);
    lemma_inserted_bound(present, messages, upto - 1);
    if i == upto - 1 {
        if is_inserted(present, messages, i) {
            assert(q[q.len() - 1] == i);
        }
    } else {
        lemma_places_exact(present, messages, upto - 1, i);
        if p.contains(i) {
            let k = choose|k: int| 0 <= k < p.len() && p[k] == i;
            assert(q[k] == i);
        }
        if q.contains(i) {
            let k = choose|k: int| 0 <= k < q.len() && q[k] == i;
            assert(p[k] == i);
        }
    }
}

/// A message is written exactly if neither the store nor an earlier message of the batch has its uuid.
pub proof fn message_is_written_once(
    present: &Vec<String>,
    messages: &Vec<MessageInput>,
    r: Vec<usize>,
    i: usize,
)
    requires
        call_ensures(insert_messages, (present, messages), r),
        i < messages@.len(),
    ensures
        r@.contains(i) <==> {
            &&& !views(present@).contains(messages@[i as int].uuid@)
            &&& forall|j: int|
                0 <= j < i ==> (#[trigger] messages@[j]).uuid@ != messages@[i as int].uuid@
        },
{
    let n = messages@.len() as int;
    let places = inserted_places(views(present@), messages@, n);
    let as_int = r@.map_values(|i: usize| i as int);
    lemma_places_exact(views(present@), messages@, n, i as int);
    if r@.contains(i) {
        let k = choose|k: int| 0 <= k < r@.len() && r@[k] == i;
        assert(as_int[k] == i);
        assert(places[k] == i);
    }
    if places.contains(i as int) {
        let k = choose|k: int| 0 <= k < places.len() && places[k] == i;
        assert(as_int[k] == i);
        assert(r@[k] == i);
    }
}

/// Once a batch is written the store has every one of its uuids.
pub proof fn every_uuid_is_stored(
    present: &Vec<String>,
    messages: &Vec<MessageInput>,
    r: Vec<usize>,
    i: int,
)
    requires
        call_ensures(insert_messages, (present, messages), r),
        0 <= i < messages@.len(),
    ensures
        views(present@).contains(messages@[i].uuid@) || exists|k: int|
            0 <= k < r@.len() && messages@[#[trigger] r@[k] as int].uuid@ == messages@[i].uuid@,
{
    let n = messages@.len() as int;
    let known = views(present@);
    let places = inserted_places(known, messages@, n);
    let as_int = r@.map_values(|i: usize| i as int);
    lemma_every_uuid_stored(known, messages@, n, i);
    let us = inserted_uuids(known, messages@, n);
    if us.contains(messages@[i].uuid@) {
        let k = choose|k: int| 0 <= k < us.len() && us[k] == messages@[i].uuid@;
        assert(as_int[k] == places[k]);
        assert(messages@[r@[k] as int].uuid@ == messages@[i].uuid@);
    }
}

/// What was written is counted by the ids that the store gave: one for each message that it took.
pub proof fn written_messages_are_counted(outcomes: &Vec<Option<i64>>, r: (usize, Vec<i64>))
    requires
        call_ensures(insert_outcome, (outcomes,), r),
    ensures
        r.0 == outcomes@.filter(|o: Option<i64>| o is Some).len(),
        r.1@ == outcomes@.filter(|o: Option<i64>| o is Some).map_values(|o: Option<i64>| o->0),
{
    lemma_written_filtered(outcomes@);
}

proof fn lemma_written_filtered(outcomes: Seq<Option<i64>>)
    ensures
        written_ids(outcomes) == outcomes.filter(|o: Option<i64>| o is Some).map_values(
            |o: Option<i64>| o->0,
        ),
    decreases outcomes.len(),
{
    reveal(Seq::filter);
    if outcomes.len() > 0 {
        lemma_written_filtered(outcomes.drop_last());
        let f = outcomes.drop_last().filter(|o: Option<i64>| o is Some);
        if outcomes.last() is Some {
            assert(f.push(outcomes.last()).map_values(|o: Option<i64>| o->0) =~= f.map_values(
                |o: Option<i64>| o->0,
            ).push(outcomes.last()->0));
        }
    }
    assert(written_ids(outcomes) =~= outcomes.filter(|o: Option<i64>| o is Some).map_values(
        |o: Option<i64>| o->0,
    ));
}

proof fn lemma_plain_word_stays(s: Seq<char>)
    requires
        forall|i: int| 0 <= i < s.len() ==> !is_control_char(#[trigger] s[i]),
    ensures
        without_controls(s) == s,
    decreases s.len(),
{
    if s.len() > 0 {
        let d = s.drop_last();
        assert forall|i: int| 0 <= i < d.len() implies !is_control_char(#[trigger] d[i]) by {
            assert(d[i] == s[i]);
        }
        lemma_plain_word_stays(d);
        assert(!is_control_char(s[s.len() - 1]));
        assert(d.push(s.last()) =~= s);
    }
    assert(without_controls(s) =~= s);
}

/// The preview of a text has at most as many characters as it may; a single word that fits is its own
/// preview; and where something is cut off, the preview is full and ends in three dots.
pub proof fn preview_fits(text: &str, max_chars: usize, r: String)
    requires
        call_ensures(truncate_preview, (text, max_chars), r),
        max_chars >= 3,
    ensures
        r@.len() <= max_chars,
        is_word(text@) && text@.len() <= max_chars && (forall|i: int|
            0 <= i < text@.len() ==> !is_control_char(#[trigger] text@[i])) ==> r@ == text@,
        is_word(text@) && text@.len() > max_chars && (forall|i: int|
            0 <= i < text@.len() ==> !is_control_char(#[trigger] text@[i])) ==> r@ == text@.take(
            max_chars - 3,
        ) + "..."@,
{
    reveal_strlit("...");
    if is_word(text@) && (forall|i: int|
        0 <= i < text@.len() ==> !is_control_char(#[trigger] text@[i])) {
        lemma_plain_word_stays(text@);
        lemma_words_of_word(text@);
        assert(joined(seq![text@], " "@) == text@);
        assert(on_one_line(text@) == text@);
    }
}

/// The preview of the last message is that of its short text, or of its full text where the short one
/// says nothing.
pub proof fn last_message_shows_its_text(
    kind: String,
    short: Option<String>,
    full: Option<String>,
    r: Option<(String, String)>,
    shown: &str,
    cut: String,
)
    requires
        call_ensures(last_message_preview, (Some((kind, short, full)),), r),
        call_ensures(truncate_preview, (shown, 100usize), cut),
        short is Some && short->0@.len() > 0 ==> shown@ == short->0@,
        (short is None || short->0@.len() == 0) && full is Some ==> shown@ == full->0@,
        (short is None || short->0@.len() == 0) && full is None ==> shown@.len() == 0,
    ensures
        r is Some,
        (r->0).0 == kind,
        (r->0).1@ == cut@,
{
    if shown@.len() == 0 {
        assert(shown@ =~= Seq::<char>::empty());
    }
}

/// Messages that are converted without a first number are numbered from zero.
pub proof fn converted_messages_are_numbered_from_zero(
    messages: &Vec<ParsedMessage>,
    r: Vec<MessageInput>,
    i: int,
)
    requires
        call_ensures(convert_messages, (messages,), r),
        0 <= i < messages@.len(),
    ensures
        r@.len() == messages@.len(),
        r@[i].sequence == i,
        r@[i].uuid == messages@[i].uuid,
        r@[i].content_full == messages@[i].content.full,
        r@[i].content_text == messages@[i].content.text,
        r@[i].message_type == messages@[i].message_type,
{
}

/// What was later comes first, and what never was comes last.
pub proof fn later_comes_first(a: Option<u64>, b: Option<u64>, r: bool)
    requires
        call_ensures(later, (a, b), r),
    ensures
        a is Some && b is Some ==> (r <==> a->0 > b->0),
        a is Some && b is None ==> r,
        a is None ==> !r,
{
}

/// A project that was seen again is only touched, or given the directory that it now has; one that is new
/// is written with all that is said of it.
pub proof fn project_write_binds_what_is_said(
    id: i64,
    at: i64,
    name: String,
    path: String,
    source: String,
    dir: String,
    a: Statement,
    b: Statement,
    c: Statement,
)
    requires
        call_ensures(
            store_project,
            (&ProjectWrite::Touch { id, updated_at: at },),
            a,
        ),
        call_ensures(
            store_project,
            (&ProjectWrite::Rename { id, updated_at: at, encoded_dir_name: dir },),
            b,
        ),
        call_ensures(
            store_project,
            (&ProjectWrite::Create {
                name,
                path,
                source,
                encoded_dir_name: Some(dir),
                created_at: at,
            },),
            c,
        ),
    ensures
        value_views(a.params@) == seq![SqlView::Integer(at), SqlView::Integer(id)],
        value_views(b.params@) == seq![
            SqlView::Integer(at),
            SqlView::Text(dir@),
            SqlView::Integer(id),
        ],
        value_views(c.params@) == seq![
            SqlView::Text(name@),
            SqlView::Text(path@),
            SqlView::Text(source@),
            SqlView::Text(dir@),
            SqlView::Integer(at),
        ],
        a.sql@ != b.sql@,
{
    reveal_strlit("UPDATE projects SET updated_at = ?1 WHERE id = ?2");
    reveal_strlit("UPDATE projects SET updated_at = ?1, encoded_dir_name = ?2 WHERE id = ?3");
    assert(a.sql@.len() != b.sql@.len());
}

/// A session is shown with its last message, its children and its parent, as far as there are any; and
/// is otherwise as it was.
pub proof fn session_is_shown_with_its_kin(
    s: SessionWithProject,
    kind: String,
    text: String,
    children: Vec<String>,
    parent: String,
    r: SessionWithProject,
    q: SessionWithProject,
    none: Vec<String>,
)
    requires
        call_ensures(
            with_relations,
            (s, Some((kind, text)), children, Some(parent)),
            r,
        ),
        call_ensures(with_relations, (s, None, none, None), q),
        children@.len() > 0,
        none@.len() == 0,
    ensures
        r.last_message_type == Some(kind),
        r.last_message_preview == Some(text),
        r.parent_session_id == Some(parent),
        r.child_session_ids is Some && r.child_session_ids->0@ == children@,
        r.children_count is Some,
        children@.len() <= i64::MAX ==> r.children_count->0 == children@.len(),
        r.session_id == s.session_id && r.project_id == s.project_id,
        q.last_message_type == s.last_message_type && q.parent_session_id == s.parent_session_id
            && q.children_count == s.children_count && q.child_session_ids == s.child_session_ids,
{
}

/// Approvals are settled together by the ids of their messages, with one state and one time.
pub proof fn approvals_are_settled_together(
    uuids: &Vec<String>,
    status: ApprovalStatus,
    at: i64,
    r: Option<Statement>,
)
    requires
        call_ensures(batch_update_approval_status, (uuids, status, at), r),
    ensures
        r is Some <==> uuids@.len() > 0,
        r is Some ==> {
            &&& r->0.params@.len() == 2 + uuids@.len()
            &&& r->0.params@[0]@ == SqlView::Text(status.word())
            &&& r->0.params@[1]@ == SqlView::Integer(at)
            &&& forall|i: int|
                0 <= i < uuids@.len() ==> (#[trigger] r->0.params@[2 + i])@ == SqlView::Text(
                    uuids@[i]@,
                )
        },
{
    if r is Some {
        let v = value_views(r->0.params@);
        assert(v.len() == r->0.params@.len());
        assert(v[0] == r->0.params@[0]@ && v[1] == r->0.params@[1]@);
        assert forall|i: int| 0 <= i < uuids@.len() implies (#[trigger] r->0.params@[2 + i])@
            == SqlView::Text(uuids@[i]@) by {
            assert(v[2 + i] == r->0.params@[2 + i]@);
        }
    }
}

/// Where a session is listed twice, its children are shown with the first of the two alone.
pub proof fn children_are_shown_once(
    sessions: Vec<SessionWithProject>,
    previews: Vec<Option<(String, String)>>,
    child_rows: &Vec<(String, String)>,
    parent_rows: &Vec<(String, String)>,
    r: Vec<SessionWithProject>,
    j: int,
    i: int,
)
    requires
        call_ensures(
            list_sessions_by_project_path,
            (sessions, previews, child_rows, parent_rows),
            r,
        ),
        0 <= j < i < sessions@.len(),
        sessions@[j].session_id@ == sessions@[i].session_id@,
    ensures
        r@[i].children_count == sessions@[i].children_count,
        r@[i].child_session_ids == sessions@[i].child_session_ids,
{
    assert(r@[i] == r@[i]);
}

} // verus!

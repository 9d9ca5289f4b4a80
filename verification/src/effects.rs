//! What the statements that write do to the rows of their tables, given the values that are bound to
//! them, and that this is what the functions of the library say becomes of the rows.
use vstd::prelude::*;
use crate::coordination::{
    heard_of, holds, is_claim, is_registered, may_take_over, Coordinator, Role, WriterInfo,
};
use crate::db::{
    inserted_places, inserted_uuids, is_inserted, is_seen_row, is_talk_row, lemma_every_uuid_stored,
    lemma_inserted_bound, message_values, session_written, MessageInput, SessionInput, SessionRow,
    TalkRow,
};
use crate::queries::{
    claim_values, release_values, renewal_values, seen_values, session_values, talk_values,
    writer_values,
};
use crate::sql::{integer_or_null, text_or_null, SqlView};

verus! {

/// The first of two values that is not null.
pub open spec fn coalesced(new: SqlView, old: SqlView) -> SqlView {
    if new is Null {
        old
    } else {
        new
    }
}

/// The number that a value is.
pub open spec fn number_in(v: SqlView) -> int {
    match v {
        SqlView::Integer(n) => n as int,
        _ => 0,
    }
}

// ---- The registered writer ----

/// The row of the registered writer.
pub struct WriterCells {
    pub writer_type: SqlView,
    pub writer_id: SqlView,
    pub priority: SqlView,
    pub heartbeat: SqlView,
    pub registered_at: SqlView,
}

/// The row of the registered writer, if any.
pub open spec fn registry_cells(registry: Option<WriterInfo>) -> Option<WriterCells> {
    match registry {
        Some(w) => Some(
            WriterCells {
                writer_type: SqlView::Text(w.writer_type@),
                writer_id: SqlView::Text(w.writer_id@),
                priority: SqlView::Integer(w.priority as i64),
                heartbeat: SqlView::Integer(w.heartbeat),
                registered_at: SqlView::Integer(w.registered_at),
            },
        ),
        None => None,
    }
}

/// The row that is written for a process.
pub open spec fn bound_writer(values: Seq<SqlView>) -> WriterCells {
    WriterCells {
        writer_type: values[0],
        writer_id: values[1],
        priority: values[2],
        heartbeat: values[3],
        registered_at: values[3],
    }
}

/// The registry once `CLAIM_WRITER` has run with the values, and how many rows it changed.
pub open spec fn after_claim(row: Option<WriterCells>, values: Seq<SqlView>) -> (
    Option<WriterCells>,
    nat,
) {
    match row {
        None => (Some(bound_writer(values)), 1),
        Some(w) => if number_in(values[3]) - number_in(w.heartbeat) > number_in(values[4])
            || number_in(values[2]) > number_in(w.priority) {
            (Some(bound_writer(values)), 1)
        } else {
            (row, 0)
        },
    }
}

/// The registry once a heartbeat has run with the values, and how many rows it changed.
pub open spec fn after_renewal(row: Option<WriterCells>, values: Seq<SqlView>) -> (
    Option<WriterCells>,
    nat,
) {
    match row {
        Some(w) => if w.writer_id == values[1] {
            (Some(WriterCells { heartbeat: values[0], ..w }), 1)
        } else {
            (row, 0)
        },
        None => (row, 0),
    }
}

/// The registry once a release has run with the values, and how many rows it changed.
pub open spec fn after_release(row: Option<WriterCells>, values: Seq<SqlView>) -> (
    Option<WriterCells>,
    nat,
) {
    match row {
        Some(w) => if w.writer_id == values[0] {
            (None, 1)
        } else {
            (row, 0)
        },
        None => (row, 0),
    }
}

/// The registry once `TAKE_OVER_WRITER` has run with the values, and how many rows it changed.
pub open spec fn after_take_over(row: Option<WriterCells>, values: Seq<SqlView>) -> (
    Option<WriterCells>,
    nat,
) {
    match row {
        Some(w) => if number_in(values[3]) - number_in(w.heartbeat) > number_in(values[4]) {
            (Some(bound_writer(values)), 1)
        } else {
            (row, 0)
        },
        None => (row, 0),
    }
}

/// The registry once a takeover has run, and, where that changed nothing and nobody is registered,
/// `FILL_VACANCY`; and how many rows the last of them changed.
pub open spec fn after_takeover(
    row: Option<WriterCells>,
    take: Seq<SqlView>,
    fill: Seq<SqlView>,
) -> (Option<WriterCells>, nat) {
    let (taken, rows) = after_take_over(row, take);
    if rows == 0 && taken is None {
        (Some(bound_writer(fill)), 1)
    } else {
        (taken, rows)
    }
}

/// The statement of a claim leaves in the registry what the claim of the process says, and changes
/// a row exactly where the process becomes the writer.
pub proof fn claim_statement_claims(
    before: Option<WriterInfo>,
    c: Coordinator,
    now: i64,
    after: Option<WriterInfo>,
    role: Role,
)
    requires
        is_claim(before, c, now, after, role),
    ensures
        ({
            let (row, rows) = after_claim(registry_cells(before), claim_values(c, now));
            &&& row == registry_cells(after)
            &&& rows > 0 <==> role == Role::Writer
        }),
{
}

/// The statement of a heartbeat lets the process be heard of, and changes a row exactly where the
/// process is registered.
pub proof fn renewal_statement_renews(registry: Option<WriterInfo>, c: Coordinator, now: i64)
    ensures
        ({
            let (row, rows) = after_renewal(registry_cells(registry), renewal_values(c, now));
            let mine = holds(registry, c.writer_id@);
            &&& row == registry_cells(
                if mine {
                    heard_of(registry, now)
                } else {
                    registry
                },
            )
            &&& rows > 0 <==> mine
        }),
{
}

/// The statement of a release removes the process where it is registered, and nobody else.
pub proof fn release_statement_releases(registry: Option<WriterInfo>, c: Coordinator)
    ensures
        after_release(registry_cells(registry), release_values(c)).0 == registry_cells(
            if holds(registry, c.writer_id@) {
                None
            } else {
                registry
            },
        ),
{
}

/// The statements of a takeover register the process exactly where it may take over, and change a
/// row exactly then; otherwise the registry stays.
pub proof fn takeover_statements_take_over(
    before: Option<WriterInfo>,
    c: Coordinator,
    now: i64,
    after: Option<WriterInfo>,
)
    requires
        if may_take_over(before, now, c.config.timeout_threshold_ms) {
            is_registered(after, c, now)
        } else {
            after == before
        },
    ensures
        ({
            let (row, rows) = after_takeover(
                registry_cells(before),
                claim_values(c, now),
                writer_values(c, now),
            );
            &&& row == registry_cells(after)
            &&& rows > 0 <==> may_take_over(before, now, c.config.timeout_threshold_ms)
        }),
{
}

// ---- Sessions ----

/// The row of a session.
pub struct SessionCells {
    pub session_id: SqlView,
    pub project_id: SqlView,
    pub message_count: SqlView,
    pub last_message_at: SqlView,
    pub cwd: SqlView,
    pub model: SqlView,
    pub channel: SqlView,
    pub file_mtime: SqlView,
    pub file_size: SqlView,
    pub file_offset: SqlView,
    pub file_inode: SqlView,
    pub encoded_dir_name: SqlView,
    pub meta: SqlView,
    pub session_type: SqlView,
    pub source: SqlView,
    pub created_at: SqlView,
    pub updated_at: SqlView,
}

/// The values of a session's row.
pub open spec fn session_cells(row: SessionRow) -> SessionCells {
    SessionCells {
        session_id: SqlView::Text(row.session_id@),
        project_id: SqlView::Integer(row.project_id),
        message_count: integer_or_null(row.message_count),
        last_message_at: integer_or_null(row.last_message_at),
        cwd: text_or_null(row.cwd),
        model: text_or_null(row.model),
        channel: text_or_null(row.channel),
        file_mtime: integer_or_null(row.file_mtime),
        file_size: integer_or_null(row.file_size),
        file_offset: integer_or_null(row.file_offset),
        file_inode: integer_or_null(row.file_inode),
        encoded_dir_name: text_or_null(row.encoded_dir_name),
        meta: text_or_null(row.meta),
        session_type: text_or_null(row.session_type),
        source: text_or_null(row.source),
        created_at: SqlView::Integer(row.created_at),
        updated_at: SqlView::Integer(row.updated_at),
    }
}

/// The rows of the sessions by their ids.
pub type SessionTable = Map<SqlView, SessionCells>;

/// The row of a session, where there is one.
pub open spec fn row_in(table: SessionTable, id: SqlView) -> Option<SessionCells> {
    if table.contains_key(id) {
        Some(table[id])
    } else {
        None
    }
}

/// Whether the table has the row of the session, or has none as there is none.
pub open spec fn keeps(table: SessionTable, id: SqlView, row: Option<SessionRow>) -> bool {
    row_in(table, id) == match row {
        Some(r) => Some(session_cells(r)),
        None => None,
    }
}

/// The sessions once `UPSERT_SESSION` has run with the values. Columns that it does not name have
/// their defaults in a new row.
pub open spec fn after_seen(table: SessionTable, values: Seq<SqlView>) -> SessionTable {
    table.insert(
        values[0],
        match row_in(table, values[0]) {
            Some(row) => SessionCells { updated_at: values[2], ..row },
            None => SessionCells {
                session_id: values[0],
                project_id: values[1],
                message_count: SqlView::Integer(0),
                last_message_at: SqlView::Null,
                cwd: SqlView::Null,
                model: SqlView::Null,
                channel: SqlView::Null,
                file_mtime: SqlView::Null,
                file_size: SqlView::Null,
                file_offset: SqlView::Integer(0),
                file_inode: SqlView::Null,
                encoded_dir_name: SqlView::Null,
                meta: SqlView::Null,
                session_type: SqlView::Null,
                source: SqlView::Null,
                created_at: values[2],
                updated_at: values[2],
            },
        },
    )
}

/// The sessions once `UPSERT_SESSION_FULL` has run with the values. It fails where the column of the
/// number of messages wants one and there is none.
pub open spec fn after_upsert(table: SessionTable, values: Seq<SqlView>, count_wanted: bool) -> Option<
    SessionTable,
> {
    if count_wanted && values[5] is Null {
        None
    } else {
        Some(
            table.insert(
                values[0],
                match row_in(table, values[0]) {
                    Some(row) => SessionCells {
                        cwd: coalesced(values[2], row.cwd),
                        model: coalesced(values[3], row.model),
                        channel: coalesced(values[4], row.channel),
                        message_count: coalesced(values[5], row.message_count),
                        file_mtime: coalesced(values[6], row.file_mtime),
                        file_size: coalesced(values[7], row.file_size),
                        file_offset: coalesced(values[8], row.file_offset),
                        file_inode: coalesced(values[9], row.file_inode),
                        meta: coalesced(values[10], row.meta),
                        session_type: coalesced(values[11], row.session_type),
                        source: coalesced(values[12], row.source),
                        updated_at: values[13],
                        ..row
                    },
                    None => SessionCells {
                        session_id: values[0],
                        project_id: values[1],
                        message_count: values[5],
                        last_message_at: SqlView::Null,
                        cwd: values[2],
                        model: values[3],
                        channel: values[4],
                        file_mtime: values[6],
                        file_size: values[7],
                        file_offset: values[8],
                        file_inode: values[9],
                        encoded_dir_name: SqlView::Null,
                        meta: values[10],
                        session_type: values[11],
                        source: values[12],
                        created_at: values[13],
                        updated_at: values[13],
                    },
                },
            ),
        )
    }
}

/// The statement for a session that was seen leaves the row that the library says it has, and the
/// rows of all other sessions as they are.
pub proof fn seen_statement_writes_the_row(
    table: SessionTable,
    existing: Option<SessionRow>,
    session_id: Seq<char>,
    project_id: i64,
    now: i64,
    r: SessionRow,
)
    requires
        keeps(table, SqlView::Text(session_id), existing),
        is_seen_row(r, existing, session_id, project_id, now),
    ensures
        after_seen(table, seen_values(session_id, project_id, now)) == table.insert(
            SqlView::Text(session_id),
            session_cells(r),
        ),
{
}

/// The statement for what is known of a session leaves the row that the library says it has, and
/// the rows of all other sessions as they are; and it fails exactly where the library refuses.
pub proof fn upsert_statement_writes_the_row(
    table: SessionTable,
    existing: Option<SessionRow>,
    input: SessionInput,
    count_wanted: bool,
    now: i64,
)
    requires
        keeps(table, SqlView::Text(input.session_id@), existing),
    ensures
        after_upsert(table, session_values(input, now), count_wanted) == if count_wanted
            && input.message_count is None {
            None
        } else {
            Some(
                table.insert(
                    SqlView::Text(input.session_id@),
                    session_cells(session_written(existing, input, now)),
                ),
            )
        },
{
}

// ---- Talks ----

/// The row of a talk.
pub struct TalkCells {
    pub session_id: SqlView,
    pub talk_id: SqlView,
    pub summary_l2: SqlView,
    pub summary_l3: SqlView,
    pub created_at: SqlView,
    pub updated_at: SqlView,
}

/// The values of a talk's row.
pub open spec fn talk_cells(row: TalkRow) -> TalkCells {
    TalkCells {
        session_id: SqlView::Text(row.session_id@),
        talk_id: SqlView::Text(row.talk_id@),
        summary_l2: SqlView::Text(row.summary_l2@),
        summary_l3: text_or_null(row.summary_l3),
        created_at: SqlView::Integer(row.created_at),
        updated_at: SqlView::Integer(row.updated_at),
    }
}

/// The rows of the talks by their sessions and ids.
pub type TalkTable = Map<(SqlView, SqlView), TalkCells>;

/// Whether the table has the row of the talk, or has none as there is none.
pub open spec fn keeps_talk(table: TalkTable, id: (SqlView, SqlView), row: Option<TalkRow>) -> bool {
    match row {
        Some(r) => table.contains_key(id) && table[id] == talk_cells(r),
        None => !table.contains_key(id),
    }
}

/// The talks once `UPSERT_TALK` has run with the values.
pub open spec fn after_talk(table: TalkTable, values: Seq<SqlView>) -> TalkTable {
    let id = (values[0], values[1]);
    table.insert(
        id,
        if table.contains_key(id) {
            TalkCells {
                summary_l2: values[2],
                summary_l3: coalesced(values[3], table[id].summary_l3),
                updated_at: values[4],
                ..table[id]
            }
        } else {
            TalkCells {
                session_id: values[0],
                talk_id: values[1],
                summary_l2: values[2],
                summary_l3: values[3],
                created_at: values[4],
                updated_at: values[4],
            }
        },
    )
}

/// The statement for the summary of a talk leaves the row that the library says it has, and the rows
/// of all other talks as they are.
pub proof fn talk_statement_writes_the_row(
    table: TalkTable,
    existing: Option<TalkRow>,
    session_id: Seq<char>,
    talk_id: Seq<char>,
    summary_l2: Seq<char>,
    summary_l3: Option<&str>,
    now: i64,
    r: TalkRow,
)
    requires
        keeps_talk(table, (SqlView::Text(session_id), SqlView::Text(talk_id)), existing),
        is_talk_row(r, existing, session_id, talk_id, summary_l2, summary_l3, now),
    ensures
        after_talk(table, talk_values(session_id, talk_id, summary_l2, summary_l3, now))
            == table.insert(
            (SqlView::Text(session_id), SqlView::Text(talk_id)),
            talk_cells(r),
        ),
{
}

// ---- Messages ----

/// The uuid in the values of a message.
pub open spec fn uuid_in(values: Seq<SqlView>) -> Seq<char> {
    match values[1] {
        SqlView::Text(s) => s,
        _ => seq![],
    }
}

/// The uuids of the messages in the store.
pub open spec fn uuids_in(rows: Seq<Seq<SqlView>>) -> Seq<Seq<char>> {
    rows.map_values(|values: Seq<SqlView>| uuid_in(values))
}

/// The messages once `INSERT_MESSAGE` has run with the values: a uuid that is there is not written.
pub open spec fn after_insert(rows: Seq<Seq<SqlView>>, values: Seq<SqlView>) -> Seq<Seq<SqlView>> {
    if uuids_in(rows).contains(uuid_in(values)) {
        rows
    } else {
        rows.push(values)
    }
}

/// The messages once `INSERT_MESSAGE` has run for the first `n` messages, one after the other.
pub open spec fn after_inserts(
    rows: Seq<Seq<SqlView>>,
    session_id: Seq<char>,
    messages: Seq<MessageInput>,
    n: nat,
) -> Seq<Seq<SqlView>>
    decreases n,
{
    if n == 0 {
        rows
    } else {
        after_insert(
            after_inserts(rows, session_id, messages, (n - 1) as nat),
            message_values(session_id, messages[n - 1]),
        )
    }
}

/// The rows of the messages at the places.
pub open spec fn rows_at(session_id: Seq<char>, messages: Seq<MessageInput>, places: Seq<int>) -> Seq<
    Seq<SqlView>,
> {
    places.map_values(|i: int| message_values(session_id, messages[i]))
}

proof fn lemma_insert_statements(
    rows: Seq<Seq<SqlView>>,
    session_id: Seq<char>,
    messages: Seq<MessageInput>,
    n: nat,
)
    requires
        n <= messages.len(),
    ensures
        after_inserts(rows, session_id, messages, n) == rows + rows_at(
            session_id,
            messages,
            inserted_places(uuids_in(rows), messages, n as int),
        ),
        uuids_in(after_inserts(rows, session_id, messages, n)) == uuids_in(rows) + inserted_uuids(
            uuids_in(rows),
            messages,
            n as int,
        ),
    decreases n,
{
    let present = uuids_in(rows);
    if n == 0 {
        assert(rows + rows_at(session_id, messages, Seq::<int>::empty()) =~= rows);
        assert(present + inserted_uuids(present, messages, 0) =~= present);
    } else {
        let k = (n - 1) as nat;
        lemma_insert_statements(rows, session_id, messages, k);
        let before = after_inserts(rows, session_id, messages, k);
        let after = after_inserts(rows, session_id, messages, n);
        let m = messages[k as int];
        let values = message_values(session_id, m);
        let u = m.uuid@;
        let us = inserted_uuids(present, messages, k as int);
        let places = inserted_places(present, messages, k as int);
        assert(uuid_in(values) == u);
        assert(uuids_in(before).contains(u) <==> !is_inserted(present, messages, k as int)) by {
            if uuids_in(before).contains(u) {
                let i = choose|i: int| 0 <= i < uuids_in(before).len() && uuids_in(before)[i] == u;
                if i < present.len() {
                    assert(present[i] == u);
                } else {
                    let l = i - present.len();
                    lemma_inserted_bound(present, messages, k as int);
                    assert(us[l] == u);
                    assert(messages[places[l]].uuid@ == u);
                }
            }
            if !is_inserted(present, messages, k as int) {
                if present.contains(u) {
                    let i = choose|i: int| 0 <= i < present.len() && present[i] == u;
                    assert(uuids_in(before)[i] == u);
                } else {
                    let j = choose|j: int| 0 <= j < k && (#[trigger] messages[j]).uuid@ == u;
                    lemma_every_uuid_stored(present, messages, k as int, j);
                    let l = choose|l: int| 0 <= l < us.len() && us[l] == u;
                    assert(uuids_in(before)[present.len() + l] == u);
                }
            }
        }
        if is_inserted(present, messages, k as int) {
            assert(after == before.push(values));
            assert(rows_at(session_id, messages, places.push(k as int)) =~= rows_at(
                session_id,
                messages,
                places,
            ).push(values));
            assert(after =~= rows + rows_at(session_id, messages, places.push(k as int)));
            assert(inserted_uuids(present, messages, n as int) =~= us.push(u));
            assert(uuids_in(after) =~= uuids_in(before).push(u));
            assert(uuids_in(after) =~= present + us.push(u));
        }
    }
}

/// The statements for a list of messages, one after the other, write exactly the messages that the
/// library says are written, in order, behind the rows that are there; and the statement for a
/// message changes a row exactly where that message is written.
pub proof fn insert_statements_write_what_is_new(
    rows: Seq<Seq<SqlView>>,
    session_id: Seq<char>,
    messages: Seq<MessageInput>,
)
    ensures
        after_inserts(rows, session_id, messages, messages.len()) == rows + rows_at(
            session_id,
            messages,
            inserted_places(uuids_in(rows), messages, messages.len() as int),
        ),
        uuids_in(after_inserts(rows, session_id, messages, messages.len())) == uuids_in(rows)
            + inserted_uuids(uuids_in(rows), messages, messages.len() as int),
        forall|i: int|
            0 <= i < messages.len() ==> (#[trigger] is_inserted(uuids_in(rows), messages, i)
                <==> after_inserts(rows, session_id, messages, (i + 1) as nat).len()
                > after_inserts(rows, session_id, messages, i as nat).len()),
{
    let present = uuids_in(rows);
    lemma_insert_statements(rows, session_id, messages, messages.len());
    assert forall|i: int| 0 <= i < messages.len() implies (#[trigger] is_inserted(
        present,
        messages,
        i,
    ) <==> after_inserts(rows, session_id, messages, (i + 1) as nat).len() > after_inserts(
        rows,
        session_id,
        messages,
        i as nat,
    ).len()) by {
        lemma_insert_statements(rows, session_id, messages, i as nat);
        lemma_insert_statements(rows, session_id, messages, (i + 1) as nat);
    }
}

} // verus!

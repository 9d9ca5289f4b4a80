//! What holds of the store's upkeep: its place, its schema, archiving and repair.
use vstd::prelude::*;
use crate::archive::{archive_counts, counted, process_message, ArchiveStep};
use crate::config::{ConnectionMode, DbConfig};
use crate::db::{
    after_open_failure, decode_message, get_session_incremental_state, integrity_of_report,
    is_malformed_error, listed_ids, parse_ids, IncrementalState, IntegrityCheckResult, MessageRow,
    OpenFailure,
};
use crate::error::Error;
use crate::migrations::{
    add_column, ensure_column, ensure_messages_columns, ensure_sessions_columns, message_columns,
    missing_columns, session_columns, version_update, SCHEMA_VERSION,
};
use crate::paths::PathStyle;
use crate::repair::{
    after_open, copy_table, has_other_db_users, quoted, repair_malformed, repair_with_connection,
    run_repair, CopyStatements, RepairStep,
};
use crate::session::IndexableMessage;
use crate::sql::{value_views, SqlView};
use crate::text::{
    all_ascii, ascii_lower, begins_with, finishes_with, i64_value, joined, occurs_in, pieces,
    trimmed, views,
};
use crate::time::{parse_timestamp_to_millis, rfc3339_millis};
use crate::types::{Message, MessageType};
use crate::version::version_full;

verus! {

/// A store that is named is the store; it is elsewhere exactly where its name says so. One that is not
/// named is here.
pub proof fn named_store_is_the_store(
    style: PathStyle,
    url: Option<String>,
    home: Option<&str>,
    r: DbConfig,
)
    requires
        call_ensures(DbConfig::in_home, (style, url, home), r),
    ensures
        url is Some ==> r.url@ == url->0@,
        url is Some ==> (r.mode == ConnectionMode::Remote <==> begins_with(url->0@, "libsql://"@)),
        url is None ==> r.mode == ConnectionMode::Local,
        url is None && home is None ==> r.url@ == "ai-cli-session.db"@,
{
}

/// Only a store that is here has a path, and only it can be opened; its path is what it was named.
pub proof fn store_that_is_here_can_be_opened(
    c: &DbConfig,
    path: Option<String>,
    opened: Result<String, Error>,
)
    requires
        call_ensures(DbConfig::path, (c,), path),
        call_ensures(DbConfig::connect, (c,), opened),
    ensures
        path is Some <==> c.mode == ConnectionMode::Local,
        opened is Ok <==> c.mode == ConnectionMode::Local,
        path is Some ==> path->0@ == c.url@ && opened->Ok_0@ == c.url@,
{
}

/// A time that is written out is that time; otherwise a number is taken for it, and anything else for
/// none.
pub proof fn time_is_read_as_it_is_written(ts: &str, r: Option<i64>)
    requires
        call_ensures(parse_timestamp_to_millis, (ts,), r),
    ensures
        rfc3339_millis(ts@) is Some ==> r == rfc3339_millis(ts@),
        rfc3339_millis(ts@) is None ==> r == i64_value(ts@),
{
}

/// A message that the store has is brought up to date by its id; one that it lacks is inserted with all
/// that is known of it.
pub proof fn archived_message_is_written_once(
    session: &str,
    source: &str,
    m: &IndexableMessage,
    raw: &Option<String>,
    known: &Vec<String>,
    r: ArchiveStep,
)
    requires
        call_ensures(process_message, (session, source, m, raw, known), r),
    ensures
        r is Update <==> exists|i: int| 0 <= i < known@.len() && (#[trigger] known@[i])@ == m.uuid@,
        r matches ArchiveStep::Update(s) ==> {
            &&& s.params@.len() == 3
            &&& s.params@[0]@ == SqlView::Text(m.content.text@)
            &&& s.params@[1]@ == SqlView::Text(m.content.full@)
            &&& s.params@[2]@ == SqlView::Text(m.uuid@)
        },
        r matches ArchiveStep::Insert(s) ==> {
            &&& s.params@.len() == 9
            &&& s.params@[0]@ == SqlView::Text(session@)
            &&& s.params@[1]@ == SqlView::Text(m.uuid@)
            &&& s.params@[2]@ == SqlView::Text(m.role@)
            &&& s.params@[3]@ == SqlView::Text(m.content.text@)
            &&& s.params@[4]@ == SqlView::Text(m.content.full@)
            &&& s.params@[5]@ == SqlView::Integer(m.timestamp)
            &&& s.params@[6]@ == SqlView::Integer(m.sequence)
            &&& s.params@[7]@ == SqlView::Text(source@)
        },
{
    if exists|i: int| 0 <= i < known@.len() && (#[trigger] known@[i])@ == m.uuid@ {
        let i = choose|i: int| 0 <= i < known@.len() && (#[trigger] known@[i])@ == m.uuid@;
        assert(views(known@)[i] == m.uuid@);
    }
    if views(known@).contains(m.uuid@) {
        let i = choose|i: int| 0 <= i < views(known@).len() && views(known@)[i] == m.uuid@;
        assert(known@[i]@ == m.uuid@);
    }
    match r {
        ArchiveStep::Update(s) => {
            let v = value_views(s.params@);
            assert(v.len() == s.params@.len());
            assert(v[0] == s.params@[0]@ && v[1] == s.params@[1]@ && v[2] == s.params@[2]@);
        },
        ArchiveStep::Insert(s) => {
            let v = value_views(s.params@);
            assert(v.len() == s.params@.len());
            assert(v[0] == s.params@[0]@ && v[1] == s.params@[1]@ && v[2] == s.params@[2]@ && v[3]
                == s.params@[3]@ && v[4] == s.params@[4]@ && v[5] == s.params@[5]@ && v[6]
                == s.params@[6]@ && v[7] == s.params@[7]@);
        },
    }
}

/// Every insertion counts as new, and an update counts where it changed a row.
pub proof fn archive_counts_step_by_step(
    steps: &Vec<ArchiveStep>,
    rows: &Vec<usize>,
    r: (usize, usize),
    more: &Vec<ArchiveStep>,
    more_rows: &Vec<usize>,
    s: ArchiveStep,
    n: usize,
    q: (usize, usize),
)
    requires
        call_ensures(archive_counts, (steps, rows), r),
        call_ensures(archive_counts, (more, more_rows), q),
        rows@.len() == steps@.len(),
        more@ == steps@.push(s),
        more_rows@ == rows@.push(n),
    ensures
        s is Insert ==> q.0 == r.0 + 1 && q.1 == r.1,
        s is Update && n > 0 ==> q.0 == r.0 && q.1 == r.1 + 1,
        s is Update && n == 0 ==> q == r,
        steps@.len() == 0 ==> r == (0usize, 0usize),
{
    assert(more@.drop_last() =~= steps@);
    lemma_rows_behind_do_not_count(steps@, rows@, n);
}

proof fn lemma_rows_behind_do_not_count(steps: Seq<ArchiveStep>, rows: Seq<usize>, n: usize)
    requires
        rows.len() >= steps.len(),
    ensures
        counted(steps, rows.push(n)) == counted(steps, rows),
    decreases steps.len(),
{
    if steps.len() > 0 {
        lemma_rows_behind_do_not_count(steps.drop_last(), rows, n);
        assert(rows.push(n)[steps.len() - 1] == rows[steps.len() - 1]);
    }
}

/// A column is added exactly where its table is there and lacks it.
pub proof fn missing_column_is_added(
    table: &str,
    there: bool,
    present: &Vec<String>,
    column: &str,
    definition: &str,
    r: Option<String>,
)
    requires
        call_ensures(ensure_column, (table, there, present, column, definition), r),
    ensures
        r is Some <==> there && forall|i: int|
            0 <= i < present@.len() ==> (#[trigger] present@[i])@ != column@,
        r is Some ==> r->0@ == "ALTER TABLE "@ + table@ + " ADD COLUMN "@ + column@ + " "@
            + definition@,
{
    if views(present@).contains(column@) {
        let i = choose|i: int| 0 <= i < views(present@).len() && views(present@)[i] == column@;
        assert(present@[i]@ == column@);
    }
    if exists|i: int| 0 <= i < present@.len() && (#[trigger] present@[i])@ == column@ {
        let i = choose|i: int| 0 <= i < present@.len() && (#[trigger] present@[i])@ == column@;
        assert(views(present@)[i] == column@);
    }
}

proof fn lemma_missing(
    table: Seq<char>,
    there: bool,
    present: Seq<Seq<char>>,
    wanted: Seq<(Seq<char>, Seq<char>)>,
    i: int,
)
    requires
        0 <= i < wanted.len(),
    ensures
        there && !present.contains(wanted[i].0) ==> missing_columns(
            table,
            there,
            present,
            wanted,
        ).contains("ALTER TABLE "@ + table + " ADD COLUMN "@ + wanted[i].0 + " "@ + wanted[i].1),
        !there ==> missing_columns(table, there, present, wanted).len() == 0,
        missing_columns(table, there, present, wanted).len() <= wanted.len(),
    decreases wanted.len(),
{
    let d = wanted.drop_last();
    let p = missing_columns(table, there, present, d);
    let all = missing_columns(table, there, present, wanted);
    if d.len() > 0 {
        lemma_missing(
            table,
            there,
            present,
            d,
            if i < d.len() {
                i
            } else {
                0
            },
        );
    }
    if there && !present.contains(wanted[i].0) {
        let sql = add_column(table, wanted[i]);
        if i == d.len() {
            assert(all[p.len() as int] == sql);
        } else {
            assert(d[i] == wanted[i]);
            let k = choose|k: int| 0 <= k < p.len() && p[k] == sql;
            assert(all[k] == sql);
        }
    }
}

/// A table of sessions that is there gets every column that it should have and lacks; one that is not
/// there gets none.
pub proof fn sessions_get_what_they_lack(there: bool, present: &Vec<String>, r: Vec<String>, i: int)
    requires
        call_ensures(ensure_sessions_columns, (there, present), r),
        0 <= i < session_columns().len(),
    ensures
        !there ==> r@.len() == 0,
        there && !views(present@).contains(session_columns()[i].0) ==> views(r@).contains(
            "ALTER TABLE "@ + "sessions"@ + " ADD COLUMN "@ + session_columns()[i].0 + " "@
                + session_columns()[i].1,
        ),
{
    lemma_missing("sessions"@, there, views(present@), session_columns(), i);
    assert(views(r@).len() == r@.len());
}

/// A table of messages that is there gets every column that it should have and lacks; one that is not
/// there gets none.
pub proof fn messages_get_what_they_lack(
    there: bool,
    present: &Vec<String>,
    source: &str,
    r: Vec<String>,
    i: int,
)
    requires
        call_ensures(ensure_messages_columns, (there, present, source), r),
        0 <= i < message_columns(source@).len(),
    ensures
        !there ==> r@.len() == 0,
        there && !views(present@).contains(message_columns(source@)[i].0) ==> views(r@).contains(
            "ALTER TABLE "@ + "messages"@ + " ADD COLUMN "@ + message_columns(source@)[i].0 + " "@
                + message_columns(source@)[i].1,
        ),
{
    lemma_missing("messages"@, there, views(present@), message_columns(source@), i);
    assert(views(r@).len() == r@.len());
}

/// The version of a store only rises, and to the present one.
pub proof fn version_only_rises(current: i32, r: Option<i32>)
    requires
        call_ensures(version_update, (current,), r),
    ensures
        r is Some <==> current < SCHEMA_VERSION,
        r is Some ==> r->0 > current && r->0 == SCHEMA_VERSION,
        current < 1 ==> r == Some(1i32),
        current >= 1 ==> r is None,
{
}

/// A repair begins only on a store that is there and that nobody else uses.
pub proof fn repair_begins_alone(path: &str, there: bool, used: bool, r: Result<(), String>)
    requires
        call_ensures(run_repair, (path, there, used), r),
    ensures
        r is Ok <==> there && !used,
        !there ==> r is Err && r->Err_0@ == "Database file not found: "@ + path@,
{
}

/// Others use the store exactly where they share its memory and its lock cannot be had.
pub proof fn others_are_known_by_their_lock(shared: bool, locked: bool, r: bool)
    requires
        call_ensures(has_other_db_users, (shared, locked), r),
    ensures
        !shared ==> !r,
        locked ==> !r,
        shared && !locked ==> r,
{
}

/// A store that opens is checked; one that is malformed loses its log first, and one that fails otherwise
/// is given up, as is one that is still malformed then.
pub proof fn repair_goes_step_by_step(
    none: RepairStep,
    error: &str,
    some: RepairStep,
    again: RepairStep,
    still: RepairStep,
)
    requires
        call_ensures(after_open, (None,), none),
        call_ensures(after_open, (Some(error),), some),
        call_ensures(repair_malformed, (None,), again),
        call_ensures(repair_malformed, (Some(error),), still),
    ensures
        none is Check,
        again is Check,
        some is DropWal || some is GiveUp,
        still is GiveUp,
{
}

/// A sound store is written out; any other is built anew.
pub proof fn unsound_store_is_built_anew(report: &str, r: RepairStep)
    requires
        call_ensures(repair_with_connection, (report,), r),
    ensures
        r is Checkpoint <==> report@ == "ok"@,
        r is Rebuild <==> report@ != "ok"@,
{
}

/// A report that says that all is well is that; any other is what is wrong.
pub proof fn report_is_taken_at_its_word(report: String, r: IntegrityCheckResult)
    requires
        call_ensures(integrity_of_report, (report,), r),
    ensures
        r is Intact <==> report@ == "ok"@,
        report@ != "ok"@ ==> r == IntegrityCheckResult::Corrupted(report),
{
}

/// An error says that the store is malformed in any case of its letters, and only an error that says so
/// is tried again, once the log was put aside.
pub proof fn malformed_store_is_tried_again(
    message: &str,
    log: bool,
    aside: bool,
    said: bool,
    r: OpenFailure,
)
    requires
        call_ensures(is_malformed_error, (message,), said),
        call_ensures(after_open_failure, (message, log, aside), r),
        all_ascii(message@),
    ensures
        said <==> occurs_in(message@.map_values(|c: char| ascii_lower(c)), "malformed"@),
        r is Retry <==> said && log && aside,
{
}

/// How far a session was read is what its row says; without a row it was not read, and without an offset
/// it is read from the beginning.
pub proof fn reading_begins_where_the_row_says(
    offset: Option<i64>,
    mtime: Option<i64>,
    size: Option<i64>,
    inode: Option<i64>,
    a: Option<IncrementalState>,
    b: Option<IncrementalState>,
)
    requires
        call_ensures(get_session_incremental_state, (Some((offset, mtime, size, inode)),), a),
        call_ensures(get_session_incremental_state, (None,), b),
    ensures
        b is None,
        a is Some,
        offset is Some ==> (a->0).0 == offset->0,
        offset is None ==> (a->0).0 == 0,
        (a->0).1 == mtime && (a->0).2 == size && (a->0).3 == inode,
{
}

/// A message is what its row says, its kind by its word.
pub proof fn message_is_what_its_row_says(row: MessageRow, r: Message)
    requires
        call_ensures(decode_message, (row,), r),
    ensures
        r.id == row.id,
        r.session_id == row.session_id,
        r.uuid == row.uuid,
        r.content_text == row.content_text,
        r.content_full == row.content_full,
        r.timestamp == row.timestamp,
        r.sequence == row.sequence,
        r.source == row.source && r.channel == row.channel && r.model == row.model,
        r.tool_call_id == row.tool_call_id && r.tool_name == row.tool_name && r.tool_args
            == row.tool_args,
        r.raw == row.raw,
        r.approval_resolved_at == row.approval_resolved_at,
        r.vector_indexed <==> row.vector_indexed != 0,
        row.approval_status is None ==> r.approval_status is None,
        row.message_type@ == "assistant"@ ==> r.message_type == MessageType::Assistant,
        row.message_type@ == "user"@ ==> r.message_type == MessageType::User,
{
    reveal_strlit("user");
    reveal_strlit("assistant");
    reveal_strlit("tool");
    reveal_strlit("system");
    assert("user"@[0] == 'u' && "assistant"@[0] == 'a' && "tool"@[0] == 't' && "system"@[0] == 's');
}

/// The ids of a list are the numbers between its commas, in order; what is no number is left out.
pub proof fn ids_stand_between_commas(parts: Seq<Seq<char>>, part: Seq<char>, list: &str, r: Vec<i64>)
    requires
        call_ensures(parse_ids, (list,), r),
    ensures
        r@ == listed_ids(pieces(list@, ',')),
        listed_ids(Seq::empty()) == Seq::<i64>::empty(),
        i64_value(trimmed(part)) is Some ==> listed_ids(parts.push(part)) == listed_ids(parts).push(
            i64_value(trimmed(part))->0,
        ),
        i64_value(trimmed(part)) is None ==> listed_ids(parts.push(part)) == listed_ids(parts),
{
    assert(parts.push(part).drop_last() =~= parts);
    assert(listed_ids(Seq::empty()) =~= Seq::<i64>::empty());
}

/// A version is told with the time that it was built at behind a hyphen.
pub proof fn version_is_told_with_its_time(version: &str, at: u64, r: String)
    requires
        call_ensures(version_full, (version, at), r),
    ensures
        begins_with(r@, version@),
        r@ == version@ + "-"@ + crate::text::decimal(at as nat),
{
    assert(r@.subrange(0, version@.len() as int) =~= version@);
}

/// The usual store lies in the home directory.
pub proof fn usual_store_lies_at_home(home: &str, r: DbConfig)
    requires
        call_ensures(DbConfig::in_home, (PathStyle::Unix, None, Some(home)), r),
        home@.len() > 0,
        home@.last() != '/',
    ensures
        r.url@ == ((home@.push('/') + ".vimo"@).push('/') + "db"@).push('/') + "ai-cli-session.db"@,
{
    reveal_strlit(".vimo");
    reveal_strlit("db");
    reveal_strlit("ai-cli-session.db");
    let a = home@.push('/') + ".vimo"@;
    let b = a.push('/') + "db"@;
    assert(a.last() == 'o');
    assert(b.last() == 'b');
}

/// An error is told by its kind and its cause; two errors of a kind are told alike only where their
/// causes are the same.
pub proof fn error_tells_its_cause(a: &Error, b: &Error, wa: String, wb: String, cause: String)
    requires
        call_ensures(Error::to_string, (a,), wa),
        call_ensures(Error::to_string, (b,), wb),
        *a == Error::Database(cause) || *a == Error::Io(cause) || *a == Error::Serialization(cause)
            || *a == Error::Coordination(cause) || *a == Error::Config(cause) || *a
            == Error::Connection(cause) || *a == Error::Other(cause),
    ensures
        finishes_with(wa@, cause@),
        *a == Error::Other(cause) ==> wa@ == cause@,
        *a == Error::Database(cause) ==> begins_with(wa@, "数据库错误: "@),
        *a == Error::Io(cause) ==> begins_with(wa@, "IO 错误: "@),
        *a == Error::Serialization(cause) ==> begins_with(wa@, "序列化错误: "@),
        *a == Error::Coordination(cause) ==> begins_with(wa@, "Writer 协调错误: "@),
        *a == Error::Config(cause) ==> begins_with(wa@, "配置错误: "@),
        *a == Error::Connection(cause) ==> begins_with(wa@, "连接错误: "@),
        *b is PermissionDenied ==> wb@ == "权限错误: 当前角色为 Reader，无法执行写入操作"@,
{
    assert(wa@.subrange(wa@.len() - cause@.len(), wa@.len() as int) =~= cause@);
    let n = wa@.len() - cause@.len();
    assert(*a == Error::Database(cause) ==> wa@.subrange(0, n) =~= "数据库错误: "@);
    assert(*a == Error::Io(cause) ==> wa@.subrange(0, n) =~= "IO 错误: "@);
    assert(*a == Error::Serialization(cause) ==> wa@.subrange(0, n) =~= "序列化错误: "@);
    assert(*a == Error::Coordination(cause) ==> wa@.subrange(0, n) =~= "Writer 协调错误: "@);
    assert(*a == Error::Config(cause) ==> wa@.subrange(0, n) =~= "配置错误: "@);
    assert(*a == Error::Connection(cause) ==> wa@.subrange(0, n) =~= "连接错误: "@);
}

/// A table is copied by its columns, the same on both sides, each between quotation marks; a table
/// without columns is not copied.
pub proof fn table_is_copied_by_its_columns(
    table: &str,
    columns: &Vec<String>,
    r: Option<CopyStatements>,
    list: Seq<char>,
)
    requires
        call_ensures(copy_table, (table, columns), r),
        columns@.len() == 2,
        list == "\""@ + columns@[0]@ + "\""@ + ", "@ + ("\""@ + columns@[1]@ + "\""@),
    ensures
        r is Some,
        r->0.select@ == "SELECT "@ + list + " FROM "@ + ("\""@ + table@ + "\""@),
        begins_with(
            r->0.insert@,
            "INSERT OR IGNORE INTO "@ + ("\""@ + table@ + "\""@) + " ("@ + list + ") VALUES ("@,
        ),
{
    let c = views(columns@).map_values(|c: Seq<char>| quoted(c));
    assert(c =~= seq![quoted(columns@[0]@), quoted(columns@[1]@)]);
    assert(c.drop_last() =~= seq![quoted(columns@[0]@)]);
    assert(joined(c.drop_last(), ", "@) == quoted(columns@[0]@));
    assert(joined(c, ", "@) == list);
    let head = "INSERT OR IGNORE INTO "@ + ("\""@ + table@ + "\""@) + " ("@ + list + ") VALUES ("@;
    assert(r->0.insert@.subrange(0, head.len() as int) =~= head);
}

/// A table of sessions that lacks a column gets it with the type that it should have: texts for what is
/// said, numbers for what is counted and timed.
pub proof fn session_columns_have_their_types(r: Vec<String>, present: &Vec<String>)
    requires
        call_ensures(ensure_sessions_columns, (true, present), r),
    ensures
        !views(present@).contains("cwd"@) ==> views(r@).contains(
            "ALTER TABLE "@ + "sessions"@ + " ADD COLUMN "@ + "cwd"@ + " "@ + "TEXT"@,
        ),
        !views(present@).contains("model"@) ==> views(r@).contains(
            "ALTER TABLE "@ + "sessions"@ + " ADD COLUMN "@ + "model"@ + " "@ + "TEXT"@,
        ),
        !views(present@).contains("message_count"@) ==> views(r@).contains(
            "ALTER TABLE "@ + "sessions"@ + " ADD COLUMN "@ + "message_count"@ + " "@
                + "INTEGER DEFAULT 0"@,
        ),
        !views(present@).contains("last_message_at"@) ==> views(r@).contains(
            "ALTER TABLE "@ + "sessions"@ + " ADD COLUMN "@ + "last_message_at"@ + " "@ + "INTEGER"@,
        ),
        !views(present@).contains("file_mtime"@) ==> views(r@).contains(
            "ALTER TABLE "@ + "sessions"@ + " ADD COLUMN "@ + "file_mtime"@ + " "@ + "INTEGER"@,
        ),
        !views(present@).contains("file_offset"@) ==> views(r@).contains(
            "ALTER TABLE "@ + "sessions"@ + " ADD COLUMN "@ + "file_offset"@ + " "@
                + "INTEGER DEFAULT 0"@,
        ),
        !views(present@).contains("session_type"@) ==> views(r@).contains(
            "ALTER TABLE "@ + "sessions"@ + " ADD COLUMN "@ + "session_type"@ + " "@ + "TEXT"@,
        ),
{
    let all = session_columns();
    assert(all[0].0 == "message_count"@ && all[1].0 == "last_message_at"@ && all[2].0 == "cwd"@
        && all[3].0 == "model"@ && all[5].0 == "file_mtime"@ && all[7].0 == "file_offset"@
        && all[13].0 == "session_type"@);
    lemma_missing("sessions"@, true, views(present@), all, 0);
    lemma_missing("sessions"@, true, views(present@), all, 1);
    lemma_missing("sessions"@, true, views(present@), all, 2);
    lemma_missing("sessions"@, true, views(present@), all, 3);
    lemma_missing("sessions"@, true, views(present@), all, 5);
    lemma_missing("sessions"@, true, views(present@), all, 7);
    lemma_missing("sessions"@, true, views(present@), all, 13);
}

/// A table of messages that lacks a column gets it with the type that it should have.
pub proof fn message_columns_have_their_types(r: Vec<String>, present: &Vec<String>, source: &str)
    requires
        call_ensures(ensure_messages_columns, (true, present, source), r),
    ensures
        !views(present@).contains("raw"@) ==> views(r@).contains(
            "ALTER TABLE "@ + "messages"@ + " ADD COLUMN "@ + "raw"@ + " "@ + "TEXT"@,
        ),
        !views(present@).contains("tool_args"@) ==> views(r@).contains(
            "ALTER TABLE "@ + "messages"@ + " ADD COLUMN "@ + "tool_args"@ + " "@ + "TEXT"@,
        ),
        !views(present@).contains("vector_indexed"@) ==> views(r@).contains(
            "ALTER TABLE "@ + "messages"@ + " ADD COLUMN "@ + "vector_indexed"@ + " "@
                + "INTEGER DEFAULT 0"@,
        ),
        !views(present@).contains("approval_status"@) ==> views(r@).contains(
            "ALTER TABLE "@ + "messages"@ + " ADD COLUMN "@ + "approval_status"@ + " "@ + "TEXT"@,
        ),
        !views(present@).contains("approval_resolved_at"@) ==> views(r@).contains(
            "ALTER TABLE "@ + "messages"@ + " ADD COLUMN "@ + "approval_resolved_at"@ + " "@
                + "INTEGER"@,
        ),
{
    let all = message_columns(source@);
    assert(all[5].0 == "tool_args"@ && all[6].0 == "raw"@ && all[7].0 == "vector_indexed"@
        && all[8].0 == "approval_status"@ && all[9].0 == "approval_resolved_at"@);
    lemma_missing("messages"@, true, views(present@), all, 5);
    lemma_missing("messages"@, true, views(present@), all, 6);
    lemma_missing("messages"@, true, views(present@), all, 7);
    lemma_missing("messages"@, true, views(present@), all, 8);
    lemma_missing("messages"@, true, views(present@), all, 9);
}

} // verus!

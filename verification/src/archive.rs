//! Taking archived session files into the store.
use vstd::prelude::*;
use crate::agent::watcher::has_extension;
use crate::paths;
use crate::paths::PathStyle;
use crate::session::IndexableMessage;
use crate::sql;
use crate::sql::{text_or_null, value_views, SqlValue, SqlView, Statement};
use crate::text::{holds_text, same_text, views};

verus! {

/// Replaces the content of a message, where it differs.
pub const UPDATE_ARCHIVED: &'static str = "UPDATE messages SET
                    content_text = ?1,
                    content_full = ?2
                WHERE uuid = ?3 AND (content_text != ?1 OR content_full != ?2)";

/// Adds a message, unless there is one of its identifier.
pub const INSERT_ARCHIVED: &'static str = "INSERT OR IGNORE INTO messages
                    (session_id, uuid, type, content_text, content_full, timestamp, sequence, source, raw)
                VALUES (?1, ?2, ?3, ?4, ?5, ?6, ?7, ?8, ?9)";

/// Adds a project of a tool, unless there is one of its path.
pub fn ensure_project(path: &str, name: &str, source: &str) -> (r: Statement)
    ensures
        r.sql@ == "INSERT OR IGNORE INTO projects (path, name, source) VALUES (?1, ?2, ?3)"@,
        value_views(r.params@) == seq![
            SqlView::Text(path@),
            SqlView::Text(name@),
            SqlView::Text(source@),
        ],
{
    let params: Vec<SqlValue> = vec![sql::text(path), sql::text(name), sql::text(source)];
    assert(value_views(params@) =~= seq![SqlView::Text(path@), SqlView::Text(name@), SqlView::Text(source@)]);
    Statement { sql: "INSERT OR IGNORE INTO projects (path, name, source) VALUES (?1, ?2, ?3)".to_owned(), params }
}

/// Adds a session, unless there is one of its identifier.
pub const ENSURE_SESSION: &'static str = "INSERT OR IGNORE INTO sessions (session_id, project_id, message_count, cwd)
         VALUES (?1, ?2, 0, ?3)";

/// Adds a session of a project at a path, unless there is one of its identifier.
pub fn ensure_session(session_id: &str, project_id: i64, project_path: &str) -> (r: Statement)
    ensures
        r.sql@ == ENSURE_SESSION@,
        value_views(r.params@) == seq![
            SqlView::Text(session_id@),
            SqlView::Integer(project_id),
            SqlView::Text(project_path@),
        ],
{
    let params: Vec<SqlValue> = vec![sql::text(session_id), SqlValue::Integer(project_id), sql::text(project_path)];
    assert(value_views(params@) =~= seq![SqlView::Text(session_id@), SqlView::Integer(project_id), SqlView::Text(project_path@)]);
    Statement { sql: ENSURE_SESSION.to_owned(), params }
}

/// Whether a file is a session file.
pub fn is_jsonl(style: PathStyle, path: &str) -> (r: bool)
    ensures
        r == has_extension(style, path@, seq!["jsonl"@]),
{
    match paths::extension(style, path) {
        Some(e) => {
            let r = same_text(e.as_str(), "jsonl");
            proof {
                if r {
                    assert(seq!["jsonl"@][0] == e@);
                }
            }
            r
        },
        None => false,
    }
}

/// What is done with an archived message.
#[derive(Debug, Clone)]
pub enum ArchiveStep {
    /// Its content is written over what is there; it counts where that changes anything.
    Update(Statement),
    /// Its session is made sure of, and it is added.
    Insert(Statement),
}

/// Whether `s` is what is done with a message of a session of the tool, where the store holds messages of the
/// identifiers given.
pub open spec fn is_step(
    session_id: Seq<char>,
    source: Seq<char>,
    m: IndexableMessage,
    raw: Option<String>,
    existing: Seq<Seq<char>>,
    s: ArchiveStep,
) -> bool {
    if existing.contains(m.uuid@) {
        s matches ArchiveStep::Update(st) && st.sql@ == UPDATE_ARCHIVED@ && value_views(st.params@)
            == seq![
            SqlView::Text(m.content.text@),
            SqlView::Text(m.content.full@),
            SqlView::Text(m.uuid@),
        ]
    } else {
        s matches ArchiveStep::Insert(st) && st.sql@ == INSERT_ARCHIVED@ && value_views(st.params@)
            == seq![
            SqlView::Text(session_id),
            SqlView::Text(m.uuid@),
            SqlView::Text(m.role@),
            SqlView::Text(m.content.text@),
            SqlView::Text(m.content.full@),
            SqlView::Integer(m.timestamp),
            SqlView::Integer(m.sequence),
            SqlView::Text(source),
            text_or_null(raw),
        ]
    }
}

/// What is done with a message of a session of the tool, where the store holds messages of the
/// identifiers given.
pub fn process_message(
    session_id: &str,
    source: &str,
    m: &IndexableMessage,
    raw: &Option<String>,
    existing_uuids: &Vec<String>,
) -> (r: ArchiveStep)
    ensures
        is_step(session_id@, source@, *m, *raw, views(existing_uuids@), r),
{
    if holds_text(existing_uuids, m.uuid.as_str()) {
        let params: Vec<SqlValue> = vec![
            sql::text(m.content.text.as_str()),
            sql::text(m.content.full.as_str()),
            sql::text(m.uuid.as_str()),
        ];
        assert(value_views(params@) =~= seq![
            SqlView::Text(m.content.text@),
            SqlView::Text(m.content.full@),
            SqlView::Text(m.uuid@),
        ]);
        ArchiveStep::Update(Statement { sql: UPDATE_ARCHIVED.to_owned(), params })
    } else {
        let params: Vec<SqlValue> = vec![
            sql::text(session_id),
            sql::text(m.uuid.as_str()),
            sql::text(m.role.as_str()),
            sql::text(m.content.text.as_str()),
            sql::text(m.content.full.as_str()),
            SqlValue::Integer(m.timestamp),
            SqlValue::Integer(m.sequence),
            sql::text(source),
            sql::opt_text(raw),
        ];
        assert(value_views(params@) =~= seq![
            SqlView::Text(session_id@),
            SqlView::Text(m.uuid@),
            SqlView::Text(m.role@),
            SqlView::Text(m.content.text@),
            SqlView::Text(m.content.full@),
            SqlView::Integer(m.timestamp),
            SqlView::Integer(m.sequence),
            SqlView::Text(source@),
            text_or_null(*raw),
        ]);
        ArchiveStep::Insert(Statement { sql: INSERT_ARCHIVED.to_owned(), params })
    }
}

/// The steps for all messages of a session, in their order, with what each of them was read from.
pub fn process_jsonl(
    session_id: &str,
    source: &str,
    messages: &Vec<IndexableMessage>,
    raws: &Vec<Option<String>>,
    existing_uuids: &Vec<String>,
) -> (r: Vec<ArchiveStep>)
    requires
        raws@.len() == messages@.len(),
    ensures
        r@.len() == messages@.len(),
        forall|i: int|
            0 <= i < messages@.len() ==> is_step(
                session_id@,
                source@,
                messages@[i],
                raws@[i],
                views(existing_uuids@),
                #[trigger] r@[i],
            ),
{
    let mut r: Vec<ArchiveStep> = Vec::new();
    let mut i: usize = 0;
    while i < messages.len()
        invariant
            i <= messages@.len() == raws@.len(),
            r@.len() == i,
            forall|k: int|
                0 <= k < i ==> is_step(
                    session_id@,
                    source@,
                    messages@[k],
                    raws@[k],
                    views(existing_uuids@),
                    #[trigger] r@[k],
                ),
        decreases messages@.len() - i,
    {
        r.push(process_message(session_id, source, &messages[i], &raws[i], existing_uuids));
        i += 1;
    }
    r
}

/// How many messages were added, and how many were changed.
pub open spec fn counted(steps: Seq<ArchiveStep>, rows: Seq<usize>) -> (nat, nat)
    decreases steps.len(),
{
    if steps.len() == 0 {
        (0, 0)
    } else {
        let (new, updated) = counted(steps.drop_last(), rows);
        match steps.last() {
            ArchiveStep::Insert(_) => (new + 1, updated),
            ArchiveStep::Update(_) => if rows[steps.len() - 1] > 0 {
                (new, updated + 1)
            } else {
                (new, updated)
            },
        }
    }
}

/// How many messages were added, and how many were changed, where each step changed so many rows.
pub fn archive_counts(steps: &Vec<ArchiveStep>, rows: &Vec<usize>) -> (r: (usize, usize))
    requires
        rows@.len() == steps@.len(),
    ensures
        (r.0 as nat, r.1 as nat) == counted(steps@, rows@),
{
    let mut new: usize = 0;
    let mut updated: usize = 0;
    let mut i: usize = 0;
    assert(steps@.take(0) =~= Seq::<ArchiveStep>::empty());
    while i < steps.len()
        invariant
            i <= steps@.len() == rows@.len(),
            new + updated <= i,
            (new as nat, updated as nat) == counted(steps@.take(i as int), rows@),
        decreases steps@.len() - i,
    {
        assert(steps@.take(i + 1).drop_last() =~= steps@.take(i as int));
        match &steps[i] {
            ArchiveStep::Insert(_) => {
                new = new + 1;
            },
            ArchiveStep::Update(_) => {
                if rows[i] > 0 {
                    updated = updated + 1;
                }
            },
        }
        i += 1;
    }
    assert(steps@.take(steps@.len() as int) =~= steps@);
    (new, updated)
}

/// No message is counted twice.
pub proof fn counts_are_apart(steps: Seq<ArchiveStep>, rows: Seq<usize>)
    ensures
        counted(steps, rows).0 + counted(steps, rows).1 <= steps.len(),
    decreases steps.len(),
{
    if steps.len() > 0 {
        counts_are_apart(steps.drop_last(), rows);
    }
}

/// Taking the same archive in again adds no message: once the store holds the identifiers, all steps
/// are updates.
pub proof fn second_archive_adds_nothing(
    session_id: Seq<char>,
    source: Seq<char>,
    m: IndexableMessage,
    raw: Option<String>,
    existing: Seq<Seq<char>>,
    s: ArchiveStep,
)
    requires
        existing.contains(m.uuid@),
        is_step(session_id, source, m, raw, existing, s),
    ensures
        s is Update,
{
}

} // verus!

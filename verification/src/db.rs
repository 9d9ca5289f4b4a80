//! What the session store does with its rows.
use vstd::prelude::*;
use crate::error::Error;
use crate::order::{arranged, highest_first, Ranked};
use crate::paths;
use crate::paths::{path_with_extension, PathStyle};
use crate::sql::{
    integer_or_null,
    integer_values,
    numbered_placeholders,
    opt_integer,
    opt_text,
    placeholders,
    text,
    text_or_null,
    value_views,
    SqlValue,
    SqlView,
    Statement,
};
use crate::text::{
    all_ascii,
    ascii_lower,
    chars_of,
    contains_text,
    copy_opt,
    holds_text,
    i64_value,
    is_control_char,
    join,
    joined,
    lowercase,
    occurs_in,
    opt_view,
    parse_i64,
    pieces,
    same_text,
    split_pieces,
    split_words,
    string_of,
    string_of_range,
    to_lowercase,
    trim,
    trimmed,
    views,
    words,
};
use crate::types::{ApprovalStatus, Message, MessageType, SessionWithProject};

verus! {

/// How far a session file has been read: offset, modification time, size and inode.
pub type IncrementalState = (i64, Option<i64>, Option<i64>, Option<i64>);

/// A project with the tool that it comes from.
#[derive(Debug, Clone)]
pub struct ProjectWithSource {
    pub id: i64,
    pub name: String,
    pub path: String,
    pub source: String,
}

/// A session as it is written.
#[derive(Debug, Clone)]
pub struct SessionInput {
    pub session_id: String,
    pub project_id: i64,
    pub cwd: Option<String>,
    pub model: Option<String>,
    pub channel: Option<String>,
    pub message_count: Option<i64>,
    pub file_mtime: Option<i64>,
    pub file_size: Option<i64>,
    pub file_offset: Option<i64>,
    pub file_inode: Option<i64>,
    pub meta: Option<String>,
    pub session_type: Option<String>,
    pub source: Option<String>,
}

impl Default for SessionInput {
    fn default() -> (r: SessionInput)
        ensures
            r.session_id@ == Seq::<char>::empty(),
            r.project_id == 0,
            r.cwd is None,
            r.model is None,
            r.channel is None,
            r.message_count is None,
            r.file_mtime is None,
            r.file_size is None,
            r.file_offset is None,
            r.file_inode is None,
            r.meta is None,
            r.session_type is None,
            r.source is None,
    {
        SessionInput {
            session_id: String::new(),
            project_id: 0,
            cwd: None,
            model: None,
            channel: None,
            message_count: None,
            file_mtime: None,
            file_size: None,
            file_offset: None,
            file_inode: None,
            meta: None,
            session_type: None,
            source: None,
        }
    }
}

/// A message as it is written.
#[derive(Debug, Clone)]
pub struct MessageInput {
    pub uuid: String,
    pub message_type: MessageType,
    /// The words of the conversation alone.
    pub content_text: String,
    /// The whole content, tool calls included.
    pub content_full: String,
    pub timestamp: i64,
    pub sequence: i64,
    pub source: Option<String>,
    pub channel: Option<String>,
    pub model: Option<String>,
    pub tool_call_id: Option<String>,
    pub tool_name: Option<String>,
    pub tool_args: Option<String>,
    pub raw: Option<String>,
    pub approval_status: Option<ApprovalStatus>,
    pub approval_resolved_at: Option<i64>,
}

/// What an integrity check of the store found.
#[derive(Debug, Clone)]
pub enum IntegrityCheckResult {
    Intact,
    /// The store is damaged; the text says how.
    Corrupted(String),
}

// ---- Projects ----

/// What becomes of the row of a project that is asked for.
#[derive(Debug, Clone)]
pub enum ProjectWrite {
    /// The project is there; it was seen at `updated_at`.
    Touch { id: i64, updated_at: i64 },
    /// The project is there; it was seen at `updated_at`, and the name of its directory is known.
    Rename { id: i64, updated_at: i64, encoded_dir_name: String },
    /// The project is new.
    Create {
        name: String,
        path: String,
        source: String,
        encoded_dir_name: Option<String>,
        created_at: i64,
    },
}

/// Whether `w` is what becomes of the row of the project at `path`, which has the id `existing`
/// where there is one: a path has one row, whatever name and tool it is asked for with.
pub open spec fn is_project_write(
    w: ProjectWrite,
    existing: Option<i64>,
    name: Seq<char>,
    path: Seq<char>,
    source: Seq<char>,
    encoded_dir_name: Option<Seq<char>>,
    now: i64,
) -> bool {
    match existing {
        Some(id) => match encoded_dir_name {
            Some(encoded) => w matches ProjectWrite::Rename {
                id: i,
                updated_at,
                encoded_dir_name: e,
            } && i == id && updated_at == now && e@ == encoded,
            None => w == (ProjectWrite::Touch { id, updated_at: now }),
        },
        None => w matches ProjectWrite::Create {
            name: n,
            path: p,
            source: s,
            encoded_dir_name: e,
            created_at,
        } && n@ == name && p@ == path && s@ == source && created_at == now && opt_view(e)
            == encoded_dir_name,
    }
}

/// What becomes of the row of the project at `path`, which has the id `existing` where there is
/// one.
pub fn get_or_create_project_with_encoded(
    existing: Option<i64>,
    name: &str,
    path: &str,
    source: &str,
    encoded_dir_name: Option<&str>,
    now: i64,
) -> (r: ProjectWrite)
    ensures
        is_project_write(
            r,
            existing,
            name@,
            path@,
            source@,
            match encoded_dir_name {
                Some(encoded) => Some(encoded@),
                None => None,
            },
            now,
        ),
{
    match existing {
        Some(id) => match encoded_dir_name {
            Some(encoded) => ProjectWrite::Rename {
                id,
                updated_at: now,
                encoded_dir_name: encoded.to_owned(),
            },
            None => ProjectWrite::Touch { id, updated_at: now },
        },
        None => ProjectWrite::Create {
            name: name.to_owned(),
            path: path.to_owned(),
            source: source.to_owned(),
            encoded_dir_name: match encoded_dir_name {
                Some(encoded) => Some(encoded.to_owned()),
                None => None,
            },
            created_at: now,
        },
    }
}

/// The ids in a list that is written with commas; what is no number is passed over.
pub open spec fn listed_ids(parts: Seq<Seq<char>>) -> Seq<i64>
    decreases parts.len(),
{
    if parts.len() == 0 {
        seq![]
    } else {
        let p = listed_ids(parts.drop_last());
        match i64_value(trimmed(parts.last())) {
            Some(id) => p.push(id),
            None => p,
        }
    }
}

/// The ids in a list that is written with commas.
pub fn parse_ids(list: &str) -> (r: Vec<i64>)
    ensures
        r@ == listed_ids(pieces(list@, ',')),
{
    let parts = split_pieces(list, ',');
    let ghost texts = views(parts@);
    let mut r: Vec<i64> = Vec::new();
    let mut i: usize = 0;
    assert(texts.take(0) =~= Seq::<Seq<char>>::empty());
    while i < parts.len()
        invariant
            i <= parts@.len(),
            texts == views(parts@),
            r@ == listed_ids(texts.take(i as int)),
        decreases parts@.len() - i,
    {
        assert(texts.take(i + 1).drop_last() =~= texts.take(i as int));
        assert(texts[i as int] == parts@[i as int]@);
        match parse_i64(trim(parts[i].as_str()).as_str()) {
            Some(id) => r.push(id),
            None => {},
        }
        i += 1;
    }
    assert(texts.take(texts.len() as int) =~= texts);
    r
}

/// A project with the number of its sessions.
#[derive(Debug, Clone, Copy, PartialEq, Eq, Structural)]
pub struct ProjectLoad {
    pub id: i64,
    pub sessions: i64,
}

impl Ranked for ProjectLoad {
    open spec fn rank_of(self) -> int {
        self.sessions as int
    }

    fn ranks_above(&self, other: &Self) -> (r: bool) {
        self.sessions > other.sessions
    }
}

/// How projects of one path are made one.
#[derive(Debug, Clone)]
pub struct ProjectMerge {
    /// The project that stays.
    pub keep: i64,
    /// The projects whose sessions go over to it, in the order in which they go.
    pub merge: Vec<i64>,
}

/// Whether projects of one path are made one in this way: the one with the most sessions stays, the
/// first of them where there are several, and all others go.
pub open spec fn is_merge_of(m: ProjectMerge, projects: Seq<ProjectLoad>) -> bool {
    exists|sorted: Seq<ProjectLoad>|
        {
            &&& #[trigger] arranged(projects, sorted)
            &&& sorted.len() >= 2
            &&& m.keep == sorted[0].id
            &&& m.merge@ == sorted.drop_first().map_values(|p: ProjectLoad| p.id)
        }
}

/// How the projects of one path are made one. A path with fewer than two projects stays as it is.
pub fn deduplicate_projects(projects: Vec<ProjectLoad>) -> (r: Option<ProjectMerge>)
    ensures
        match r {
            Some(m) => projects@.len() >= 2 && is_merge_of(m, projects@),
            None => projects@.len() < 2,
        },
{
    if projects.len() < 2 {
        return None;
    }
    let ghost given = projects@;
    let sorted = highest_first(projects);
    assert(sorted@.len() == given.len());
    let mut merge: Vec<i64> = Vec::new();
    let mut i: usize = 1;
    while i < sorted.len()
        invariant
            1 <= i <= sorted@.len(),
            merge@.len() == i - 1,
            forall|k: int| 0 <= k < i - 1 ==> #[trigger] merge@[k] == sorted@[k + 1].id,
        decreases sorted@.len() - i,
    {
        merge.push(sorted[i].id);
        i += 1;
    }
    assert(merge@ =~= sorted@.drop_first().map_values(|p: ProjectLoad| p.id));
    let m = ProjectMerge { keep: sorted[0].id, merge };
    assert(arranged(given, sorted@) && is_merge_of(m, given));
    Some(m)
}

// ---- Sessions ----

/// The row of a session.
#[derive(Debug, Clone)]
pub struct SessionRow {
    pub session_id: String,
    pub project_id: i64,
    pub message_count: Option<i64>,
    pub last_message_at: Option<i64>,
    pub cwd: Option<String>,
    pub model: Option<String>,
    pub channel: Option<String>,
    pub file_mtime: Option<i64>,
    pub file_size: Option<i64>,
    pub file_offset: Option<i64>,
    pub file_inode: Option<i64>,
    pub encoded_dir_name: Option<String>,
    pub meta: Option<String>,
    pub session_type: Option<String>,
    pub source: Option<String>,
    pub created_at: i64,
    pub updated_at: i64,
}

/// The new value where there is one, else the old.
pub open spec fn newer<T>(new: Option<T>, old: Option<T>) -> Option<T> {
    match new {
        Some(v) => Some(v),
        None => old,
    }
}

fn coalesce_text(new: &Option<String>, stored: Option<String>) -> (r: Option<String>)
    ensures
        r == newer(*new, stored),
{
    match new {
        Some(v) => Some(v.clone()),
        None => stored,
    }
}

fn coalesce_number(new: Option<i64>, stored: Option<i64>) -> (r: Option<i64>)
    ensures
        r == newer(new, stored),
{
    match new {
        Some(v) => Some(v),
        None => stored,
    }
}

/// Whether `r` is the row of a session of which nothing is known yet but its project.
pub open spec fn is_fresh_row(r: SessionRow, session_id: Seq<char>, project_id: i64, now: i64) -> bool {
    &&& r.session_id@ == session_id
    &&& r.project_id == project_id
    &&& r.message_count == Some(0i64)
    &&& r.last_message_at is None
    &&& r.cwd is None
    &&& r.model is None
    &&& r.channel is None
    &&& r.file_mtime is None
    &&& r.file_size is None
    &&& r.file_offset == Some(0i64)
    &&& r.file_inode is None
    &&& r.encoded_dir_name is None
    &&& r.meta is None
    &&& r.session_type is None
    &&& r.source is None
    &&& r.created_at == now
    &&& r.updated_at == now
}

/// Whether `r` is the row of a session that was seen at `now`: the one that is there, or a new one.
pub open spec fn is_seen_row(
    r: SessionRow,
    existing: Option<SessionRow>,
    session_id: Seq<char>,
    project_id: i64,
    now: i64,
) -> bool {
    match existing {
        Some(row) => r == (SessionRow { updated_at: now, ..row }),
        None => is_fresh_row(r, session_id, project_id, now),
    }
}

/// The row of a session that was seen at `now`: the one that is there, or a new one.
pub fn upsert_session(existing: Option<SessionRow>, session_id: &str, project_id: i64, now: i64) -> (r:
    SessionRow)
    ensures
        is_seen_row(r, existing, session_id@, project_id, now),
{
    match existing {
        Some(row) => {
            let mut row = row;
            row.updated_at = now;
            row
        },
        None => SessionRow {
            session_id: session_id.to_owned(),
            project_id,
            message_count: Some(0),
            last_message_at: None,
            cwd: None,
            model: None,
            channel: None,
            file_mtime: None,
            file_size: None,
            file_offset: Some(0),
            file_inode: None,
            encoded_dir_name: None,
            meta: None,
            session_type: None,
            source: None,
            created_at: now,
            updated_at: now,
        },
    }
}

/// The row that a session has once `input` is written: what `input` says where it says something,
/// and what was there where it does not. A session stays in its project.
pub open spec fn session_written(existing: Option<SessionRow>, input: SessionInput, now: i64) -> SessionRow {
    match existing {
        Some(row) => SessionRow {
            cwd: newer(input.cwd, row.cwd),
            model: newer(input.model, row.model),
            channel: newer(input.channel, row.channel),
            message_count: newer(input.message_count, row.message_count),
            file_mtime: newer(input.file_mtime, row.file_mtime),
            file_size: newer(input.file_size, row.file_size),
            file_offset: newer(input.file_offset, row.file_offset),
            file_inode: newer(input.file_inode, row.file_inode),
            meta: newer(input.meta, row.meta),
            session_type: newer(input.session_type, row.session_type),
            source: newer(input.source, row.source),
            updated_at: now,
            ..row
        },
        None => SessionRow {
            session_id: input.session_id,
            project_id: input.project_id,
            message_count: input.message_count,
            last_message_at: None,
            cwd: input.cwd,
            model: input.model,
            channel: input.channel,
            file_mtime: input.file_mtime,
            file_size: input.file_size,
            file_offset: input.file_offset,
            file_inode: input.file_inode,
            encoded_dir_name: None,
            meta: input.meta,
            session_type: input.session_type,
            source: input.source,
            created_at: now,
            updated_at: now,
        },
    }
}

/// The row that a session has once `input` is written. The number of messages must be given where
/// the column wants one, as it does unless it was added to a table that had none; that of a session
/// that is there then stays as it is.
pub fn upsert_session_full(
    existing: Option<SessionRow>,
    input: &SessionInput,
    count_wanted: bool,
    now: i64,
) -> (r: Result<SessionRow, Error>)
    ensures
        match r {
            Ok(row) => {
                &&& count_wanted ==> input.message_count is Some
                &&& row == session_written(existing, *input, now)
            },
            Err(e) => {
                &&& count_wanted && input.message_count is None
                &&& e matches Error::Database(why)
                    && why@ == "NOT NULL constraint failed: sessions.message_count"@
            },
        },
{
    if count_wanted && input.message_count.is_none() {
        return Err(
            Error::Database("NOT NULL constraint failed: sessions.message_count".to_owned()),
        );
    }
    Ok(
        match existing {
            Some(row) => SessionRow {
                session_id: row.session_id,
                project_id: row.project_id,
                message_count: coalesce_number(input.message_count, row.message_count),
                last_message_at: row.last_message_at,
                cwd: coalesce_text(&input.cwd, row.cwd),
                model: coalesce_text(&input.model, row.model),
                channel: coalesce_text(&input.channel, row.channel),
                file_mtime: coalesce_number(input.file_mtime, row.file_mtime),
                file_size: coalesce_number(input.file_size, row.file_size),
                file_offset: coalesce_number(input.file_offset, row.file_offset),
                file_inode: coalesce_number(input.file_inode, row.file_inode),
                encoded_dir_name: row.encoded_dir_name,
                meta: coalesce_text(&input.meta, row.meta),
                session_type: coalesce_text(&input.session_type, row.session_type),
                source: coalesce_text(&input.source, row.source),
                created_at: row.created_at,
                updated_at: now,
            },
            None => SessionRow {
                session_id: input.session_id.clone(),
                project_id: input.project_id,
                message_count: input.message_count,
                last_message_at: None,
                cwd: copy_opt(&input.cwd),
                model: copy_opt(&input.model),
                channel: copy_opt(&input.channel),
                file_mtime: input.file_mtime,
                file_size: input.file_size,
                file_offset: input.file_offset,
                file_inode: input.file_inode,
                encoded_dir_name: None,
                meta: copy_opt(&input.meta),
                session_type: copy_opt(&input.session_type),
                source: copy_opt(&input.source),
                created_at: now,
                updated_at: now,
            },
        },
    )
}

/// Writing a session never takes away what is known of it, moves it to another project or makes
/// it younger.
pub proof fn session_write_keeps_what_is_known(row: SessionRow, input: SessionInput, now: i64)
    ensures
        ({
            let r = session_written(Some(row), input, now);
            &&& r.session_id == row.session_id
            &&& r.project_id == row.project_id
            &&& r.created_at == row.created_at
            &&& r.last_message_at == row.last_message_at
            &&& r.encoded_dir_name == row.encoded_dir_name
            &&& row.message_count is Some ==> r.message_count is Some
            &&& row.cwd is Some ==> r.cwd is Some
            &&& row.model is Some ==> r.model is Some
            &&& row.channel is Some ==> r.channel is Some
            &&& row.file_mtime is Some ==> r.file_mtime is Some
            &&& row.file_size is Some ==> r.file_size is Some
            &&& row.file_offset is Some ==> r.file_offset is Some
            &&& row.file_inode is Some ==> r.file_inode is Some
            &&& row.meta is Some ==> r.meta is Some
            &&& row.session_type is Some ==> r.session_type is Some
            &&& row.source is Some ==> r.source is Some
        }),
{
}

/// Writing the same session again changes the time of the last write alone.
pub proof fn session_write_is_idempotent(
    existing: Option<SessionRow>,
    input: SessionInput,
    then: i64,
    now: i64,
)
    ensures
        session_written(Some(session_written(existing, input, then)), input, now) == (SessionRow {
            updated_at: now,
            ..session_written(existing, input, then)
        }),
{
}

/// A checkpoint as the store has it: none where there is no session, or no message in it.
pub fn get_scan_checkpoint(row: Option<Option<i64>>) -> (r: Option<i64>)
    ensures
        r == match row {
            Some(last_message_at) => last_message_at,
            None => None,
        },
{
    match row {
        Some(last_message_at) => last_message_at,
        None => None,
    }
}

/// How far the file of a session has been read, as the store has it: from the beginning where no
/// offset is kept.
pub fn get_session_incremental_state(
    row: Option<(Option<i64>, Option<i64>, Option<i64>, Option<i64>)>,
) -> (r: Option<IncrementalState>)
    ensures
        r == match row {
            Some((offset, mtime, size, inode)) => Some(
                (
                    match offset {
                        Some(n) => n,
                        None => 0,
                    },
                    mtime,
                    size,
                    inode,
                ),
            ),
            None => None,
        },
{
    match row {
        Some((offset, mtime, size, inode)) => Some((offset.unwrap_or(0), mtime, size, inode)),
        None => None,
    }
}

/// The pattern of session ids that begin with `prefix`.
pub fn prefix_pattern(prefix: &str) -> (r: String)
    ensures
        r@ == prefix@ + "%"@,
{
    let mut r = prefix.to_owned();
    r.push_str("%");
    r
}

/// A text without control characters.
pub open spec fn without_controls(s: Seq<char>) -> Seq<char>
    decreases s.len(),
{
    if s.len() == 0 {
        seq![]
    } else if is_control_char(s.last()) {
        without_controls(s.drop_last())
    } else {
        without_controls(s.drop_last()).push(s.last())
    }
}

/// A text on one line: no control characters, and one space between words.
pub open spec fn on_one_line(s: Seq<char>) -> Seq<char> {
    joined(words(without_controls(s)), " "@)
}

/// A text on one line, cut to a number of characters with dots at the end where it is longer.
pub open spec fn preview_text(s: Seq<char>, max_chars: int) -> Seq<char> {
    let line = on_one_line(s);
    if line.len() > max_chars {
        line.take(max_chars - 3) + "..."@
    } else {
        line
    }
}

/// `text` on one line, in at most `max_chars` characters.
pub fn truncate_preview(text: &str, max_chars: usize) -> (r: String)
    requires
        max_chars >= 3 || on_one_line(text@).len() <= max_chars,
    ensures
        r@ == preview_text(text@, max_chars as int),
{
    let v = chars_of(text);
    let mut clean: Vec<char> = Vec::new();
    let mut i: usize = 0;
    assert(v@.take(0) =~= Seq::<char>::empty());
    while i < v.len()
        invariant
            i <= v@.len(),
            clean@ == without_controls(v@.take(i as int)),
        decreases v@.len() - i,
    {
        assert(v@.take(i + 1).drop_last() =~= v@.take(i as int));
        let c = v[i];
        if !c.is_control() || c == ' ' {
            clean.push(c);
        }
        i += 1;
    }
    assert(v@.take(v@.len() as int) =~= text@);
    let line = join(&split_words(string_of(&clean).as_str()), " ");
    let w = chars_of(line.as_str());
    if w.len() > max_chars {
        let mut r = string_of_range(&w, 0, max_chars - 3);
        assert(w@.subrange(0, max_chars - 3) =~= line@.take(max_chars - 3));
        r.push_str("...");
        r
    } else {
        line
    }
}

/// What the last message of a session looks like: who it comes from, and its text on one line of
/// at most a hundred characters. `row` holds its type, its text and its whole content, which
/// stands in where there is no text.
pub fn last_message_preview(row: Option<(String, Option<String>, Option<String>)>) -> (r: Option<
    (String, String),
>)
    ensures
        match row {
            Some((kind, content_text, content_full)) => {
                let text = if content_text is Some && content_text->0@.len() > 0 {
                    content_text->0@
                } else if content_full is Some {
                    content_full->0@
                } else {
                    Seq::empty()
                };
                r is Some && (r->0).0 == kind && (r->0).1@ == preview_text(text, 100)
            },
            None => r is None,
        },
{
    match row {
        Some((kind, content_text, content_full)) => {
            let full = match content_full {
                Some(s) => s,
                None => String::new(),
            };
            let text = match content_text {
                Some(s) => if s.as_str().is_empty() {
                    full
                } else {
                    s
                },
                None => full,
            };
            Some((kind, truncate_preview(text.as_str(), 100)))
        },
        None => None,
    }
}

/// The second of each pair whose first is `key`, in order.
pub open spec fn seconds_of(pairs: Seq<(String, String)>, key: Seq<char>) -> Seq<String>
    decreases pairs.len(),
{
    if pairs.len() == 0 {
        seq![]
    } else {
        let p = seconds_of(pairs.drop_last(), key);
        if pairs.last().0@ == key {
            p.push(pairs.last().1)
        } else {
            p
        }
    }
}

fn collect_seconds(pairs: &Vec<(String, String)>, key: &str) -> (r: Vec<String>)
    ensures
        r@ == seconds_of(pairs@, key@),
{
    let mut r: Vec<String> = Vec::new();
    let mut i: usize = 0;
    assert(pairs@.take(0) =~= Seq::<(String, String)>::empty());
    while i < pairs.len()
        invariant
            i <= pairs@.len(),
            r@ == seconds_of(pairs@.take(i as int), key@),
        decreases pairs@.len() - i,
    {
        assert(pairs@.take(i + 1).drop_last() =~= pairs@.take(i as int));
        if same_text(pairs[i].0.as_str(), key) {
            r.push(pairs[i].1.clone());
        }
        i += 1;
    }
    assert(pairs@.take(pairs@.len() as int) =~= pairs@);
    r
}

/// A session with its last message and its relations.
pub open spec fn session_related(
    s: SessionWithProject,
    r: SessionWithProject,
    preview: Option<(String, String)>,
    children: Seq<String>,
    parent: Option<String>,
) -> bool {
    &&& r == (SessionWithProject {
        last_message_type: match preview {
            Some((kind, _)) => Some(kind),
            None => s.last_message_type,
        },
        last_message_preview: match preview {
            Some((_, text)) => Some(text),
            None => s.last_message_preview,
        },
        children_count: if children.len() > 0 {
            Some(children.len() as i64)
        } else {
            s.children_count
        },
        child_session_ids: r.child_session_ids,
        parent_session_id: match parent {
            Some(p) => Some(p),
            None => s.parent_session_id,
        },
        ..s
    })
    &&& if children.len() > 0 {
        r.child_session_ids is Some && r.child_session_ids->0@ == children
    } else {
        r.child_session_ids == s.child_session_ids
    }
}

/// `session` with its last message, the sessions started from it and the one it was started from.
pub fn with_relations(
    session: SessionWithProject,
    preview: Option<(String, String)>,
    children: Vec<String>,
    parent: Option<String>,
) -> (r: SessionWithProject)
    ensures
        session_related(session, r, preview, children@, parent),
{
    let mut r = session;
    match preview {
        Some((kind, text)) => {
            r.last_message_type = Some(kind);
            r.last_message_preview = Some(text);
        },
        None => {},
    }
    if children.len() > 0 {
        r.children_count = Some(children.len() as i64);
        r.child_session_ids = Some(children);
    }
    match parent {
        Some(p) => {
            r.parent_session_id = Some(p);
        },
        None => {},
    }
    r
}

/// What the rows of relations say of the children of the `i`-th session. A session that is listed
/// twice has them where it is listed first.
pub open spec fn children_of(
    sessions: Seq<SessionWithProject>,
    i: int,
    child_rows: Seq<(String, String)>,
) -> Seq<String> {
    if exists|j: int| 0 <= j < i && sessions[j].session_id@ == sessions[i].session_id@ {
        seq![]
    } else {
        seconds_of(child_rows, sessions[i].session_id@)
    }
}

/// What the rows of relations say of the parent of a session: what the last of them says.
pub open spec fn parent_of(session_id: Seq<char>, parent_rows: Seq<(String, String)>) -> Option<
    String,
> {
    let parents = seconds_of(parent_rows, session_id);
    if parents.len() > 0 {
        Some(parents.last())
    } else {
        None
    }
}

/// The listed sessions with their last messages and their relations. `previews` holds what is
/// known of the last message of each; a row of `child_rows` is a parent and a child, and one of
/// `parent_rows` a child and a parent.
pub fn list_sessions_by_project_path(
    sessions: Vec<SessionWithProject>,
    previews: Vec<Option<(String, String)>>,
    child_rows: &Vec<(String, String)>,
    parent_rows: &Vec<(String, String)>,
) -> (r: Vec<SessionWithProject>)
    requires
        previews@.len() == sessions@.len(),
    ensures
        r@.len() == sessions@.len(),
        forall|i: int|
            0 <= i < r@.len() ==> session_related(
                sessions@[i],
                #[trigger] r@[i],
                previews@[i],
                children_of(sessions@, i, child_rows@),
                parent_of(sessions@[i].session_id@, parent_rows@),
            ),
{
    let ghost all = sessions@;
    let ghost seen_previews = previews@;
    let mut rest = previews;
    let mut seen: Vec<String> = Vec::new();
    let mut r: Vec<SessionWithProject> = Vec::new();
    for s in it: sessions
        invariant
            it.seq() == all,
            seen_previews.len() == all.len(),
            rest@ == seen_previews.skip(it.index()),
            seen@.len() == it.index(),
            forall|j: int| 0 <= j < it.index() ==> (#[trigger] seen@[j])@ == all[j].session_id@,
            r@.len() == it.index(),
            forall|i: int|
                0 <= i < r@.len() ==> session_related(
                    all[i],
                    #[trigger] r@[i],
                    seen_previews[i],
                    children_of(all, i, child_rows@),
                    parent_of(all[i].session_id@, parent_rows@),
                ),
    {
        let ghost i = it.index();
        assert(s == all[i]);
        let id = s.session_id.clone();
        let again = holds_text(&seen, id.as_str());
        proof {
            if again {
                let j = choose|j: int| 0 <= j < views(seen@).len() && views(seen@)[j] == id@;
                assert(seen@[j]@ == all[j].session_id@);
            } else {
                assert forall|j: int| 0 <= j < i implies all[j].session_id@ != id@ by {
                    assert(views(seen@)[j] == seen@[j]@);
                }
            }
        }
        let children = if again {
            Vec::new()
        } else {
            collect_seconds(child_rows, id.as_str())
        };
        assert(children@ =~= children_of(all, i, child_rows@));
        let mut parents = collect_seconds(parent_rows, id.as_str());
        let parent = parents.pop();
        let preview = rest.remove(0);
        assert(rest@ =~= seen_previews.skip(i + 1));
        assert(preview == seen_previews[i]);
        seen.push(id);
        r.push(with_relations(s, preview, children, parent));
    }
    r
}

/// The beginning of the statement that lists the children of sessions.
pub const CHILDREN_SELECT: &'static str =
    "SELECT parent_session_id, child_session_id FROM session_relations WHERE parent_session_id IN (";

/// The end of the statement that lists the children of sessions.
pub const CHILDREN_ORDER: &'static str = ") ORDER BY created_at ASC";

/// The beginning of the statement that lists the parents of sessions.
pub const PARENTS_SELECT: &'static str =
    "SELECT child_session_id, parent_session_id FROM session_relations WHERE child_session_id IN (";

/// The ids as bound values.
pub open spec fn id_values(ids: Seq<String>) -> Seq<SqlView> {
    ids.map_values(|s: String| SqlView::Text(s@))
}

fn text_values(ids: &Vec<String>) -> (r: Vec<SqlValue>)
    ensures
        value_views(r@) == id_values(ids@),
{
    let mut r: Vec<SqlValue> = Vec::new();
    let mut i: usize = 0;
    while i < ids.len()
        invariant
            i <= ids@.len(),
            r@.len() == i,
            forall|k: int| 0 <= k < i ==> (#[trigger] r@[k])@ == SqlView::Text(ids@[k]@),
        decreases ids@.len() - i,
    {
        r.push(SqlValue::Text(ids[i].clone()));
        i += 1;
    }
    assert(value_views(r@) =~= id_values(ids@));
    r
}

fn statement_over(ids: &Vec<String>, before: &str, after: &str) -> (r: Statement)
    requires
        ids@.len() < usize::MAX,
    ensures
        r.sql@ == before@ + joined(placeholders(1, ids@.len(), ""@, ""@), ","@) + after@,
        value_views(r.params@) == id_values(ids@),
{
    let mut sql = before.to_owned();
    sql.push_str(join(&numbered_placeholders(1, ids.len(), "", ""), ",").as_str());
    sql.push_str(after);
    Statement { sql, params: text_values(ids) }
}

/// The statement that lists the children of the sessions.
pub fn children_statement(ids: &Vec<String>) -> (r: Statement)
    requires
        ids@.len() < usize::MAX,
    ensures
        r.sql@ == CHILDREN_SELECT@ + joined(placeholders(1, ids@.len(), ""@, ""@), ","@)
            + CHILDREN_ORDER@,
        value_views(r.params@) == id_values(ids@),
{
    statement_over(ids, CHILDREN_SELECT, CHILDREN_ORDER)
}

/// The statement that lists the parents of the sessions.
pub fn parents_statement(ids: &Vec<String>) -> (r: Statement)
    requires
        ids@.len() < usize::MAX,
    ensures
        r.sql@ == PARENTS_SELECT@ + joined(placeholders(1, ids@.len(), ""@, ""@), ","@) + ")"@,
        value_views(r.params@) == id_values(ids@),
{
    statement_over(ids, PARENTS_SELECT, ")")
}

// ---- Messages ----

/// Whether the message at `i` is written: its uuid is not in the store, and no message before it
/// has it.
pub open spec fn is_inserted(present: Seq<Seq<char>>, messages: Seq<MessageInput>, i: int) -> bool {
    &&& !present.contains(messages[i].uuid@)
    &&& forall|j: int| 0 <= j < i ==> (#[trigger] messages[j]).uuid@ != messages[i].uuid@
}

/// The places of the messages that are written, in order.
pub open spec fn inserted_places(present: Seq<Seq<char>>, messages: Seq<MessageInput>, upto: int) -> Seq<
    int,
>
    decreases upto,
{
    if upto <= 0 {
        seq![]
    } else {
        let p = inserted_places(present, messages, upto - 1);
        if is_inserted(present, messages, upto - 1) {
            p.push(upto - 1)
        } else {
            p
        }
    }
}

/// The places of the messages that are written when the store holds the uuids `present`: of
/// messages with one uuid the first, where the store has none.
pub fn insert_messages(present: &Vec<String>, messages: &Vec<MessageInput>) -> (r: Vec<usize>)
    ensures
        r@.map_values(|i: usize| i as int) == inserted_places(
            views(present@),
            messages@,
            messages@.len() as int,
        ),
        forall|k: int| 0 <= k < r@.len() ==> #[trigger] r@[k] < messages@.len(),
{
    let ghost known = views(present@);
    let mut r: Vec<usize> = Vec::new();
    let mut seen: Vec<String> = Vec::new();
    let mut i: usize = 0;
    assert(r@.map_values(|i: usize| i as int) =~= Seq::<int>::empty());
    while i < messages.len()
        invariant
            i <= messages@.len(),
            known == views(present@),
            r@.map_values(|i: usize| i as int) == inserted_places(known, messages@, i as int),
            forall|k: int| 0 <= k < r@.len() ==> #[trigger] r@[k] < i,
            seen@.len() == i,
            forall|j: int| 0 <= j < i ==> (#[trigger] seen@[j])@ == messages@[j].uuid@,
        decreases messages@.len() - i,
    {
        let uuid = messages[i].uuid.as_str();
        let fresh = !holds_text(present, uuid) && !holds_text(&seen, uuid);
        proof {
            if views(seen@).contains(uuid@) {
                let j = choose|j: int| 0 <= j < views(seen@).len() && views(seen@)[j] == uuid@;
                assert(seen@[j]@ == messages@[j].uuid@);
            } else {
                assert forall|j: int| 0 <= j < i implies (#[trigger] messages@[j]).uuid@ != uuid@ by {
                    assert(views(seen@)[j] == seen@[j]@);
                }
            }
        }
        if fresh {
            let ghost before = r@;
            r.push(i);
            assert(r@.map_values(|i: usize| i as int) =~= before.map_values(
                |i: usize| i as int,
            ).push(i as int));
        }
        seen.push(messages[i].uuid.clone());
        i += 1;
    }
    r
}

/// The uuids of the messages that are written.
pub open spec fn inserted_uuids(present: Seq<Seq<char>>, messages: Seq<MessageInput>, upto: int) -> Seq<
    Seq<char>,
> {
    inserted_places(present, messages, upto).map_values(|i: int| messages[i].uuid@)
}

pub(crate) proof fn lemma_inserted_bound(present: Seq<Seq<char>>, messages: Seq<MessageInput>, upto: int)
    requires
        0 <= upto <= messages.len(),
    ensures
        forall|k: int|
            0 <= k < inserted_places(present, messages, upto).len() ==> 0
                <= #[trigger] inserted_places(present, messages, upto)[k] < upto && is_inserted(
                present,
                messages,
                inserted_places(present, messages, upto)[k],
            ),
    decreases upto,
{
    if upto > 0 {
        lemma_inserted_bound(present, messages, upto - 1);
        let p = inserted_places(present, messages, upto - 1);
        let q = inserted_places(present, messages, upto);
        assert forall|k: int| 0 <= k < q.len() implies 0 <= #[trigger] q[k] < upto && is_inserted(
            present,
            messages,
            q[k],
        ) by {
            if k < p.len() {
                assert(q[k] == p[k]);
            }
        }
    }
}

pub(crate) proof fn lemma_every_uuid_stored(
    present: Seq<Seq<char>>,
    messages: Seq<MessageInput>,
    upto: int,
    i: int,
)
    requires
        0 <= i < upto <= messages.len(),
    ensures
        present.contains(messages[i].uuid@) || inserted_uuids(present, messages, upto).contains(
            messages[i].uuid@,
        ),
    decreases upto, i,
{
    let p = inserted_places(present, messages, upto - 1);
    let q = inserted_places(present, messages, upto);
    let us = inserted_uuids(present, messages, upto - 1);
    let u = messages[i].uuid@;
    if !present.contains(u) {
        if i < upto - 1 {
            lemma_every_uuid_stored(present, messages, upto - 1, i);
            let k = choose|k: int| 0 <= k < us.len() && us[k] == u;
            assert(q[k] == p[k]);
            assert(inserted_uuids(present, messages, upto)[k] == u);
        } else if is_inserted(present, messages, i) {
            assert(q[q.len() - 1] == i);
            assert(inserted_uuids(present, messages, upto)[q.len() - 1] == u);
        } else {
            let j = choose|j: int| 0 <= j < i && (#[trigger] messages[j]).uuid@ == u;
            lemma_every_uuid_stored(present, messages, upto - 1, j);
            let k = choose|k: int| 0 <= k < us.len() && us[k] == u;
            assert(q[k] == p[k]);
            assert(inserted_uuids(present, messages, upto)[k] == u);
        }
    }
}

proof fn lemma_nothing_new(present: Seq<Seq<char>>, messages: Seq<MessageInput>, upto: int)
    requires
        0 <= upto <= messages.len(),
        forall|i: int|
            0 <= i < messages.len() ==> present.contains((#[trigger] messages[i]).uuid@),
    ensures
        inserted_places(present, messages, upto).len() == 0,
    decreases upto,
{
    if upto > 0 {
        lemma_nothing_new(present, messages, upto - 1);
        assert(present.contains(messages[upto - 1].uuid@));
    }
}

/// Whether one of the messages has the uuid.
pub open spec fn has_uuid(messages: Seq<MessageInput>, uuid: Seq<char>) -> bool {
    exists|l: int| 0 <= l < messages.len() && (#[trigger] messages[l]).uuid@ == uuid
}

/// Once messages are written, others with no uuid but theirs are not written.
pub proof fn repeated_uuids_write_nothing(
    present: Seq<Seq<char>>,
    messages: Seq<MessageInput>,
    again: Seq<MessageInput>,
)
    requires
        forall|k: int| 0 <= k < again.len() ==> has_uuid(messages, (#[trigger] again[k]).uuid@),
    ensures
        inserted_places(
            present + inserted_uuids(present, messages, messages.len() as int),
            again,
            again.len() as int,
        ).len() == 0,
{
    let n = messages.len() as int;
    let now_present = present + inserted_uuids(present, messages, n);
    assert forall|i: int| 0 <= i < again.len() implies now_present.contains(
        (#[trigger] again[i]).uuid@,
    ) by {
        let u = again[i].uuid@;
        let l = choose|l: int| 0 <= l < messages.len() && (#[trigger] messages[l]).uuid@ == u;
        lemma_every_uuid_stored(present, messages, n, l);
        if present.contains(u) {
            let k = choose|k: int| 0 <= k < present.len() && present[k] == u;
            assert(now_present[k] == u);
        } else {
            let more = inserted_uuids(present, messages, n);
            let k = choose|k: int| 0 <= k < more.len() && more[k] == u;
            assert(now_present[present.len() + k] == u);
        }
    }
    lemma_nothing_new(now_present, again, again.len() as int);
}

/// Writing the same messages a second time writes none of them.
pub proof fn second_insert_writes_nothing(present: Seq<Seq<char>>, messages: Seq<MessageInput>)
    ensures
        inserted_places(
            present + inserted_uuids(present, messages, messages.len() as int),
            messages,
            messages.len() as int,
        ).len() == 0,
{
    assert forall|k: int| 0 <= k < messages.len() implies has_uuid(
        messages,
        (#[trigger] messages[k]).uuid@,
    ) by {}
    repeated_uuids_write_nothing(present, messages, messages);
}

/// No uuid is written twice, nor one that the store has.
pub proof fn uuids_stay_unique(present: Seq<Seq<char>>, messages: Seq<MessageInput>, j: int, k: int)
    requires
        0 <= j < k < inserted_places(present, messages, messages.len() as int).len(),
    ensures
        inserted_uuids(present, messages, messages.len() as int)[j] != inserted_uuids(
            present,
            messages,
            messages.len() as int,
        )[k],
        !present.contains(inserted_uuids(present, messages, messages.len() as int)[j]),
        !present.contains(inserted_uuids(present, messages, messages.len() as int)[k]),
{
    let n = messages.len() as int;
    let places = inserted_places(present, messages, n);
    lemma_inserted_bound(present, messages, n);
    lemma_inserted_ascend(present, messages, n);
    assert(is_inserted(present, messages, places[k]));
    assert(is_inserted(present, messages, places[j]));
    assert(places[j] < places[k]);
    assert(messages[places[j]].uuid@ != messages[places[k]].uuid@);
}

proof fn lemma_inserted_ascend(present: Seq<Seq<char>>, messages: Seq<MessageInput>, upto: int)
    requires
        0 <= upto <= messages.len(),
    ensures
        forall|j: int, k: int|
            0 <= j < k < inserted_places(present, messages, upto).len() ==> #[trigger] inserted_places(
                present,
                messages,
                upto,
            )[j] < #[trigger] inserted_places(present, messages, upto)[k],
    decreases upto,
{
    if upto > 0 {
        let p = inserted_places(present, messages, upto - 1);
        let q = inserted_places(present, messages, upto);
        lemma_inserted_ascend(present, messages, upto - 1);
        lemma_inserted_bound(present, messages, upto - 1);
        assert forall|j: int, k: int| 0 <= j < k < q.len() implies #[trigger] q[j]
            < #[trigger] q[k] by {
            assert(q[j] == p[j]);
            if k < p.len() {
                assert(q[k] == p[k]);
            }
        }
    }
}

/// The ids of the rows that were written, where a message was.
pub open spec fn written_ids(outcomes: Seq<Option<i64>>) -> Seq<i64>
    decreases outcomes.len(),
{
    if outcomes.len() == 0 {
        seq![]
    } else {
        let p = written_ids(outcomes.drop_last());
        match outcomes.last() {
            Some(id) => p.push(id),
            None => p,
        }
    }
}

/// How many messages were written, and their ids. A message that could not be written has none.
pub fn insert_outcome(outcomes: &Vec<Option<i64>>) -> (r: (usize, Vec<i64>))
    ensures
        r.1@ == written_ids(outcomes@),
        r.0 == r.1@.len(),
{
    let mut ids: Vec<i64> = Vec::new();
    let mut i: usize = 0;
    assert(outcomes@.take(0) =~= Seq::<Option<i64>>::empty());
    while i < outcomes.len()
        invariant
            i <= outcomes@.len(),
            ids@ == written_ids(outcomes@.take(i as int)),
        decreases outcomes@.len() - i,
    {
        assert(outcomes@.take(i + 1).drop_last() =~= outcomes@.take(i as int));
        match outcomes[i] {
            Some(id) => ids.push(id),
            None => {},
        }
        i += 1;
    }
    assert(outcomes@.take(outcomes@.len() as int) =~= outcomes@);
    (ids.len(), ids)
}

/// The statement that writes a message, unless its uuid is there.
pub const INSERT_MESSAGE: &'static str = "
                INSERT INTO messages (session_id, uuid, type, content_text, content_full, timestamp, sequence, source, channel, model, tool_call_id, tool_name, tool_args, raw, approval_status, approval_resolved_at)
                VALUES (?1, ?2, ?3, ?4, ?5, ?6, ?7, ?8, ?9, ?10, ?11, ?12, ?13, ?14, ?15, ?16)
                ON CONFLICT(uuid) DO NOTHING
                ";

/// The values of a message's row, in the order of its columns.
pub open spec fn message_values(session_id: Seq<char>, m: MessageInput) -> Seq<SqlView> {
    seq![
        SqlView::Text(session_id),
        SqlView::Text(m.uuid@),
        SqlView::Text(m.message_type.word()),
        SqlView::Text(m.content_text@),
        SqlView::Text(m.content_full@),
        SqlView::Integer(m.timestamp),
        SqlView::Integer(m.sequence),
        text_or_null(m.source),
        text_or_null(m.channel),
        text_or_null(m.model),
        text_or_null(m.tool_call_id),
        text_or_null(m.tool_name),
        text_or_null(m.tool_args),
        text_or_null(m.raw),
        match m.approval_status {
            Some(status) => SqlView::Text(status.word()),
            None => SqlView::Null,
        },
        integer_or_null(m.approval_resolved_at),
    ]
}

/// The statement that writes the message `m` of a session.
pub fn insert_message_statement(session_id: &str, m: &MessageInput) -> (r: Statement)
    ensures
        r.sql@ == INSERT_MESSAGE@,
        value_views(r.params@) == message_values(session_id@, *m),
{
    let params: Vec<SqlValue> = vec![
        text(session_id),
        text(m.uuid.as_str()),
        SqlValue::Text(m.message_type.to_string()),
        text(m.content_text.as_str()),
        text(m.content_full.as_str()),
        SqlValue::Integer(m.timestamp),
        SqlValue::Integer(m.sequence),
        opt_text(&m.source),
        opt_text(&m.channel),
        opt_text(&m.model),
        opt_text(&m.tool_call_id),
        opt_text(&m.tool_name),
        opt_text(&m.tool_args),
        opt_text(&m.raw),
        match m.approval_status {
            Some(status) => SqlValue::Text(status.to_string()),
            None => SqlValue::Null,
        },
        opt_integer(m.approval_resolved_at),
    ];
    assert(value_views(params@) =~= message_values(session_id@, *m));
    Statement { sql: INSERT_MESSAGE.to_owned(), params }
}

/// The row of a message.
#[derive(Debug, Clone)]
pub struct MessageRow {
    pub id: i64,
    pub session_id: String,
    pub uuid: String,
    pub message_type: String,
    pub content_text: String,
    pub content_full: String,
    pub timestamp: i64,
    pub sequence: i64,
    pub source: Option<String>,
    pub channel: Option<String>,
    pub model: Option<String>,
    pub tool_call_id: Option<String>,
    pub tool_name: Option<String>,
    pub tool_args: Option<String>,
    pub raw: Option<String>,
    pub vector_indexed: i64,
    pub approval_status: Option<String>,
    pub approval_resolved_at: Option<i64>,
}

/// The message that a row holds. Anything but zero counts as indexed, and a status that is none
/// is left out.
pub open spec fn message_of_row(row: MessageRow) -> Message {
    Message {
        id: row.id,
        session_id: row.session_id,
        uuid: row.uuid,
        message_type: MessageType::of_word(row.message_type@),
        content_text: row.content_text,
        content_full: row.content_full,
        timestamp: row.timestamp,
        sequence: row.sequence,
        source: row.source,
        channel: row.channel,
        model: row.model,
        tool_call_id: row.tool_call_id,
        tool_name: row.tool_name,
        tool_args: row.tool_args,
        raw: row.raw,
        vector_indexed: row.vector_indexed != 0,
        approval_status: match row.approval_status {
            Some(s) => ApprovalStatus::of_word(lowercase(s@)),
            None => None,
        },
        approval_resolved_at: row.approval_resolved_at,
    }
}

/// The message that a row holds.
pub fn decode_message(row: MessageRow) -> (r: Message)
    ensures
        r == message_of_row(row),
        row.approval_status is Some && all_ascii(row.approval_status->0@) ==> r.approval_status
            == ApprovalStatus::of_word(
            row.approval_status->0@.map_values(|c: char| ascii_lower(c)),
        ),
{
    let approval_status = match &row.approval_status {
        Some(s) => match ApprovalStatus::from_str(s.as_str()) {
            Ok(status) => Some(status),
            Err(_) => None,
        },
        None => None,
    };
    Message {
        id: row.id,
        session_id: row.session_id,
        uuid: row.uuid,
        message_type: MessageType::from_word(row.message_type.as_str()),
        content_text: row.content_text,
        content_full: row.content_full,
        timestamp: row.timestamp,
        sequence: row.sequence,
        source: row.source,
        channel: row.channel,
        model: row.model,
        tool_call_id: row.tool_call_id,
        tool_name: row.tool_name,
        tool_args: row.tool_args,
        raw: row.raw,
        vector_indexed: row.vector_indexed != 0,
        approval_status,
        approval_resolved_at: row.approval_resolved_at,
    }
}

/// The beginning of a statement that reads messages: its columns are those of `MessageRow`.
pub const MESSAGE_SELECT: &'static str = "
            SELECT id, session_id, uuid, type, content_text, content_full, timestamp, sequence,
                   source, channel, model, tool_call_id, tool_name, tool_args, raw, vector_indexed,
                   approval_status, approval_resolved_at
            FROM messages
            WHERE ";

/// The direction in which messages are read.
pub open spec fn direction(desc: bool) -> Seq<char> {
    if desc {
        "DESC"@
    } else {
        "ASC"@
    }
}

fn messages_of_session(desc: bool, tail: &str) -> (r: String)
    ensures
        r@ == MESSAGE_SELECT@ + "session_id = ?1 ORDER BY sequence "@ + direction(desc) + tail@,
{
    let mut sql = MESSAGE_SELECT.to_owned();
    sql.push_str("session_id = ?1 ORDER BY sequence ");
    sql.push_str(if desc { "DESC" } else { "ASC" });
    sql.push_str(tail);
    sql
}

/// The statement that reads a page of the messages of a session in order of their numbers, the
/// last first where `desc` holds.
pub fn list_messages_ordered(session_id: &str, limit: usize, offset: usize, desc: bool) -> (r:
    Statement)
    ensures
        r.sql@ == MESSAGE_SELECT@ + "session_id = ?1 ORDER BY sequence "@ + direction(desc)
            + " LIMIT ?2 OFFSET ?3"@,
        value_views(r.params@) == seq![
            SqlView::Text(session_id@),
            SqlView::Integer(limit as i64),
            SqlView::Integer(offset as i64),
        ],
{
    let params: Vec<SqlValue> = vec![
        text(session_id),
        SqlValue::Integer(limit as i64),
        SqlValue::Integer(offset as i64),
    ];
    assert(value_views(params@) =~= seq![
        SqlView::Text(session_id@),
        SqlView::Integer(limit as i64),
        SqlView::Integer(offset as i64),
    ]);
    Statement { sql: messages_of_session(desc, " LIMIT ?2 OFFSET ?3"), params }
}

/// The statement that reads a page of the messages of a session in order of their numbers.
pub fn list_messages(session_id: &str, limit: usize, offset: usize) -> (r: Statement)
    ensures
        r.sql@ == MESSAGE_SELECT@ + "session_id = ?1 ORDER BY sequence "@ + direction(false)
            + " LIMIT ?2 OFFSET ?3"@,
        value_views(r.params@) == seq![
            SqlView::Text(session_id@),
            SqlView::Integer(limit as i64),
            SqlView::Integer(offset as i64),
        ],
{
    list_messages_ordered(session_id, limit, offset, false)
}

/// The statement that reads at most `limit` messages of a session, or all of them, in order of
/// their numbers, the last first where `desc` holds.
pub fn get_messages_with_options(session_id: &str, limit: Option<usize>, desc: bool) -> (r:
    Statement)
    ensures
        r.sql@ == MESSAGE_SELECT@ + "session_id = ?1 ORDER BY sequence "@ + direction(desc)
            + " LIMIT ?2"@,
        value_views(r.params@) == seq![
            SqlView::Text(session_id@),
            SqlView::Integer(
                match limit {
                    Some(n) => n as i64,
                    None => i64::MAX,
                },
            ),
        ],
{
    let bound: i64 = match limit {
        Some(n) => n as i64,
        None => i64::MAX,
    };
    let params: Vec<SqlValue> = vec![text(session_id), SqlValue::Integer(bound)];
    assert(value_views(params@) =~= seq![SqlView::Text(session_id@), SqlView::Integer(bound)]);
    Statement { sql: messages_of_session(desc, " LIMIT ?2"), params }
}

/// The statement that reads all messages of a session in order of their numbers.
pub fn get_messages(session_id: &str) -> (r: Statement)
    ensures
        r.sql@ == MESSAGE_SELECT@ + "session_id = ?1 ORDER BY sequence "@ + direction(false)
            + " LIMIT ?2"@,
        value_views(r.params@) == seq![SqlView::Text(session_id@), SqlView::Integer(i64::MAX)],
{
    get_messages_with_options(session_id, None, false)
}

/// A number of placeholders without numbers.
pub open spec fn bare_placeholders(n: nat) -> Seq<Seq<char>> {
    Seq::new(n, |i: int| "?"@)
}

fn question_marks(n: usize) -> (r: String)
    ensures
        r@ == joined(bare_placeholders(n as nat), ","@),
{
    let mut marks: Vec<String> = Vec::new();
    let mut i: usize = 0;
    while i < n
        invariant
            i <= n,
            marks@.len() == i,
            forall|k: int| 0 <= k < i ==> (#[trigger] marks@[k])@ == "?"@,
        decreases n - i,
    {
        marks.push("?".to_owned());
        i += 1;
    }
    assert(views(marks@) =~= bare_placeholders(n as nat));
    join(&marks, ",")
}

fn statement_by_ids(ids: &Vec<i64>, before: &str, after: &str) -> (r: Option<Statement>)
    ensures
        match r {
            Some(s) => {
                &&& ids@.len() > 0
                &&& s.sql@ == before@ + joined(bare_placeholders(ids@.len()), ","@) + after@
                &&& value_views(s.params@) == ids@.map_values(|n: i64| SqlView::Integer(n))
            },
            None => ids@.len() == 0,
        },
{
    if ids.len() == 0 {
        return None;
    }
    let mut sql = before.to_owned();
    sql.push_str(question_marks(ids.len()).as_str());
    sql.push_str(after);
    Some(Statement { sql, params: integer_values(ids) })
}

/// The statement that marks messages as indexed. Without messages there is nothing to do.
pub fn mark_messages_indexed(message_ids: &Vec<i64>) -> (r: Option<Statement>)
    ensures
        match r {
            Some(s) => {
                &&& message_ids@.len() > 0
                &&& s.sql@ == "UPDATE messages SET vector_indexed = 1 WHERE id IN ("@ + joined(
                    bare_placeholders(message_ids@.len()),
                    ","@,
                ) + ")"@
                &&& value_views(s.params@) == message_ids@.map_values(|n: i64| SqlView::Integer(n))
            },
            None => message_ids@.len() == 0,
        },
{
    statement_by_ids(message_ids, "UPDATE messages SET vector_indexed = 1 WHERE id IN (", ")")
}

/// The statement that marks messages as failed to index. Without messages there is nothing to do.
pub fn mark_messages_index_failed(message_ids: &Vec<i64>) -> (r: Option<Statement>)
    ensures
        match r {
            Some(s) => {
                &&& message_ids@.len() > 0
                &&& s.sql@ == "UPDATE messages SET vector_indexed = -1 WHERE id IN ("@ + joined(
                    bare_placeholders(message_ids@.len()),
                    ","@,
                ) + ")"@
                &&& value_views(s.params@) == message_ids@.map_values(|n: i64| SqlView::Integer(n))
            },
            None => message_ids@.len() == 0,
        },
{
    statement_by_ids(message_ids, "UPDATE messages SET vector_indexed = -1 WHERE id IN (", ")")
}

/// The statement that reads messages by their ids. Without ids there is nothing to read.
pub fn get_messages_by_ids(ids: &Vec<i64>) -> (r: Option<Statement>)
    ensures
        match r {
            Some(s) => {
                &&& ids@.len() > 0
                &&& s.sql@ == MESSAGE_SELECT@ + "id IN ("@ + joined(
                    bare_placeholders(ids@.len()),
                    ","@,
                ) + ") ORDER BY id ASC"@
                &&& value_views(s.params@) == ids@.map_values(|n: i64| SqlView::Integer(n))
            },
            None => ids@.len() == 0,
        },
{
    let mut before = MESSAGE_SELECT.to_owned();
    before.push_str("id IN (");
    statement_by_ids(ids, before.as_str(), ") ORDER BY id ASC")
}

/// The beginning of the statement that settles approvals.
pub const APPROVAL_UPDATE: &'static str =
    "UPDATE messages SET approval_status = ?1, approval_resolved_at = ?2 WHERE uuid IN (";

/// The statement that settles the approvals of several messages alike. Without messages there is
/// nothing to do.
pub fn batch_update_approval_status(
    uuids: &Vec<String>,
    status: ApprovalStatus,
    resolved_at: i64,
) -> (r: Option<Statement>)
    ensures
        match r {
            Some(s) => {
                &&& uuids@.len() > 0
                &&& s.sql@ == APPROVAL_UPDATE@ + joined(bare_placeholders(uuids@.len()), ","@) + ")"@
                &&& value_views(s.params@) == seq![
                    SqlView::Text(status.word()),
                    SqlView::Integer(resolved_at),
                ] + id_values(uuids@)
            },
            None => uuids@.len() == 0,
        },
{
    if uuids.len() == 0 {
        return None;
    }
    let mut sql = APPROVAL_UPDATE.to_owned();
    sql.push_str(question_marks(uuids.len()).as_str());
    sql.push_str(")");
    let mut params: Vec<SqlValue> = vec![
        SqlValue::Text(status.to_string()),
        SqlValue::Integer(resolved_at),
    ];
    let mut ids = text_values(uuids);
    let ghost more = ids@;
    params.append(&mut ids);
    assert(value_views(params@) =~= seq![
        SqlView::Text(status.word()),
        SqlView::Integer(resolved_at),
    ] + value_views(more));
    Some(Statement { sql, params })
}

/// The columns of a session, in the order of the statements that read sessions.
pub const SESSION_SELECT: &'static str = "
                SELECT id, session_id, project_id, message_count, last_message_at,
                       cwd, model, channel, file_mtime, file_size, meta,
                       session_type, source, created_at, updated_at
                FROM sessions ";

/// The statement that reads the sessions that changed last, of one project where one is given.
pub fn get_sessions(project_id: Option<i64>, limit: usize) -> (r: Statement)
    ensures
        match project_id {
            Some(id) => {
                &&& r.sql@ == SESSION_SELECT@
                    + "WHERE project_id = ?1 ORDER BY updated_at DESC LIMIT ?2"@
                &&& value_views(r.params@) == seq![
                    SqlView::Integer(id),
                    SqlView::Integer(limit as i64),
                ]
            },
            None => {
                &&& r.sql@ == SESSION_SELECT@ + "ORDER BY updated_at DESC LIMIT ?1"@
                &&& value_views(r.params@) == seq![SqlView::Integer(limit as i64)]
            },
        },
{
    let mut sql = SESSION_SELECT.to_owned();
    match project_id {
        Some(id) => {
            sql.push_str("WHERE project_id = ?1 ORDER BY updated_at DESC LIMIT ?2");
            let params: Vec<SqlValue> = vec![SqlValue::Integer(id), SqlValue::Integer(limit as i64)];
            assert(value_views(params@) =~= seq![
                SqlView::Integer(id),
                SqlView::Integer(limit as i64),
            ]);
            Statement { sql, params }
        },
        None => {
            sql.push_str("ORDER BY updated_at DESC LIMIT ?1");
            let params: Vec<SqlValue> = vec![SqlValue::Integer(limit as i64)];
            assert(value_views(params@) =~= seq![SqlView::Integer(limit as i64)]);
            Statement { sql, params }
        },
    }
}

/// The statement that counts the approvals that are due, of one session where one is given.
pub fn count_pending_approvals(session_id: Option<&str>) -> (r: Statement)
    ensures
        match session_id {
            Some(id) => {
                &&& r.sql@
                    == "SELECT COUNT(*) FROM messages WHERE approval_status = 'pending' AND session_id = ?1"@
                &&& value_views(r.params@) == seq![SqlView::Text(id@)]
            },
            None => {
                &&& r.sql@ == "SELECT COUNT(*) FROM messages WHERE approval_status = 'pending'"@
                &&& r.params@.len() == 0
            },
        },
{
    match session_id {
        Some(id) => {
            let params: Vec<SqlValue> = vec![text(id)];
            assert(value_views(params@) =~= seq![SqlView::Text(id@)]);
            Statement {
                sql:
                    "SELECT COUNT(*) FROM messages WHERE approval_status = 'pending' AND session_id = ?1".to_owned(),
                params,
            }
        },
        None => Statement {
            sql: "SELECT COUNT(*) FROM messages WHERE approval_status = 'pending'".to_owned(),
            params: Vec::new(),
        },
    }
}

// ---- Talks ----

/// The row of a talk's summary.
#[derive(Debug, Clone)]
pub struct TalkRow {
    pub session_id: String,
    pub talk_id: String,
    pub summary_l2: String,
    pub summary_l3: Option<String>,
    pub created_at: i64,
    pub updated_at: i64,
}

/// Whether `r` is the row that a talk has once its summary is written: the summary of the talk is
/// replaced, that of the session only where there is one.
pub open spec fn is_talk_row(
    r: TalkRow,
    existing: Option<TalkRow>,
    session_id: Seq<char>,
    talk_id: Seq<char>,
    summary_l2: Seq<char>,
    summary_l3: Option<&str>,
    now: i64,
) -> bool {
    &&& r.summary_l2@ == summary_l2
    &&& r.updated_at == now
    &&& match existing {
        Some(row) => {
            &&& r.session_id == row.session_id
            &&& r.talk_id == row.talk_id
            &&& r.created_at == row.created_at
            &&& match summary_l3 {
                Some(s) => r.summary_l3 is Some && r.summary_l3->0@ == s@,
                None => r.summary_l3 == row.summary_l3,
            }
        },
        None => {
            &&& r.session_id@ == session_id
            &&& r.talk_id@ == talk_id
            &&& r.created_at == now
            &&& match summary_l3 {
                Some(s) => r.summary_l3 is Some && r.summary_l3->0@ == s@,
                None => r.summary_l3 is None,
            }
        },
    }
}

/// The row that a talk has once its summary is written.
pub fn upsert_talk_summary(
    existing: Option<TalkRow>,
    session_id: &str,
    talk_id: &str,
    summary_l2: &str,
    summary_l3: Option<&str>,
    now: i64,
) -> (r: TalkRow)
    ensures
        is_talk_row(r, existing, session_id@, talk_id@, summary_l2@, summary_l3, now),
{
    match existing {
        Some(row) => TalkRow {
            session_id: row.session_id,
            talk_id: row.talk_id,
            summary_l2: summary_l2.to_owned(),
            summary_l3: match summary_l3 {
                Some(s) => Some(s.to_owned()),
                None => row.summary_l3,
            },
            created_at: row.created_at,
            updated_at: now,
        },
        None => TalkRow {
            session_id: session_id.to_owned(),
            talk_id: talk_id.to_owned(),
            summary_l2: summary_l2.to_owned(),
            summary_l3: match summary_l3 {
                Some(s) => Some(s.to_owned()),
                None => None,
            },
            created_at: now,
            updated_at: now,
        },
    }
}

// ---- The database file ----

/// Whether an error says that the database file is malformed.
pub open spec fn says_malformed(lowered: Seq<char>) -> bool {
    occurs_in(lowered, "malformed"@)
}

/// Whether an error says that the database file is malformed, in any case.
pub fn is_malformed_error(message: &str) -> (r: bool)
    ensures
        r == says_malformed(lowercase(message@)),
        all_ascii(message@) ==> r == says_malformed(
            message@.map_values(|c: char| ascii_lower(c)),
        ),
{
    contains_text(to_lowercase(message).as_str(), "malformed")
}

/// The files beside the database that recovery deals with.
#[derive(Debug, Clone)]
pub struct WalPaths {
    pub wal: String,
    pub shm: String,
    /// Where the write-ahead log goes.
    pub backup: String,
}

/// The files beside the database at `db_path`.
pub fn wal_paths(style: PathStyle, db_path: &str) -> (r: WalPaths)
    ensures
        r.wal@ == path_with_extension(style, db_path@, "db-wal"@),
        r.shm@ == path_with_extension(style, db_path@, "db-shm"@),
        r.backup@ == path_with_extension(style, r.wal@, "db-wal.backup"@),
{
    proof {
        reveal_strlit("db-wal");
        reveal_strlit("db-shm");
        reveal_strlit("db-wal.backup");
    }
    let wal = paths::with_extension(style, db_path, "db-wal");
    let backup = paths::with_extension(style, wal.as_str(), "db-wal.backup");
    WalPaths { wal, shm: paths::with_extension(style, db_path, "db-shm"), backup }
}

/// What is done about a database that could not be opened.
#[derive(Debug, Clone)]
pub enum OpenFailure {
    /// It is opened once more, without its old write-ahead log.
    Retry,
    /// It is given up.
    GiveUp(Error),
}

/// What is done about a database that could not be opened: one that is malformed is opened once
/// more where its old write-ahead log was there and could be put aside.
pub fn after_open_failure(message: &str, wal_exists: bool, wal_put_aside: bool) -> (r: OpenFailure)
    ensures
        if !says_malformed(lowercase(message@)) {
            r matches OpenFailure::GiveUp(Error::Database(why)) && why@ == message@
        } else if wal_exists && wal_put_aside {
            r is Retry
        } else {
            r matches OpenFailure::GiveUp(Error::Connection(why)) && why@
                == "数据库损坏且无法恢复: "@ + message@
        },
{
    if !is_malformed_error(message) {
        OpenFailure::GiveUp(Error::Database(message.to_owned()))
    } else if wal_exists && wal_put_aside {
        OpenFailure::Retry
    } else {
        let mut why = "数据库损坏且无法恢复: ".to_owned();
        why.push_str(message);
        OpenFailure::GiveUp(Error::Connection(why))
    }
}

/// What the report of an integrity check says.
pub fn integrity_of_report(report: String) -> (r: IntegrityCheckResult)
    ensures
        r == if report@ == "ok"@ {
            IntegrityCheckResult::Intact
        } else {
            IntegrityCheckResult::Corrupted(report)
        },
{
    if same_text(report.as_str(), "ok") {
        IntegrityCheckResult::Intact
    } else {
        IntegrityCheckResult::Corrupted(report)
    }
}

} // verus!

//! Collecting sessions into the store.
//!
//! A collection alternates between reading files, asking the store and deciding
//! what comes next. The deciding is here, one stage at a time: each stage takes
//! the answer to what it asked for and either leads to the next stage or ends
//! the collection.
use vstd::prelude::*;
use crate::db::{
    has_uuid, inserted_places, inserted_uuids, repeated_uuids_write_nothing, session_written, IncrementalState,
    MessageInput, SessionInput, SessionRow,
};
use crate::paths;
use crate::paths::{file_name_of, parent_name_of, stem_of, PathStyle};
use crate::session::{
    FileIdentity, ParseResult, ParsedMessage, ReaderState, SessionMeta, Source, SourceKind,
};
use crate::laws::collecting::{file_is_collected_whole, session_is_collected_since};
use crate::laws::texts::number_reads_back;
use crate::text::{copy_opt, i64_value, parse_i64, signed_decimal, views};

verus! {

/// How far a full collection reaches back behind the newest message of the store, in milliseconds.
pub const BUFFER_MS: i64 = 1_800_000;

/// What a collection has done.
#[derive(Debug, Clone)]
pub struct CollectResult {
    pub projects_scanned: usize,
    pub sessions_scanned: usize,
    pub messages_inserted: usize,
    pub new_message_ids: Vec<i64>,
    pub errors: Vec<String>,
}

impl CollectResult {
    /// Whether nothing has been done.
    pub open spec fn is_blank(self) -> bool {
        &&& self.projects_scanned == 0
        &&& self.sessions_scanned == 0
        &&& self.messages_inserted == 0
        &&& self.new_message_ids@ == Seq::<i64>::empty()
        &&& self.errors@ == Seq::<String>::empty()
    }

    /// Whether this differs from `before` by one more error, with the text `message`.
    pub open spec fn adds_error(self, before: CollectResult, message: Seq<char>) -> bool {
        &&& self.projects_scanned == before.projects_scanned
        &&& self.sessions_scanned == before.sessions_scanned
        &&& self.messages_inserted == before.messages_inserted
        &&& self.new_message_ids@ == before.new_message_ids@
        &&& views(self.errors@) == views(before.errors@).push(message)
    }

    /// Records an error: what failed, and why.
    fn note_error(&mut self, what: &str, why: &str)
        ensures
            final(self).adds_error(*old(self), what@ + why@),
    {
        let mut message = what.to_owned();
        message.push_str(why);
        let ghost before = self.errors@;
        self.errors.push(message);
        assert(views(self.errors@) =~= views(before).push(what@ + why@));
    }

    /// Records that the sessions of a tool could not be listed.
    pub fn listing_failed(&mut self, source: &Source, why: &str)
        ensures
            final(self).adds_error(
                *old(self),
                source.label@ + " failed to list sessions: "@ + why@,
            ),
    {
        let mut what = source.label.clone();
        what.push_str(" failed to list sessions: ");
        self.note_error(what.as_str(), why);
    }

    /// Records that all listed sessions of a tool have been gone through.
    pub fn adapter_done(&mut self)
        requires
            old(self).projects_scanned < usize::MAX,
        ensures
            *final(self) == (CollectResult {
                projects_scanned: (old(self).projects_scanned + 1) as usize,
                ..*old(self)
            }),
    {
        self.projects_scanned = self.projects_scanned + 1;
    }
}

impl Default for CollectResult {
    fn default() -> (r: CollectResult)
        ensures
            r.is_blank(),
    {
        CollectResult {
            projects_scanned: 0,
            sessions_scanned: 0,
            messages_inserted: 0,
            new_message_ids: Vec::new(),
            errors: Vec::new(),
        }
    }
}

/// The project that a session belongs to, as it is asked for in the store.
#[derive(Debug, Clone)]
pub struct ProjectRequest {
    pub name: String,
    pub path: String,
    pub source: String,
    pub encoded_dir_name: Option<String>,
}

/// The name of the directory that holds a session file.
pub fn extract_encoded_dir_name(style: PathStyle, path: &str) -> (r: Option<String>)
    ensures
        match r {
            Some(name) => parent_name_of(style, path@) == Some(name@),
            None => parent_name_of(style, path@) is None,
        },
{
    paths::parent_name(style, path)
}

/// The name of the project at a path: its last component, or the path itself.
pub open spec fn project_name_of(style: PathStyle, path: Seq<char>) -> Seq<char> {
    match file_name_of(style, path) {
        Some(name) => name,
        None => path,
    }
}

/// The name of the project at `path`.
pub fn extract_project_name(style: PathStyle, path: &str) -> (r: String)
    ensures
        r@ == project_name_of(style, path@),
{
    match paths::file_name(style, path) {
        Some(name) => name,
        None => path.to_owned(),
    }
}

/// The time of a message: the number in its timestamp, or the present where there is none.
pub open spec fn message_time(msg: ParsedMessage, now: i64) -> i64 {
    match msg.timestamp {
        Some(s) => match i64_value(s@) {
            Some(ms) => ms,
            None => now,
        },
        None => now,
    }
}

/// The time of a message.
pub fn message_timestamp(msg: &ParsedMessage, now: i64) -> (r: i64)
    ensures
        r == message_time(*msg, now),
        msg.timestamp is None ==> r == now,
        forall|n: i64|
            msg.timestamp is Some && msg.timestamp->0@ == #[trigger] signed_decimal(n as int) ==> r
                == n,
{
    proof {
        assert forall|n: i64|
            msg.timestamp is Some && msg.timestamp->0@ == #[trigger] signed_decimal(
                n as int,
            ) implies message_time(*msg, now) == n by {
            number_reads_back(n);
        }
    }
    match &msg.timestamp {
        Some(s) => match parse_i64(s.as_str()) {
            Some(ms) => ms,
            None => now,
        },
        None => now,
    }
}

/// Whether `r` is `msg` as it is written, at the given time and place.
pub open spec fn is_input_of(r: MessageInput, msg: ParsedMessage, timestamp: i64, sequence: int) -> bool {
    &&& r.uuid == msg.uuid
    &&& r.message_type == msg.message_type
    &&& r.content_text == msg.content.text
    &&& r.content_full == msg.content.full
    &&& r.timestamp == timestamp
    &&& r.sequence == sequence
    &&& r.source is Some && r.source->0 == msg.source.word
    &&& r.channel == msg.channel
    &&& r.model == msg.model
    &&& r.tool_call_id == msg.tool_call_id
    &&& r.tool_name == msg.tool_name
    &&& r.tool_args == msg.tool_args
    &&& r.raw == msg.raw
    &&& r.approval_status is None
    &&& r.approval_resolved_at is None
}

/// `msg` as it is written, at the given time and place.
pub fn message_input(msg: &ParsedMessage, timestamp: i64, sequence: i64) -> (r: MessageInput)
    ensures
        is_input_of(r, *msg, timestamp, sequence as int),
{
    MessageInput {
        uuid: msg.uuid.clone(),
        message_type: msg.message_type,
        content_text: msg.content.text.clone(),
        content_full: msg.content.full.clone(),
        timestamp,
        sequence,
        source: Some(msg.source.to_string()),
        channel: copy_opt(&msg.channel),
        model: copy_opt(&msg.model),
        tool_call_id: copy_opt(&msg.tool_call_id),
        tool_name: copy_opt(&msg.tool_name),
        tool_args: copy_opt(&msg.tool_args),
        raw: copy_opt(&msg.raw),
        approval_status: None,
        approval_resolved_at: None,
    }
}

/// Whether the batch holds a message with the uuid, the number and the time.
pub open spec fn holds_message(
    batch: Seq<MessageInput>,
    uuid: Seq<char>,
    sequence: int,
    timestamp: int,
) -> bool {
    exists|k: int|
        0 <= k < batch.len() && (#[trigger] batch[k]).uuid@ == uuid && batch[k].sequence == sequence
            && batch[k].timestamp == timestamp
}

/// Whether a message counts as new: it is younger than the cutoff, where there is one.
pub open spec fn is_new(msg: ParsedMessage, cutoff: Option<i64>, now: i64) -> bool {
    match cutoff {
        Some(ts) => message_time(msg, now) > ts,
        None => true,
    }
}

/// The places of the new messages of a session, in order.
pub open spec fn new_places(messages: Seq<ParsedMessage>, cutoff: Option<i64>, now: i64) -> Seq<int>
    decreases messages.len(),
{
    if messages.len() == 0 {
        seq![]
    } else {
        let p = new_places(messages.drop_last(), cutoff, now);
        if is_new(messages.last(), cutoff, now) {
            p.push(messages.len() - 1)
        } else {
            p
        }
    }
}

/// Whether `batch` holds the new messages of a session, each in the place that it has there
/// behind `start`.
pub open spec fn is_batch_of(
    batch: Seq<MessageInput>,
    messages: Seq<ParsedMessage>,
    cutoff: Option<i64>,
    now: i64,
    start: int,
) -> bool {
    let places = new_places(messages, cutoff, now);
    &&& batch.len() == places.len()
    &&& forall|k: int|
        #![trigger batch[k]]
        0 <= k < batch.len() ==> is_input_of(
            batch[k],
            messages[places[k]],
            message_time(messages[places[k]], now),
            start + places[k],
        )
}

/// The new messages among `messages`, numbered from `start` by their place in the session.
pub fn new_messages(
    messages: &Vec<ParsedMessage>,
    cutoff: Option<i64>,
    now: i64,
    start: i64,
) -> (batch: Vec<MessageInput>)
    requires
        messages@.len() <= i64::MAX,
        start + messages@.len() <= i64::MAX,
    ensures
        is_batch_of(batch@, messages@, cutoff, now, start as int),
{
    let mut batch: Vec<MessageInput> = Vec::new();
    let mut i: usize = 0;
    assert(messages@.take(0) =~= Seq::<ParsedMessage>::empty());
    while i < messages.len()
        invariant
            i <= messages@.len() <= i64::MAX,
            start + messages@.len() <= i64::MAX,
            is_batch_of(batch@, messages@.take(i as int), cutoff, now, start as int),
            forall|k: int|
                0 <= k < new_places(messages@.take(i as int), cutoff, now).len() ==> 0
                    <= #[trigger] new_places(messages@.take(i as int), cutoff, now)[k] < i,
        decreases messages@.len() - i,
    {
        let ghost p = messages@.take(i as int);
        let ghost q = messages@.take(i + 1);
        assert(q.drop_last() =~= p);
        assert(q.last() == messages@[i as int]);
        let msg = &messages[i];
        let timestamp = message_timestamp(msg, now);
        let fresh = match cutoff {
            Some(ts) => timestamp > ts,
            None => true,
        };
        if fresh {
            batch.push(message_input(msg, timestamp, start + i as i64));
        }
        i += 1;
        assert forall|k: int| 0 <= k < batch@.len() implies is_input_of(
            #[trigger] batch@[k],
            q[new_places(q, cutoff, now)[k]],
            message_time(q[new_places(q, cutoff, now)[k]], now),
            start + new_places(q, cutoff, now)[k],
        ) by {
            if k < new_places(p, cutoff, now).len() {
                assert(new_places(q, cutoff, now)[k] == new_places(p, cutoff, now)[k]);
                assert(q[new_places(p, cutoff, now)[k]] == p[new_places(p, cutoff, now)[k]]);
            }
        }
    }
    assert(messages@.take(messages@.len() as int) =~= messages@);
    batch
}

/// The number that the first new message of a session gets: one behind the greatest in the store.
pub open spec fn next_sequence(max_sequence: Option<i64>) -> int {
    match max_sequence {
        Some(max) => max + 1,
        None => 0,
    }
}

/// The number that the first new message of a session gets.
pub fn start_sequence(max_sequence: Option<i64>) -> (r: i64)
    requires
        next_sequence(max_sequence) <= i64::MAX,
    ensures
        r == next_sequence(max_sequence),
{
    match max_sequence {
        Some(max) => max + 1,
        None => 0,
    }
}

/// What is known of a session file without reading it.
#[derive(Debug, Clone, Copy, PartialEq, Eq, Structural)]
pub struct FileFacts {
    pub mtime: Option<i64>,
    pub size: i64,
    pub inode: i64,
}

/// A single session file that is to be collected.
#[derive(Debug, Clone)]
pub struct PathJob {
    pub path: String,
    pub session_id: String,
    pub encoded_dir_name: Option<String>,
}

impl PathJob {
    /// Starts the collection of the file at `path`, whose name without the extension is the
    /// session's. A path that names no file has nothing to collect.
    pub fn open(style: PathStyle, path: &str) -> (r: Option<PathJob>)
        ensures
            match r {
                Some(job) => {
                    &&& file_name_of(style, path@) is Some
                    &&& job.path@ == path@
                    &&& job.session_id@ == stem_of(file_name_of(style, path@)->0)
                    &&& match job.encoded_dir_name {
                        Some(name) => parent_name_of(style, path@) == Some(name@),
                        None => parent_name_of(style, path@) is None,
                    }
                },
                None => file_name_of(style, path@) is None,
            },
    {
        match paths::file_stem(style, path) {
            Some(session_id) => Some(
                PathJob {
                    path: path.to_owned(),
                    session_id,
                    encoded_dir_name: extract_encoded_dir_name(style, path),
                },
            ),
            None => None,
        }
    }

    /// Goes on with a file that exists and that an adapter handles; for any other the
    /// collection ends with nothing done.
    pub fn found(self, facts: Option<FileFacts>, source: Option<Source>) -> (r: Option<FoundFile>)
        ensures
            match r {
                Some(f) => f.job == self && facts == Some(f.facts) && source == Some(f.source),
                None => facts is None || source is None,
            },
    {
        match (facts, source) {
            (Some(facts), Some(source)) => Some(FoundFile { job: self, facts, source }),
            _ => None,
        }
    }
}

/// A session file that exists, and the tool that wrote it.
#[derive(Debug, Clone)]
pub struct FoundFile {
    pub job: PathJob,
    pub facts: FileFacts,
    pub source: Source,
}

/// Where reading goes on, given what the store has kept.
pub open spec fn resumed_state(saved: Option<IncrementalState>) -> Option<ReaderState> {
    match saved {
        Some((offset, mtime, size, inode)) => Some(
            ReaderState {
                offset: offset as u64,
                file_id: Some(
                    FileIdentity {
                        inode: (if inode is Some { inode->0 } else { 0i64 }) as u64,
                        mtime: (if mtime is Some { mtime->0 } else { 0i64 }) as u64,
                        size: (if size is Some { size->0 } else { 0i64 }) as u64,
                    },
                ),
            },
        ),
        None => None,
    }
}

/// Where reading goes on, given what the store has kept.
pub fn reader_state(saved: Option<IncrementalState>) -> (r: Option<ReaderState>)
    ensures
        r == resumed_state(saved),
{
    match saved {
        Some((offset, mtime, size, inode)) => Some(
            ReaderState {
                offset: offset as u64,
                file_id: Some(
                    FileIdentity {
                        inode: inode.unwrap_or(0) as u64,
                        mtime: mtime.unwrap_or(0) as u64,
                        size: size.unwrap_or(0) as u64,
                    },
                ),
            },
        ),
        None => None,
    }
}

impl FoundFile {
    /// Whether only what was added to the file is read, from where the store says that
    /// reading stopped.
    pub fn use_incremental(&self) -> (r: bool)
        ensures
            r == (self.source.kind == SourceKind::Claude),
    {
        self.source.kind == SourceKind::Claude
    }

    /// What the adapter is told of the session.
    pub fn session_meta(&self) -> (r: SessionMeta)
        ensures
            r.is_bare(
                self.job.session_id@,
                self.source,
                self.job.path@,
                self.job.encoded_dir_name,
            ),
    {
        SessionMeta::bare(
            self.job.session_id.as_str(),
            self.source.copy(),
            self.job.path.as_str(),
            copy_opt(&self.job.encoded_dir_name),
        )
    }

    /// Goes on with a session that names its working directory, which is the path of its
    /// project; for any other the collection ends with nothing done.
    pub fn parsed(self, parsed: Option<ParseResult>, state: Option<ReaderState>) -> (r: Option<
        ParsedFile,
    >)
        ensures
            match r {
                Some(p) => {
                    &&& p.found == self
                    &&& parsed == Some(p.parsed)
                    &&& p.parsed.cwd is Some
                    &&& p.parsed.cwd->0@.len() > 0
                    &&& p.project_path == p.parsed.cwd->0
                    &&& p.state == state
                },
                None => parsed is None || parsed->0.cwd is None || parsed->0.cwd->0@.len() == 0,
            },
    {
        match parsed {
            Some(result) => {
                let project_path = match &result.cwd {
                    Some(cwd) => {
                        if cwd.as_str().is_empty() {
                            return None;
                        }
                        cwd.clone()
                    },
                    None => {
                        return None;
                    },
                };
                Some(ParsedFile { found: self, parsed: result, project_path, state })
            },
            None => None,
        }
    }
}

/// A session file that has been read.
#[derive(Debug, Clone)]
pub struct ParsedFile {
    pub found: FoundFile,
    pub parsed: ParseResult,
    pub project_path: String,
    pub state: Option<ReaderState>,
}

/// Whether a collection of one file ended with one error and nothing else.
pub open spec fn only_error(r: CollectResult, message: Seq<char>) -> bool {
    &&& r.projects_scanned == 0
    &&& r.sessions_scanned == 0
    &&& r.messages_inserted == 0
    &&& r.new_message_ids@ == Seq::<i64>::empty()
    &&& views(r.errors@) == seq![message]
}

fn failed(what: &str, why: &str) -> (r: CollectResult)
    ensures
        only_error(r, what@ + why@),
{
    let mut r = CollectResult::default();
    r.note_error(what, why);
    assert(views(r.errors@) =~= seq![what@ + why@]);
    r
}

impl ParsedFile {
    /// The project that the session belongs to.
    pub fn project_request(&self, style: PathStyle) -> (r: ProjectRequest)
        ensures
            r.name@ == project_name_of(style, self.project_path@),
            r.path == self.project_path,
            r.source == self.found.source.word,
            r.encoded_dir_name == self.found.job.encoded_dir_name,
    {
        ProjectRequest {
            name: extract_project_name(style, self.project_path.as_str()),
            path: self.project_path.clone(),
            source: self.found.source.to_string(),
            encoded_dir_name: copy_opt(&self.found.job.encoded_dir_name),
        }
    }

    /// Goes on with the project that the store gave; a failure ends the collection.
    pub fn project(self, reply: Result<i64, String>) -> (r: Result<OwnedFile, CollectResult>)
        ensures
            match r {
                Ok(o) => reply == Ok::<i64, String>(o.project_id) && o.file == self,
                Err(e) => reply is Err && only_error(
                    e,
                    "Failed to create project: "@ + reply->Err_0@,
                ),
            },
    {
        match reply {
            Ok(project_id) => Ok(OwnedFile { file: self, project_id }),
            Err(why) => Err(failed("Failed to create project: ", why.as_str())),
        }
    }
}

/// A session file that has been read and whose project is known.
#[derive(Debug, Clone)]
pub struct OwnedFile {
    pub file: ParsedFile,
    pub project_id: i64,
}

impl OwnedFile {
    /// The session as it is written.
    pub fn session_input(&self) -> (r: SessionInput)
        ensures
            r.session_id == self.file.found.job.session_id,
            r.project_id == self.project_id,
            r.cwd == self.file.parsed.cwd,
            r.model == self.file.parsed.model,
            r.channel is Some && r.channel->0@ == "code"@,
            r.message_count == Some(self.file.parsed.messages@.len() as i64),
            r.file_mtime == self.file.found.facts.mtime,
            r.file_size == Some(self.file.found.facts.size),
            r.file_offset == match self.file.state {
                Some(s) => Some(s.offset as i64),
                None => None,
            },
            r.file_inode == Some(self.file.found.facts.inode),
            r.meta is None,
            r.session_type is None,
            r.source is None,
    {
        SessionInput {
            session_id: self.file.found.job.session_id.clone(),
            project_id: self.project_id,
            cwd: copy_opt(&self.file.parsed.cwd),
            model: copy_opt(&self.file.parsed.model),
            channel: Some("code".to_owned()),
            message_count: Some(self.file.parsed.messages.len() as i64),
            file_mtime: self.file.found.facts.mtime,
            file_size: Some(self.file.found.facts.size),
            file_offset: match self.file.state {
                Some(s) => Some(s.offset as i64),
                None => None,
            },
            file_inode: Some(self.file.found.facts.inode),
            meta: None,
            session_type: None,
            source: None,
        }
    }

    /// Goes on with the session written; a failure ends the collection.
    pub fn written(self, reply: Result<(), String>) -> (r: Result<WrittenFile, CollectResult>)
        ensures
            match r {
                Ok(w) => reply is Ok && w.file == self.file,
                Err(e) => reply is Err && only_error(
                    e,
                    "Failed to create session: "@ + reply->Err_0@,
                ),
            },
    {
        match reply {
            Ok(()) => Ok(WrittenFile { file: self.file }),
            Err(why) => Err(failed("Failed to create session: ", why.as_str())),
        }
    }
}

/// A session file whose session stands in the store.
#[derive(Debug, Clone)]
pub struct WrittenFile {
    pub file: ParsedFile,
}

impl WrittenFile {
    /// All messages of the file, numbered on from the greatest number in the store. A file
    /// without messages ends the collection, with the project counted.
    pub fn messages(self, max_sequence: Option<i64>, now: i64) -> (r: Result<
        FileBatch,
        CollectResult,
    >)
        requires
            self.file.parsed.messages@.len() <= i64::MAX,
            next_sequence(max_sequence) + self.file.parsed.messages@.len() <= i64::MAX,
        ensures
            match r {
                Ok(b) => {
                    &&& self.file.parsed.messages@.len() > 0
                    &&& b.session_id == self.file.found.job.session_id
                    &&& b.state == self.file.state
                    &&& b.messages@.len() == self.file.parsed.messages@.len()
                    &&& forall|i: int|
                        0 <= i < b.messages@.len() ==> {
                            &&& (#[trigger] b.messages@[i]).uuid
                                == self.file.parsed.messages@[i].uuid
                            &&& b.messages@[i].sequence == i + match max_sequence {
                                Some(greatest) => greatest + 1,
                                None => 0,
                            }
                        }
                    &&& is_batch_of(
                        b.messages@,
                        self.file.parsed.messages@,
                        None,
                        now,
                        next_sequence(max_sequence),
                    )
                },
                Err(e) => {
                    &&& self.file.parsed.messages@.len() == 0
                    &&& e.projects_scanned == 1
                    &&& e.sessions_scanned == 0
                    &&& e.messages_inserted == 0
                    &&& e.new_message_ids@ == Seq::<i64>::empty()
                    &&& e.errors@ == Seq::<String>::empty()
                },
            },
    {
        let file = self.file;
        if file.parsed.messages.len() == 0 {
            let mut r = CollectResult::default();
            r.projects_scanned = 1;
            return Err(r);
        }
        let start = start_sequence(max_sequence);
        let messages = new_messages(&file.parsed.messages, None, now, start);
        proof {
            file_is_collected_whole(messages@, file.parsed.messages@, now, start as int);
        }
        Ok(FileBatch { session_id: file.found.job.session_id, messages, state: file.state })
    }
}

/// The messages of a session file, ready to be written.
#[derive(Debug, Clone)]
pub struct FileBatch {
    pub session_id: String,
    pub messages: Vec<MessageInput>,
    pub state: Option<ReaderState>,
}

/// What the store keeps of how far a file has been read.
pub open spec fn kept_state(state: Option<ReaderState>) -> Option<(i64, i64, i64, i64)> {
    match state {
        Some(ReaderState { offset, file_id: Some(id) }) => Some(
            (offset as i64, id.mtime as i64, id.size as i64, id.inode as i64),
        ),
        _ => None,
    }
}

impl FileBatch {
    /// Ends the collection with what the store says it inserted, and gives what the store is
    /// to keep of how far the file has been read: offset, modification time, size, inode.
    pub fn finish(self, reply: Result<(usize, Vec<i64>), String>) -> (r: (
        CollectResult,
        Option<(i64, i64, i64, i64)>,
    ))
        ensures
            r.1 == kept_state(self.state),
            r.0.projects_scanned == 1,
            match reply {
                Ok((inserted, ids)) => {
                    &&& r.0.sessions_scanned == 1
                    &&& r.0.messages_inserted == inserted
                    &&& r.0.new_message_ids == ids
                    &&& r.0.errors@ == Seq::<String>::empty()
                },
                Err(why) => {
                    &&& r.0.sessions_scanned == 0
                    &&& r.0.messages_inserted == 0
                    &&& r.0.new_message_ids@ == Seq::<i64>::empty()
                    &&& views(r.0.errors@) == seq!["Failed to insert messages: "@ + why@]
                },
            },
    {
        let mut result = match reply {
            Ok((inserted, ids)) => CollectResult {
                projects_scanned: 0,
                sessions_scanned: 1,
                messages_inserted: inserted,
                new_message_ids: ids,
                errors: Vec::new(),
            },
            Err(why) => failed("Failed to insert messages: ", why.as_str()),
        };
        result.projects_scanned = 1;
        let state = match self.state {
            Some(s) => match s.file_id {
                Some(id) => Some(
                    (s.offset as i64, id.mtime as i64, id.size as i64, id.inode as i64),
                ),
                None => None,
            },
            None => None,
        };
        (result, state)
    }
}

/// The age up to which messages are taken as known, given the newest message of the store.
pub open spec fn cutoff_of(latest: Option<i64>) -> int {
    match latest {
        Some(ts) => ts - BUFFER_MS,
        None => 0,
    }
}

/// Whether a listed session has nothing to collect: it names no project, or its file has not
/// changed since the store last saw it.
pub open spec fn is_skipped(meta: SessionMeta, stored_mtime: Option<i64>) -> bool {
    ||| meta.project_path@.len() == 0
    ||| (meta.file_mtime is Some && stored_mtime is Some && meta.file_mtime->0
        == stored_mtime->0 as u64)
}

/// A listed session that is to be collected.
#[derive(Debug, Clone)]
pub struct SessionJob {
    pub meta: SessionMeta,
    pub source: Source,
}

impl SessionJob {
    /// Starts the collection of a listed session, unless it has nothing to collect.
    pub fn open(meta: SessionMeta, source: Source, stored_mtime: Option<i64>) -> (r: Option<
        SessionJob,
    >)
        ensures
            match r {
                Some(job) => !is_skipped(meta, stored_mtime) && job.meta == meta && job.source
                    == source,
                None => is_skipped(meta, stored_mtime),
            },
    {
        if meta.project_path.as_str().is_empty() {
            return None;
        }
        match (meta.file_mtime, stored_mtime) {
            (Some(mtime), Some(stored)) => {
                if mtime == stored as u64 {
                    return None;
                }
            },
            _ => {},
        }
        Some(SessionJob { meta, source })
    }

    /// The project that the session belongs to.
    pub fn project_request(&self, style: PathStyle) -> (r: ProjectRequest)
        ensures
            r.name@ == match self.meta.project_name {
                Some(name) => name@,
                None => project_name_of(style, self.meta.project_path@),
            },
            r.path == self.meta.project_path,
            r.source == self.source.word,
            r.encoded_dir_name == self.meta.encoded_dir_name,
    {
        let name = match &self.meta.project_name {
            Some(name) => name.clone(),
            None => extract_project_name(style, self.meta.project_path.as_str()),
        };
        ProjectRequest {
            name,
            path: self.meta.project_path.clone(),
            source: self.source.to_string(),
            encoded_dir_name: copy_opt(&self.meta.encoded_dir_name),
        }
    }

    /// Goes on with the project that the store gave; a failure is recorded and ends the session.
    pub fn project(self, reply: Result<i64, String>, result: &mut CollectResult) -> (r: Option<
        OwnedSession,
    >)
        ensures
            match reply {
                Ok(id) => {
                    &&& r == Some(OwnedSession { meta: self.meta, project_id: id })
                    &&& *final(result) == *old(result)
                },
                Err(why) => r is None && final(result).adds_error(
                    *old(result),
                    "Failed to create project: "@ + why@,
                ),
            },
    {
        match reply {
            Ok(project_id) => Some(OwnedSession { meta: self.meta, project_id }),
            Err(why) => {
                result.note_error("Failed to create project: ", why.as_str());
                None
            },
        }
    }
}

/// A listed session whose project is known.
#[derive(Debug, Clone)]
pub struct OwnedSession {
    pub meta: SessionMeta,
    pub project_id: i64,
}

impl OwnedSession {
    /// Goes on with a session that could be read. One that holds nothing ends here, and so
    /// does one that could not be read, which is recorded.
    pub fn parsed(
        self,
        reply: Result<Option<ParseResult>, String>,
        result: &mut CollectResult,
    ) -> (r: Option<ParsedSession>)
        ensures
            match reply {
                Ok(Some(parsed)) => {
                    &&& r == Some(
                        ParsedSession { meta: self.meta, project_id: self.project_id, parsed },
                    )
                    &&& *final(result) == *old(result)
                },
                Ok(None) => r is None && *final(result) == *old(result),
                Err(why) => r is None && final(result).adds_error(
                    *old(result),
                    "Failed to parse session "@ + self.meta.id@ + ": "@ + why@,
                ),
            },
    {
        match reply {
            Ok(Some(parsed)) => Some(
                ParsedSession { meta: self.meta, project_id: self.project_id, parsed },
            ),
            Ok(None) => None,
            Err(why) => {
                let mut what = "Failed to parse session ".to_owned();
                what.push_str(self.meta.id.as_str());
                what.push_str(": ");
                result.note_error(what.as_str(), why.as_str());
                None
            },
        }
    }
}

/// A listed session that has been read.
#[derive(Debug, Clone)]
pub struct ParsedSession {
    pub meta: SessionMeta,
    pub project_id: i64,
    pub parsed: ParseResult,
}

impl ParsedSession {
    /// The session as it is written.
    pub fn session_input(&self) -> (r: SessionInput)
        ensures
            r.session_id == self.meta.id,
            r.project_id == self.project_id,
            r.cwd == self.parsed.cwd,
            r.model == self.parsed.model,
            r.channel == self.meta.channel,
            r.message_count == Some(self.parsed.messages@.len() as i64),
            r.file_mtime == match self.meta.file_mtime {
                Some(t) => Some(t as i64),
                None => None,
            },
            r.file_size == match self.meta.file_size {
                Some(s) => Some(s as i64),
                None => None,
            },
            r.file_offset is None,
            r.file_inode is None,
            r.meta is None,
            r.session_type is None,
            r.source is None,
    {
        SessionInput {
            session_id: self.meta.id.clone(),
            project_id: self.project_id,
            cwd: copy_opt(&self.parsed.cwd),
            model: copy_opt(&self.parsed.model),
            channel: copy_opt(&self.meta.channel),
            message_count: Some(self.parsed.messages.len() as i64),
            file_mtime: match self.meta.file_mtime {
                Some(t) => Some(t as i64),
                None => None,
            },
            file_size: match self.meta.file_size {
                Some(s) => Some(s as i64),
                None => None,
            },
            file_offset: None,
            file_inode: None,
            meta: None,
            session_type: None,
            source: None,
        }
    }

    /// Goes on with the session written; a failure is recorded and ends the session.
    pub fn written(self, reply: Result<(), String>, result: &mut CollectResult) -> (r: Option<
        WrittenSession,
    >)
        ensures
            match reply {
                Ok(_) => {
                    &&& r == Some(WrittenSession { meta: self.meta, parsed: self.parsed })
                    &&& *final(result) == *old(result)
                },
                Err(why) => r is None && final(result).adds_error(
                    *old(result),
                    "Failed to create session: "@ + why@,
                ),
            },
    {
        match reply {
            Ok(()) => Some(WrittenSession { meta: self.meta, parsed: self.parsed }),
            Err(why) => {
                result.note_error("Failed to create session: ", why.as_str());
                None
            },
        }
    }
}

/// A listed session that stands in the store.
#[derive(Debug, Clone)]
pub struct WrittenSession {
    pub meta: SessionMeta,
    pub parsed: ParseResult,
}

impl WrittenSession {
    /// The messages of the session that are younger than half an hour before the newest one of
    /// the store, each numbered by its place in the session behind the greatest number there.
    /// With none the session ends here.
    pub fn messages(
        self,
        latest: Option<i64>,
        max_sequence: Option<i64>,
        now: i64,
    ) -> (r: Option<SessionBatch>)
        requires
            cutoff_of(latest) >= i64::MIN,
            self.parsed.messages@.len() <= i64::MAX,
            next_sequence(max_sequence) + self.parsed.messages@.len() <= i64::MAX,
        ensures
            match r {
                Some(b) => {
                    &&& b.session_id == self.meta.id
                    &&& b.messages@.len() > 0
                    &&& is_batch_of(
                        b.messages@,
                        self.parsed.messages@,
                        Some(cutoff_of(latest) as i64),
                        now,
                        next_sequence(max_sequence),
                    )
                },
                None => new_places(
                    self.parsed.messages@,
                    Some(cutoff_of(latest) as i64),
                    now,
                ).len() == 0,
            },
            forall|i: int|
                #![trigger self.parsed.messages@[i]]
                0 <= i < self.parsed.messages@.len() ==> {
                    let m = self.parsed.messages@[i];
                    let t = message_time(m, now);
                    let number = i + match max_sequence {
                        Some(greatest) => greatest + 1,
                        None => 0,
                    };
                    let young = match latest {
                        Some(newest) => t > newest - 1_800_000,
                        None => t > 0,
                    };
                    young <==> r is Some && holds_message(r->0.messages@, m.uuid@, number, t as int)
                },
    {
        let cutoff: i64 = match latest {
            Some(ts) => ts - BUFFER_MS,
            None => 0,
        };
        let start = start_sequence(max_sequence);
        let messages = new_messages(&self.parsed.messages, Some(cutoff), now, start);
        proof {
            session_is_collected_since(
                messages@,
                self.parsed.messages@,
                latest,
                max_sequence,
                now,
            );
        }
        if messages.len() == 0 {
            None
        } else {
            Some(SessionBatch { session_id: self.meta.id, messages })
        }
    }
}

/// The new messages of a listed session, ready to be written.
#[derive(Debug, Clone)]
pub struct SessionBatch {
    pub session_id: String,
    pub messages: Vec<MessageInput>,
}

impl SessionBatch {
    /// Records what the store says it inserted. A session of which nothing was new is not counted.
    pub fn inserted(
        self,
        reply: Result<(usize, Vec<i64>), String>,
        result: &mut CollectResult,
    )
        requires
            reply matches Ok((n, _)) ==> old(result).sessions_scanned < usize::MAX && old(
                result,
            ).messages_inserted + n <= usize::MAX,
        ensures
            match reply {
                Ok((n, ids)) => if n > 0 {
                    &&& final(result).projects_scanned == old(result).projects_scanned
                    &&& final(result).sessions_scanned == old(result).sessions_scanned + 1
                    &&& final(result).messages_inserted == old(result).messages_inserted + n
                    &&& final(result).new_message_ids@ == old(result).new_message_ids@ + ids@
                    &&& final(result).errors == old(result).errors
                } else {
                    *final(result) == *old(result)
                },
                Err(why) => final(result).adds_error(
                    *old(result),
                    "Failed to insert messages: "@ + why@,
                ),
            },
    {
        match reply {
            Ok((n, ids)) => {
                if n > 0 {
                    result.sessions_scanned = result.sessions_scanned + 1;
                    result.messages_inserted = result.messages_inserted + n;
                    let mut more = ids;
                    result.new_message_ids.append(&mut more);
                }
            },
            Err(why) => {
                result.note_error("Failed to insert messages: ", why.as_str());
            },
        }
    }
}

pub(crate) proof fn lemma_places_ascend(messages: Seq<ParsedMessage>, cutoff: Option<i64>, now: i64)
    ensures
        forall|k: int|
            0 <= k < new_places(messages, cutoff, now).len() ==> 0 <= #[trigger] new_places(
                messages,
                cutoff,
                now,
            )[k] < messages.len(),
        forall|j: int, k: int|
            0 <= j < k < new_places(messages, cutoff, now).len() ==> #[trigger] new_places(
                messages,
                cutoff,
                now,
            )[j] < #[trigger] new_places(messages, cutoff, now)[k],
    decreases messages.len(),
{
    if messages.len() > 0 {
        let p = new_places(messages.drop_last(), cutoff, now);
        let q = new_places(messages, cutoff, now);
        lemma_places_ascend(messages.drop_last(), cutoff, now);
        assert forall|k: int| 0 <= k < q.len() implies 0 <= #[trigger] q[k] < messages.len() by {
            if k < p.len() {
                assert(q[k] == p[k]);
            }
        }
        assert forall|j: int, k: int| 0 <= j < k < q.len() implies #[trigger] q[j]
            < #[trigger] q[k] by {
            assert(q[j] == p[j]);
            if k < p.len() {
                assert(q[k] == p[k]);
            }
        }
    }
}

/// The numbers of the messages that one collection writes ascend, and all of them are greater
/// than the greatest number that the store held before.
pub proof fn collected_sequences_ascend(
    batch: Seq<MessageInput>,
    messages: Seq<ParsedMessage>,
    cutoff: Option<i64>,
    now: i64,
    max_sequence: Option<i64>,
)
    requires
        is_batch_of(batch, messages, cutoff, now, next_sequence(max_sequence)),
    ensures
        forall|j: int, k: int|
            0 <= j < k < batch.len() ==> (#[trigger] batch[j]).sequence < (
            #[trigger] batch[k]).sequence,
        forall|k: int|
            0 <= k < batch.len() && max_sequence is Some ==> (#[trigger] batch[k]).sequence
                > max_sequence->0,
        forall|k: int| 0 <= k < batch.len() ==> (#[trigger] batch[k]).sequence >= next_sequence(
            max_sequence,
        ),
{
    lemma_places_ascend(messages, cutoff, now);
}

pub(crate) proof fn lemma_new_place_kept(messages: Seq<ParsedMessage>, cutoff: Option<i64>, now: i64, i: int)
    requires
        0 <= i < messages.len(),
    ensures
        new_places(messages, cutoff, now).contains(i) == is_new(messages[i], cutoff, now),
    decreases messages.len(),
{
    let p = new_places(messages.drop_last(), cutoff, now);
    let q = new_places(messages, cutoff, now);
    lemma_places_ascend(messages.drop_last(), cutoff, now);
    if i == messages.len() - 1 {
        if is_new(messages[i], cutoff, now) {
            assert(q[q.len() - 1] == i);
        }
    } else {
        lemma_new_place_kept(messages.drop_last(), cutoff, now, i);
        if p.contains(i) {
            let k = choose|k: int| 0 <= k < p.len() && p[k] == i;
            assert(q[k] == i);
        }
        if q.contains(i) {
            let k = choose|k: int| 0 <= k < q.len() && q[k] == i;
            assert(p[k] == i);
        }
    }
}

/// No message that counts as new is left out of what a collection writes, and nothing else is
/// written.
pub proof fn every_new_message_is_collected(
    batch: Seq<MessageInput>,
    messages: Seq<ParsedMessage>,
    cutoff: Option<i64>,
    now: i64,
    start: int,
)
    requires
        is_batch_of(batch, messages, cutoff, now, start),
    ensures
        forall|i: int|
            0 <= i < messages.len() ==> (is_new(#[trigger] messages[i], cutoff, now) <==> exists|
                k: int,
            |
                0 <= k < batch.len() && (#[trigger] batch[k]).sequence == start + i),
{
    let places = new_places(messages, cutoff, now);
    assert forall|i: int| 0 <= i < messages.len() implies (is_new(
        #[trigger] messages[i],
        cutoff,
        now,
    ) <==> exists|k: int|
        0 <= k < batch.len() && (#[trigger] batch[k]).sequence == start + i) by {
        lemma_new_place_kept(messages, cutoff, now, i);
        if is_new(messages[i], cutoff, now) {
            let k = choose|k: int| 0 <= k < places.len() && places[k] == i;
            assert(batch[k].sequence == start + i);
        }
        if exists|k: int| 0 <= k < batch.len() && (#[trigger] batch[k]).sequence == start + i {
            let k = choose|k: int|
                0 <= k < batch.len() && (#[trigger] batch[k]).sequence == start + i;
            assert(places[k] == i);
            assert(places.contains(i));
        }
    }
}

/// Whether one of the messages has the uuid and counts as new.
pub open spec fn has_new(
    messages: Seq<ParsedMessage>,
    uuid: Seq<char>,
    cutoff: Option<i64>,
    now: i64,
) -> bool {
    exists|j: int|
        0 <= j < messages.len() && (#[trigger] messages[j]).uuid@ == uuid && is_new(
            messages[j],
            cutoff,
            now,
        )
}

proof fn lemma_batch_repeats_uuids(
    first: Seq<MessageInput>,
    second: Seq<MessageInput>,
    messages: Seq<ParsedMessage>,
    again: Seq<ParsedMessage>,
    cutoffs: (Option<i64>, Option<i64>),
    times: (i64, i64),
    starts: (int, int),
)
    requires
        is_batch_of(first, messages, cutoffs.0, times.0, starts.0),
        is_batch_of(second, again, cutoffs.1, times.1, starts.1),
        forall|i: int|
            0 <= i < again.len() && is_new(#[trigger] again[i], cutoffs.1, times.1) ==> has_new(
                messages,
                again[i].uuid@,
                cutoffs.0,
                times.0,
            ),
    ensures
        forall|k: int| 0 <= k < second.len() ==> has_uuid(first, (#[trigger] second[k]).uuid@),
{
    let places = new_places(messages, cutoffs.0, times.0);
    let others = new_places(again, cutoffs.1, times.1);
    lemma_places_ascend(messages, cutoffs.0, times.0);
    lemma_places_ascend(again, cutoffs.1, times.1);
    assert forall|k: int| 0 <= k < second.len() implies has_uuid(
        first,
        (#[trigger] second[k]).uuid@,
    ) by {
        let i = others[k];
        lemma_new_place_kept(again, cutoffs.1, times.1, i);
        assert(others.contains(i));
        assert(has_new(messages, again[i].uuid@, cutoffs.0, times.0));
        let j = choose|j: int|
            0 <= j < messages.len() && (#[trigger] messages[j]).uuid@ == again[i].uuid@ && is_new(
                messages[j],
                cutoffs.0,
                times.0,
            );
        lemma_new_place_kept(messages, cutoffs.0, times.0, j);
        let l = choose|l: int| 0 <= l < places.len() && places[l] == j;
        assert(first[l].uuid@ == second[k].uuid@);
    }
}

/// Collecting a file a second time that says nothing it did not say before writes no message: all
/// that the second collection would write, the first has left in the store.
pub proof fn second_file_collection_writes_nothing(
    present: Seq<Seq<char>>,
    first: FileBatch,
    second: FileBatch,
    messages: Seq<ParsedMessage>,
    again: Seq<ParsedMessage>,
    times: (i64, i64),
    starts: (int, int),
)
    requires
        is_batch_of(first.messages@, messages, None, times.0, starts.0),
        is_batch_of(second.messages@, again, None, times.1, starts.1),
        forall|i: int|
            0 <= i < again.len() ==> has_new(
                messages,
                (#[trigger] again[i]).uuid@,
                None,
                times.0,
            ),
    ensures
        inserted_places(
            present + inserted_uuids(present, first.messages@, first.messages@.len() as int),
            second.messages@,
            second.messages@.len() as int,
        ).len() == 0,
{
    lemma_batch_repeats_uuids(
        first.messages@,
        second.messages@,
        messages,
        again,
        (None, None),
        times,
        starts,
    );
    repeated_uuids_write_nothing(present, first.messages@, second.messages@);
}

/// Collecting a session a second time, whose messages are the same and whose newest message in the
/// store is no older than before, writes no message. A message that does not tell its time has the
/// time of the collection, and that is behind what counts as known.
pub proof fn second_session_collection_writes_nothing(
    present: Seq<Seq<char>>,
    first: SessionBatch,
    second: SessionBatch,
    messages: Seq<ParsedMessage>,
    latest: (Option<i64>, Option<i64>),
    times: (i64, i64),
    starts: (int, int),
)
    requires
        i64::MIN <= cutoff_of(latest.0) <= cutoff_of(latest.1) <= i64::MAX,
        cutoff_of(latest.0) < times.0,
        is_batch_of(first.messages@, messages, Some(cutoff_of(latest.0) as i64), times.0, starts.0),
        is_batch_of(second.messages@, messages, Some(cutoff_of(latest.1) as i64), times.1, starts.1),
    ensures
        inserted_places(
            present + inserted_uuids(present, first.messages@, first.messages@.len() as int),
            second.messages@,
            second.messages@.len() as int,
        ).len() == 0,
{
    let cutoffs = (Some(cutoff_of(latest.0) as i64), Some(cutoff_of(latest.1) as i64));
    assert forall|i: int|
        0 <= i < messages.len() && is_new(
            #[trigger] messages[i],
            cutoffs.1,
            times.1,
        ) implies has_new(messages, messages[i].uuid@, cutoffs.0, times.0) by {
        assert(is_new(messages[i], cutoffs.0, times.0));
    }
    lemma_batch_repeats_uuids(
        first.messages@,
        second.messages@,
        messages,
        messages,
        cutoffs,
        times,
        starts,
    );
    repeated_uuids_write_nothing(present, first.messages@, second.messages@);
}

/// A session whose file has the modification time that the store last saw is not even read.
pub proof fn unchanged_session_is_skipped(
    meta: SessionMeta,
    input: SessionInput,
    row: Option<SessionRow>,
    then: i64,
)
    requires
        meta.file_mtime is Some,
        input.file_mtime == Some(meta.file_mtime->0 as i64),
    ensures
        is_skipped(meta, session_written(row, input, then).file_mtime),
{
    let t = meta.file_mtime->0;
    assert((t as i64) as u64 == t) by (bit_vector);
}

} // verus!

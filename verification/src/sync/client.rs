//! One round of pushing: which messages of a session go next, what is held back of
//! them, and how far the session is pushed afterwards.
use vstd::prelude::*;
use crate::host::{expand_tilde, expands};
use crate::sql::{text, value_views, SqlValue, SqlView, Statement};
use crate::sync::filter::{
    batch_is_blocked,
    batch_is_redacted,
    batch_is_scoped,
    FilterConfig,
    FilterMode,
    ProjectFilter,
    SensitiveWordFilter,
};
use crate::sync::{
    SyncBatch,
    SyncChainNode,
    SyncContinuationChain,
    SyncCursor,
    SyncMessage,
    SyncProject,
    SyncSession,
    SyncSessionRelation,
    SyncTalk,
};
use crate::text::{chars_of, opt_view, same_text, string_of_range};

verus! {

/// What a round of pushing has done.
#[derive(Debug, Clone, Copy, PartialEq, Eq, Structural)]
pub struct SyncStats {
    pub sessions_synced: u64,
    pub sessions_failed: u64,
    pub messages_pushed: u64,
    pub messages_skipped: u64,
}

/// What the pushing of one session has done.
#[derive(Debug, Clone, Copy, PartialEq, Eq, Structural)]
pub struct BatchStats {
    pub messages_pushed: u64,
    pub messages_skipped: u64,
}

impl Default for SyncStats {
    fn default() -> (r: SyncStats)
        ensures
            r == (SyncStats {
                sessions_synced: 0,
                sessions_failed: 0,
                messages_pushed: 0,
                messages_skipped: 0,
            }),
    {
        SyncStats { sessions_synced: 0, sessions_failed: 0, messages_pushed: 0, messages_skipped: 0 }
    }
}

impl SyncStats {
    /// The totals once one more session has been pushed, or has failed.
    pub open spec fn plus(self, outcome: Option<BatchStats>) -> SyncStats {
        match outcome {
            Some(b) => SyncStats {
                sessions_synced: (self.sessions_synced + 1) as u64,
                sessions_failed: self.sessions_failed,
                messages_pushed: (self.messages_pushed + b.messages_pushed) as u64,
                messages_skipped: (self.messages_skipped + b.messages_skipped) as u64,
            },
            None => SyncStats { sessions_failed: (self.sessions_failed + 1) as u64, ..self },
        }
    }

    /// Counts one more session, which has been pushed, or has failed. A session that fails does
    /// not keep the others from being pushed.
    pub fn record(&mut self, outcome: Option<BatchStats>)
        requires
            old(self).sessions_synced < u64::MAX,
            old(self).sessions_failed < u64::MAX,
            outcome is Some ==> old(self).messages_pushed + outcome->0.messages_pushed <= u64::MAX,
            outcome is Some ==> old(self).messages_skipped + outcome->0.messages_skipped
                <= u64::MAX,
        ensures
            *final(self) == old(self).plus(outcome),
    {
        match outcome {
            Some(b) => {
                self.sessions_synced = self.sessions_synced + 1;
                self.messages_pushed = self.messages_pushed + b.messages_pushed;
                self.messages_skipped = self.messages_skipped + b.messages_skipped;
            },
            None => {
                self.sessions_failed = self.sessions_failed + 1;
            },
        }
    }
}

/// The greatest number of the messages.
pub open spec fn greatest_sequence(messages: Seq<SyncMessage>) -> int
    recommends
        messages.len() > 0,
    decreases messages.len(),
{
    if messages.len() <= 1 {
        messages[0].sequence as int
    } else {
        let p = greatest_sequence(messages.drop_last());
        if messages.last().sequence > p {
            messages.last().sequence as int
        } else {
            p
        }
    }
}

fn max_sequence(messages: &Vec<SyncMessage>) -> (r: i64)
    requires
        messages@.len() > 0,
    ensures
        r == greatest_sequence(messages@),
{
    let mut r: i64 = messages[0].sequence;
    let mut i: usize = 1;
    assert(messages@.take(1)[0] == messages@[0]);
    while i < messages.len()
        invariant
            1 <= i <= messages@.len(),
            r == greatest_sequence(messages@.take(i as int)),
        decreases messages@.len() - i,
    {
        assert(messages@.take(i + 1).drop_last() =~= messages@.take(i as int));
        if messages[i].sequence > r {
            r = messages[i].sequence;
        }
        i += 1;
    }
    assert(messages@.take(messages@.len() as int) =~= messages@);
    r
}

/// Every message of a batch is covered by the number that the session is pushed to after it.
pub proof fn greatest_sequence_covers(messages: Seq<SyncMessage>)
    requires
        messages.len() > 0,
    ensures
        forall|i: int|
            0 <= i < messages.len() ==> (#[trigger] messages[i]).sequence <= greatest_sequence(
                messages,
            ),
        exists|i: int|
            0 <= i < messages.len() && (#[trigger] messages[i]).sequence == greatest_sequence(
                messages,
            ),
    decreases messages.len(),
{
    if messages.len() == 1 {
        assert(messages[0].sequence == greatest_sequence(messages));
    } else {
        let d = messages.drop_last();
        greatest_sequence_covers(d);
        assert forall|i: int| 0 <= i < messages.len() implies (#[trigger] messages[i]).sequence
            <= greatest_sequence(messages) by {
            if i < d.len() {
                assert(d[i] == messages[i]);
            }
        }
        let k = choose|k: int|
            0 <= k < d.len() && (#[trigger] d[k]).sequence == greatest_sequence(d);
        assert(messages[k] == d[k]);
        assert(messages[messages.len() - 1] == messages.last());
    }
}

/// Whether `r` is what is pushed of the batch `b`: what belongs to projects that are pushed, with
/// sensitive words dealt with.
pub open spec fn is_filtered(
    projects: ProjectFilter,
    words: Option<&SensitiveWordFilter>,
    r: SyncBatch,
    b: SyncBatch,
) -> bool {
    match words {
        None => batch_is_scoped(projects, r, b),
        Some(w) => exists|scoped: SyncBatch|
            {
                &&& #[trigger] batch_is_scoped(projects, scoped, b)
                &&& match w.filter_mode() {
                    FilterMode::Redact => batch_is_redacted(w.words(), r, scoped),
                    FilterMode::Block => batch_is_blocked(w.words(), r, scoped),
                    FilterMode::Tag => r == scoped,
                }
            },
    }
}

/// The pushing of one session: how far it has come.
#[derive(Debug, Clone, Copy, PartialEq, Eq, Structural)]
pub struct SessionSync {
    /// The number up to which messages have been dealt with.
    pub cursor: i64,
    pub messages_pushed: u64,
    pub messages_skipped: u64,
    pub batch_size: usize,
}

/// What comes next in the pushing of a session.
pub enum SyncStep {
    /// There is nothing more to push.
    Done(BatchStats),
    /// All that was collected is held back: the cursor is stored, and collecting goes on behind it.
    Skip(SessionSync),
    /// The batch is pushed.
    Push(PendingPush),
}

/// A batch that is being pushed.
pub struct PendingPush {
    pub state: SessionSync,
    pub batch: SyncBatch,
    /// The number up to which messages will have been dealt with.
    pub next_cursor: i64,
}

impl SessionSync {
    /// Starts where the last push of the session ended.
    pub fn start(last_sequence: i64, batch_size: usize) -> (r: SessionSync)
        ensures
            r == (SessionSync {
                cursor: last_sequence,
                messages_pushed: 0,
                messages_skipped: 0,
                batch_size,
            }),
    {
        SessionSync { cursor: last_sequence, messages_pushed: 0, messages_skipped: 0, batch_size }
    }

    /// What comes next once the messages behind the cursor have been collected.
    pub fn collected(
        self,
        batch: SyncBatch,
        projects: &ProjectFilter,
        words: Option<&SensitiveWordFilter>,
    ) -> (r: SyncStep)
        requires
            projects.wf(),
            words is Some ==> words->0.wf(),
        ensures
            match r {
                SyncStep::Done(stats) => {
                    &&& batch.messages@.len() == 0
                    &&& stats.messages_pushed == self.messages_pushed
                    &&& stats.messages_skipped == self.messages_skipped
                },
                SyncStep::Skip(next) => {
                    &&& batch.messages@.len() > 0
                    &&& next == (SessionSync {
                        cursor: greatest_sequence(batch.messages@) as i64,
                        ..self
                    })
                    &&& exists|filtered: SyncBatch| #[trigger]
                        is_filtered(*projects, words, filtered, batch)
                            && filtered.messages@.len() == 0
                },
                SyncStep::Push(p) => {
                    &&& batch.messages@.len() > 0
                    &&& p.state == self
                    &&& p.next_cursor == greatest_sequence(batch.messages@)
                    &&& is_filtered(*projects, words, p.batch, batch)
                    &&& p.batch.messages@.len() > 0
                },
            },
    {
        if batch.messages.len() == 0 {
            return SyncStep::Done(
                BatchStats {
                    messages_pushed: self.messages_pushed,
                    messages_skipped: self.messages_skipped,
                },
            );
        }
        let next_cursor = max_sequence(&batch.messages);
        let ghost before = batch;
        let mut batch = batch;
        projects.filter_batch(&mut batch);
        let ghost scoped = batch;
        match words {
            Some(w) => {
                w.filter_batch(&mut batch);
            },
            None => {},
        }
        assert(is_filtered(*projects, words, batch, before)) by {
            assert(batch_is_scoped(*projects, scoped, before));
        }
        if batch.messages.len() == 0 {
            SyncStep::Skip(
                SessionSync {
                    cursor: next_cursor,
                    messages_pushed: self.messages_pushed,
                    messages_skipped: self.messages_skipped,
                    batch_size: self.batch_size,
                },
            )
        } else {
            SyncStep::Push(PendingPush { state: self, batch, next_cursor })
        }
    }
}

/// The key that the server knows the device by: the one configured, or else the one kept.
pub fn effective_api_key(configured: &str, kept: Option<String>) -> (r: Option<String>)
    ensures
        opt_view(r) == if configured@.len() > 0 {
            Some(configured@)
        } else {
            opt_view(kept)
        },
{
    if configured.is_empty() {
        kept
    } else {
        Some(configured.to_owned())
    }
}

/// Whether a round of pushing ends once a session was pushed or has failed: over a stream it ends
/// with the first failure, and by single requests it goes on.
pub fn ends_round(failed: bool, over_stream: bool) -> (r: bool)
    ensures
        r == (failed && over_stream),
{
    failed && over_stream
}

impl PendingPush {
    /// The state once the server has taken the batch, and whether the session is done: it is
    /// where fewer messages were pushed than a batch can hold. The cursor is stored either way.
    pub fn pushed(self, accepted: u64, skipped: u64) -> (r: (SessionSync, bool))
        requires
            self.state.messages_pushed + accepted <= u64::MAX,
            self.state.messages_skipped + skipped <= u64::MAX,
        ensures
            r.0 == (SessionSync {
                cursor: self.next_cursor,
                messages_pushed: (self.state.messages_pushed + accepted) as u64,
                messages_skipped: (self.state.messages_skipped + skipped) as u64,
                batch_size: self.state.batch_size,
            }),
            r.1 == (self.batch.messages@.len() < self.state.batch_size),
    {
        let done = self.batch.messages.len() < self.state.batch_size;
        (
            SessionSync {
                cursor: self.next_cursor,
                messages_pushed: self.state.messages_pushed + accepted,
                messages_skipped: self.state.messages_skipped + skipped,
                batch_size: self.state.batch_size,
            },
            done,
        )
    }
}

/// The cursor of a session moves forward with every batch, and no message that was collected
/// before it is collected again: a batch is made of messages behind the cursor.
pub proof fn cursor_moves_forward(before: SessionSync, messages: Seq<SyncMessage>)
    requires
        messages.len() > 0,
        forall|i: int| 0 <= i < messages.len() ==> (#[trigger] messages[i]).sequence > before.cursor,
    ensures
        greatest_sequence(messages) > before.cursor,
        forall|i: int|
            0 <= i < messages.len() ==> (#[trigger] messages[i]).sequence <= greatest_sequence(
                messages,
            ),
{
    greatest_sequence_covers(messages);
}

/// How far a session is pushed with the messages: up to the greatest number of its messages, at
/// the time of the first that has it.
pub open spec fn cursor_of(messages: Seq<SyncMessage>, session_id: Seq<char>) -> Option<SyncCursor>
    decreases messages.len(),
{
    if messages.len() == 0 {
        None
    } else {
        let p = cursor_of(messages.drop_last(), session_id);
        let m = messages.last();
        if m.session_id@ != session_id {
            p
        } else {
            let c = match p {
                Some(c) => c,
                None => SyncCursor { last_sequence: 0, last_timestamp: 0 },
            };
            if m.sequence > c.last_sequence {
                Some(SyncCursor { last_sequence: m.sequence, last_timestamp: m.timestamp })
            } else {
                Some(c)
            }
        }
    }
}

/// The value of a key among pairs.
pub open spec fn entry_of(pairs: Seq<(String, SyncCursor)>, key: Seq<char>) -> Option<SyncCursor>
    decreases pairs.len(),
{
    if pairs.len() == 0 {
        None
    } else if pairs.last().0@ == key {
        Some(pairs.last().1)
    } else {
        entry_of(pairs.drop_last(), key)
    }
}

/// Whether no key stands in two pairs.
pub open spec fn keys_differ(pairs: Seq<(String, SyncCursor)>) -> bool {
    forall|i: int, j: int|
        #![trigger pairs[i], pairs[j]]
        0 <= i < j < pairs.len() ==> pairs[i].0@ != pairs[j].0@
}

proof fn lemma_entry_at(pairs: Seq<(String, SyncCursor)>, i: int)
    requires
        0 <= i < pairs.len(),
        keys_differ(pairs),
    ensures
        entry_of(pairs, pairs[i].0@) == Some(pairs[i].1),
    decreases pairs.len(),
{
    if i < pairs.len() - 1 {
        assert(pairs[i].0@ != pairs[pairs.len() - 1].0@);
        lemma_entry_at(pairs.drop_last(), i);
    }
}

proof fn lemma_entry_absent(pairs: Seq<(String, SyncCursor)>, key: Seq<char>)
    requires
        forall|i: int| 0 <= i < pairs.len() ==> (#[trigger] pairs[i]).0@ != key,
    ensures
        entry_of(pairs, key) is None,
    decreases pairs.len(),
{
    if pairs.len() > 0 {
        assert(pairs[pairs.len() - 1].0@ != key);
        lemma_entry_absent(pairs.drop_last(), key);
    }
}

proof fn lemma_entry_updated(pairs: Seq<(String, SyncCursor)>, i: int, c: SyncCursor, key: Seq<char>)
    requires
        0 <= i < pairs.len(),
        keys_differ(pairs),
    ensures
        keys_differ(pairs.update(i, (pairs[i].0, c))),
        entry_of(pairs.update(i, (pairs[i].0, c)), key) == if key == pairs[i].0@ {
            Some(c)
        } else {
            entry_of(pairs, key)
        },
    decreases pairs.len(),
{
    let after = pairs.update(i, (pairs[i].0, c));
    assert(keys_differ(after)) by {
        assert forall|a: int, b: int|
            #![trigger after[a], after[b]]
            0 <= a < b < after.len() implies after[a].0@ != after[b].0@ by {
            assert(after[a].0 == pairs[a].0);
            assert(after[b].0 == pairs[b].0);
            assert(pairs[a].0@ != pairs[b].0@);
        }
    }
    if i == pairs.len() - 1 {
        assert(after.drop_last() =~= pairs.drop_last());
    } else {
        lemma_entry_updated(pairs.drop_last(), i, c, key);
        assert(after.drop_last() =~= pairs.drop_last().update(i, (pairs[i].0, c)));
        assert(pairs[i].0@ != pairs[pairs.len() - 1].0@);
    }
}

/// How far each session of a batch is pushed with it.
pub fn push_cursors(messages: &Vec<SyncMessage>) -> (r: Vec<(String, SyncCursor)>)
    ensures
        keys_differ(r@),
        forall|key: Seq<char>| #[trigger] entry_of(r@, key) == cursor_of(messages@, key),
{
    let mut r: Vec<(String, SyncCursor)> = Vec::new();
    let mut i: usize = 0;
    assert(messages@.take(0) =~= Seq::<SyncMessage>::empty());
    while i < messages.len()
        invariant
            i <= messages@.len(),
            keys_differ(r@),
            forall|key: Seq<char>| #[trigger]
                entry_of(r@, key) == cursor_of(messages@.take(i as int), key),
        decreases messages@.len() - i,
    {
        let ghost p = messages@.take(i as int);
        let ghost q = messages@.take(i + 1);
        assert(q.drop_last() =~= p);
        let m = &messages[i];
        let ghost before = r@;
        let mut at: usize = 0;
        while at < r.len() && !same_text(r[at].0.as_str(), m.session_id.as_str())
            invariant
                at <= r@.len(),
                r@ == before,
                forall|k: int| 0 <= k < at ==> (#[trigger] before[k]).0@ != m.session_id@,
            decreases r@.len() - at,
        {
            at += 1;
        }
        if at < r.len() {
            proof {
                lemma_entry_at(before, at as int);
            }
            let c = r[at].1;
            if m.sequence > c.last_sequence {
                let id = r[at].0.clone();
                let next = SyncCursor { last_sequence: m.sequence, last_timestamp: m.timestamp };
                r.set(at, (id, next));
                assert(r@ == before.update(at as int, (before[at as int].0, next)));
                assert forall|key: Seq<char>| #[trigger] entry_of(r@, key) == cursor_of(q, key) by {
                    lemma_entry_updated(before, at as int, next, key);
                    assert(entry_of(before, key) == cursor_of(p, key));
                }
                proof {
                    lemma_entry_updated(before, at as int, next, m.session_id@);
                }
            } else {
                assert forall|key: Seq<char>| #[trigger] entry_of(r@, key) == cursor_of(q, key) by {
                    assert(entry_of(before, key) == cursor_of(p, key));
                }
            }
        } else {
            proof {
                lemma_entry_absent(before, m.session_id@);
                assert(entry_of(before, m.session_id@) == cursor_of(p, m.session_id@));
            }
            let c = if m.sequence > 0 {
                SyncCursor { last_sequence: m.sequence, last_timestamp: m.timestamp }
            } else {
                SyncCursor { last_sequence: 0, last_timestamp: 0 }
            };
            r.push((m.session_id.clone(), c));
            assert(r@.drop_last() =~= before);
            assert forall|key: Seq<char>| #[trigger] entry_of(r@, key) == cursor_of(q, key) by {
                assert(entry_of(before, key) == cursor_of(p, key));
            }
            assert(keys_differ(r@)) by {
                assert forall|a: int, b: int|
                    #![trigger r@[a], r@[b]]
                    0 <= a < b < r@.len() implies r@[a].0@ != r@[b].0@ by {
                    assert(r@[a] == before[a]);
                    if b < before.len() {
                        assert(r@[b] == before[b]);
                    }
                }
            }
        }
        i += 1;
    }
    assert(messages@.take(messages@.len() as int) =~= messages@);
    r
}

/// A batch of what was read of a session.
pub fn collect_batch(
    project: Option<SyncProject>,
    session: Option<SyncSession>,
    messages: Vec<SyncMessage>,
    relations: Vec<SyncSessionRelation>,
    chains: Vec<SyncContinuationChain>,
    nodes: Vec<SyncChainNode>,
    talks: Vec<SyncTalk>,
) -> (r: SyncBatch)
    ensures
        r.projects@ == match project {
            Some(p) => seq![p],
            None => seq![],
        },
        r.sessions@ == match session {
            Some(s) => seq![s],
            None => seq![],
        },
        r.messages == messages,
        r.session_relations == relations,
        r.continuation_chains == chains,
        r.chain_nodes == nodes,
        r.talks == talks,
{
    let mut projects: Vec<SyncProject> = Vec::new();
    match project {
        Some(p) => projects.push(p),
        None => {},
    }
    let mut sessions: Vec<SyncSession> = Vec::new();
    match session {
        Some(s) => sessions.push(s),
        None => {},
    }
    SyncBatch {
        projects,
        sessions,
        messages,
        session_relations: relations,
        continuation_chains: chains,
        chain_nodes: nodes,
        talks,
    }
}

/// The sessions whose projects are pushed, of pairs of session ids and project paths.
pub open spec fn pushed_sessions(f: ProjectFilter, all: Seq<(String, String)>) -> Seq<(String, String)>
    decreases all.len(),
{
    if all.len() == 0 {
        seq![]
    } else {
        let p = pushed_sessions(f, all.drop_last());
        if f.passes(all.last().1@) {
            p.push(all.last())
        } else {
            p
        }
    }
}

/// The sessions whose projects are pushed, of pairs of session ids and project paths.
pub fn list_syncable_sessions(f: &ProjectFilter, all: Vec<(String, String)>) -> (r: Vec<
    (String, String),
>)
    requires
        f.wf(),
    ensures
        r@ == pushed_sessions(*f, all@),
{
    let ghost pairs = all@;
    let mut r: Vec<(String, String)> = Vec::new();
    assert(pairs.take(0) =~= Seq::<(String, String)>::empty());
    for x in it: all
        invariant
            f.wf(),
            it.seq() == pairs,
            r@ == pushed_sessions(*f, pairs.take(it.index())),
    {
        assert(pairs.take(it.index() + 1).drop_last() =~= pairs.take(it.index()));
        if f.is_allowed(x.1.as_str()) {
            r.push(x);
        }
    }
    assert(pairs.take(pairs.len() as int) =~= pairs);
    r
}

/// The statement that lists the sessions with messages and the paths of their projects.
pub const SYNCABLE_SESSIONS: &'static str = "
            SELECT s.session_id, p.path
            FROM sessions s
            JOIN projects p ON s.project_id = p.id
            WHERE s.message_count > 0
            ORDER BY s.updated_at DESC
            ";

/// The beginning of the statement that reads messages to push.
pub const SYNC_MESSAGES_SELECT: &'static str = "
            SELECT uuid, session_id, type, content_text, content_full,
                   timestamp, sequence, source, channel, model,
                   tool_call_id, tool_name, tool_args, ";

/// The end of the statement that reads messages to push.
pub const SYNC_MESSAGES_FROM: &'static str = ",
                   approval_status, approval_resolved_at
            FROM messages
            WHERE session_id = ?1 AND sequence > ?2
            ORDER BY sequence ASC
            LIMIT ?3
            ";

/// The statement that reads the next messages of a session behind a number, a batch of them at
/// most, and their raw form only on request.
pub fn read_messages(
    session_id: &str,
    after_sequence: i64,
    sync_raw: bool,
    batch_size: usize,
) -> (r: Statement)
    ensures
        r.sql@ == SYNC_MESSAGES_SELECT@ + (if sync_raw {
            "raw"@
        } else {
            "NULL"@
        }) + SYNC_MESSAGES_FROM@,
        value_views(r.params@) == seq![
            SqlView::Text(session_id@),
            SqlView::Integer(after_sequence),
            SqlView::Integer(batch_size as i64),
        ],
{
    let mut sql = SYNC_MESSAGES_SELECT.to_owned();
    sql.push_str(if sync_raw { "raw" } else { "NULL" });
    sql.push_str(SYNC_MESSAGES_FROM);
    let params: Vec<SqlValue> = vec![
        text(session_id),
        SqlValue::Integer(after_sequence),
        SqlValue::Integer(batch_size as i64),
    ];
    assert(value_views(params@) =~= seq![
        SqlView::Text(session_id@),
        SqlView::Integer(after_sequence),
        SqlView::Integer(batch_size as i64),
    ]);
    Statement { sql, params }
}

/// A text without the slashes at its end.
pub open spec fn without_slashes(s: Seq<char>) -> Seq<char>
    decreases s.len(),
{
    if s.len() > 0 && s.last() == '/' {
        without_slashes(s.drop_last())
    } else {
        s
    }
}

/// `s` without the slashes at its end.
pub fn trim_slashes(s: &str) -> (r: String)
    ensures
        r@ == without_slashes(s@),
{
    let v = chars_of(s);
    let mut to: usize = v.len();
    assert(v@.take(to as int) =~= s@);
    while to > 0 && v[to - 1] == '/'
        invariant
            to <= v@.len(),
            without_slashes(s@) == without_slashes(v@.take(to as int)),
        decreases to,
    {
        assert(v@.take(to as int).drop_last() =~= v@.take(to - 1));
        to -= 1;
    }
    assert(v@.subrange(0, to as int) =~= v@.take(to as int));
    string_of_range(&v, 0, to)
}

/// Where batches are pushed to.
pub fn push_url(server: &str) -> (r: String)
    ensures
        r@ == without_slashes(server@) + "/api/sync/push"@,
{
    let mut r = trim_slashes(server);
    r.push_str("/api/sync/push");
    r
}

/// What a push that the server refused is reported as.
pub fn push_failure(status: &str, body: &str) -> (r: String)
    ensures
        r@ == "push 失败 ("@ + status@ + "): "@ + body@,
{
    let mut r = "push 失败 (".to_owned();
    r.push_str(status);
    r.push_str("): ");
    r.push_str(body);
    r
}

/// The file of the sensitive words that are looked for, where that is asked for and a file is named.
/// Where it is not there, nothing is looked for.
pub fn sensitive_words_path(config: &FilterConfig) -> (r: Option<String>)
    ensures
        match r {
            Some(p) => {
                &&& config.enabled
                &&& config.sensitive_words_file@.len() > 0
                &&& expands(config.sensitive_words_file@, p@)
            },
            None => !config.enabled || config.sensitive_words_file@.len() == 0,
        },
{
    if config.enabled && !config.sensitive_words_file.as_str().is_empty() {
        Some(expand_tilde(config.sensitive_words_file.as_str()))
    } else {
        None
    }
}

/// Reads the project of a path.
pub fn read_project(path: &str) -> (r: Statement)
    ensures
        r.sql@ == "SELECT path, name, source, repo_url FROM projects WHERE path = ?1"@,
        value_views(r.params@) == seq![SqlView::Text(path@)],
{
    let params: Vec<SqlValue> = vec![text(path)];
    assert(value_views(params@) =~= seq![SqlView::Text(path@)]);
    Statement { sql: "SELECT path, name, source, repo_url FROM projects WHERE path = ?1".to_owned(), params }
}

/// Reads a session to push.
pub const SYNC_SESSION: &'static str = "
            SELECT s.session_id, p.path, s.cwd, s.model, s.channel,
                   s.message_count, s.last_message_at,
                   s.session_type, s.source, s.meta,
                   s.created_at, s.updated_at
            FROM sessions s
            JOIN projects p ON s.project_id = p.id
            WHERE s.session_id = ?1
            ";

/// Reads a session.
pub fn read_session(session_id: &str) -> (r: Statement)
    ensures
        r.sql@ == SYNC_SESSION@,
        value_views(r.params@) == seq![SqlView::Text(session_id@)],
{
    let params: Vec<SqlValue> = vec![text(session_id)];
    assert(value_views(params@) =~= seq![SqlView::Text(session_id@)]);
    Statement { sql: SYNC_SESSION.to_owned(), params }
}

/// Reads relations to push.
pub const SYNC_RELATIONS: &'static str = "
            SELECT parent_session_id, child_session_id, relation_type, source
            FROM session_relations
            WHERE parent_session_id = ?1 OR child_session_id = ?1
            ";

/// Reads the relations that a session is part of.
pub fn read_relations(session_id: &str) -> (r: Statement)
    ensures
        r.sql@ == SYNC_RELATIONS@,
        value_views(r.params@) == seq![SqlView::Text(session_id@)],
{
    let params: Vec<SqlValue> = vec![text(session_id)];
    assert(value_views(params@) =~= seq![SqlView::Text(session_id@)]);
    Statement { sql: SYNC_RELATIONS.to_owned(), params }
}

/// Reads talks to push.
pub const SYNC_TALKS: &'static str = "
            SELECT session_id, talk_id, summary_l2, summary_l3
            FROM talks
            WHERE session_id = ?1
            ";

/// Reads the talks of a session.
pub fn read_talks(session_id: &str) -> (r: Statement)
    ensures
        r.sql@ == SYNC_TALKS@,
        value_views(r.params@) == seq![SqlView::Text(session_id@)],
{
    let params: Vec<SqlValue> = vec![text(session_id)];
    assert(value_views(params@) =~= seq![SqlView::Text(session_id@)]);
    Statement { sql: SYNC_TALKS.to_owned(), params }
}

/// Asks for the chain that a session is part of.
pub fn chain_of_session(session_id: &str) -> (r: Statement)
    ensures
        r.sql@ == "SELECT chain_id FROM continuation_chain_nodes WHERE session_id = ?1"@,
        value_views(r.params@) == seq![SqlView::Text(session_id@)],
{
    let params: Vec<SqlValue> = vec![text(session_id)];
    assert(value_views(params@) =~= seq![SqlView::Text(session_id@)]);
    Statement { sql: "SELECT chain_id FROM continuation_chain_nodes WHERE session_id = ?1".to_owned(), params }
}

/// Reads a chain.
pub fn read_chain(chain_id: &str) -> (r: Statement)
    ensures
        r.sql@ == "SELECT chain_id, root_session_id FROM continuation_chains WHERE chain_id = ?1"@,
        value_views(r.params@) == seq![SqlView::Text(chain_id@)],
{
    let params: Vec<SqlValue> = vec![text(chain_id)];
    assert(value_views(params@) =~= seq![SqlView::Text(chain_id@)]);
    Statement { sql: "SELECT chain_id, root_session_id FROM continuation_chains WHERE chain_id = ?1".to_owned(), params }
}

/// Reads the places of sessions in a chain.
pub const SYNC_CHAIN_NODES: &'static str = "
            SELECT session_id, chain_id, prev_session_id, depth
            FROM continuation_chain_nodes
            WHERE chain_id = ?1
            ";

/// Reads the places of the sessions in a chain.
pub fn read_chain_nodes(chain_id: &str) -> (r: Statement)
    ensures
        r.sql@ == SYNC_CHAIN_NODES@,
        value_views(r.params@) == seq![SqlView::Text(chain_id@)],
{
    let params: Vec<SqlValue> = vec![text(chain_id)];
    assert(value_views(params@) =~= seq![SqlView::Text(chain_id@)]);
    Statement { sql: SYNC_CHAIN_NODES.to_owned(), params }
}

} // verus!

//! Writing scanned sessions: which messages of a scan are new, and how parsed
//! messages become rows.
use vstd::prelude::*;
use crate::collector::{is_input_of, message_input, next_sequence, start_sequence};
use crate::db::MessageInput;
use crate::session::ParsedMessage;
use crate::time::{parse_rfc3339, rfc3339_millis};

verus! {

/// How far a scan reaches back behind its checkpoint, in milliseconds.
pub const SAFETY_MARGIN_MS: i64 = 60_000;

/// The time behind the checkpoint that a scan reaches back to, or the earliest time there is.
pub open spec fn scan_cutoff(last: i64) -> int {
    if last - SAFETY_MARGIN_MS < i64::MIN {
        i64::MIN as int
    } else {
        last - SAFETY_MARGIN_MS
    }
}

fn cutoff_before(last: i64) -> (r: i64)
    ensures
        r == scan_cutoff(last),
{
    if last < i64::MIN + SAFETY_MARGIN_MS {
        i64::MIN
    } else {
        last - SAFETY_MARGIN_MS
    }
}

/// Whether a scan that starts at the checkpoint takes a message of the given time.
pub open spec fn is_scanned(checkpoint: Option<i64>, timestamp: i64) -> bool {
    match checkpoint {
        Some(last) => timestamp > scan_cutoff(last),
        None => true,
    }
}

/// The messages that a scan takes, in order.
pub open spec fn scanned(messages: Seq<MessageInput>, checkpoint: Option<i64>) -> Seq<MessageInput>
    decreases messages.len(),
{
    if messages.len() == 0 {
        seq![]
    } else {
        let p = scanned(messages.drop_last(), checkpoint);
        if is_scanned(checkpoint, messages.last().timestamp) {
            p.push(messages.last())
        } else {
            p
        }
    }
}

/// The messages numbered on from `start`.
pub open spec fn renumbered(messages: Seq<MessageInput>, start: int) -> Seq<MessageInput> {
    messages.map(|k: int, m: MessageInput| MessageInput { sequence: (start + k) as i64, ..m })
}

/// What a scan writes, and the checkpoint that it leaves.
#[derive(Debug, Clone)]
pub struct ScanBatch {
    pub messages: Vec<MessageInput>,
    pub checkpoint: i64,
}

/// The part of `messages` that is not older than a minute before the checkpoint, numbered on
/// from the greatest number in the store, and the new checkpoint: the time of its last message.
/// There is nothing to write where that part is empty.
pub fn scan_session_incremental(
    messages: Vec<MessageInput>,
    checkpoint: Option<i64>,
    max_sequence: Option<i64>,
) -> (r: Option<ScanBatch>)
    requires
        messages@.len() <= i64::MAX,
        next_sequence(max_sequence) + messages@.len() <= i64::MAX,
    ensures
        match r {
            Some(b) => {
                let kept = scanned(messages@, checkpoint);
                &&& kept.len() > 0
                &&& b.messages@ == renumbered(kept, next_sequence(max_sequence))
                &&& b.checkpoint == kept.last().timestamp
            },
            None => scanned(messages@, checkpoint).len() == 0,
        },
{
    let ghost all = messages@;
    let start: i64 = start_sequence(max_sequence);
    let mut kept: Vec<MessageInput> = Vec::new();
    let mut last: i64 = 0;
    assert(all.take(0) =~= Seq::<MessageInput>::empty());
    assert(kept@ =~= renumbered(scanned(all.take(0), checkpoint), start as int));
    for m in it: messages
        invariant
            it.seq() == all,
            all.len() <= i64::MAX,
            start + all.len() <= i64::MAX,
            kept@ == renumbered(scanned(all.take(it.index()), checkpoint), start as int),
            kept@.len() <= it.index(),
            kept@.len() > 0 ==> last == scanned(all.take(it.index()), checkpoint).last().timestamp,
    {
        let ghost i = it.index();
        let ghost p = scanned(all.take(i), checkpoint);
        assert(all.take(i + 1).drop_last() =~= all.take(i));
        assert(m == all[i]);
        let take = match checkpoint {
            Some(ts) => m.timestamp > cutoff_before(ts),
            None => true,
        };
        if take {
            let mut row = m;
            last = row.timestamp;
            row.sequence = start + kept.len() as i64;
            kept.push(row);
            assert(kept@ =~= renumbered(p.push(all[i]), start as int));
        }
    }
    assert(all.take(all.len() as int) =~= all);
    if kept.len() == 0 {
        None
    } else {
        Some(ScanBatch { messages: kept, checkpoint: last })
    }
}

/// The time of a message whose timestamp names the instant `rfc3339`.
pub open spec fn instant_or_zero(rfc3339: Option<i64>) -> i64 {
    match rfc3339 {
        Some(ms) => ms,
        None => 0,
    }
}

/// The instant that the timestamp of a message names.
pub open spec fn named_instant(msg: ParsedMessage) -> Option<i64> {
    match msg.timestamp {
        Some(s) => rfc3339_millis(s@),
        None => None,
    }
}

/// `msg` as it is written, given the instant that its timestamp names.
pub fn convert_message_at(msg: &ParsedMessage, rfc3339: Option<i64>, sequence: i64) -> (r:
    MessageInput)
    ensures
        is_input_of(r, *msg, instant_or_zero(rfc3339), sequence as int),
{
    message_input(msg, rfc3339.unwrap_or(0), sequence)
}

/// `msg` as it is written: at the instant that its timestamp names, or at zero where it names none.
pub fn convert_message(msg: &ParsedMessage, sequence: i64) -> (r: MessageInput)
    ensures
        is_input_of(r, *msg, instant_or_zero(named_instant(*msg)), sequence as int),
{
    let rfc3339 = match &msg.timestamp {
        Some(s) => parse_rfc3339(s.as_str()),
        None => None,
    };
    convert_message_at(msg, rfc3339, sequence)
}

/// Whether `r` holds the messages as they are written, in order, numbered from `start`.
pub open spec fn is_conversion(r: Seq<MessageInput>, messages: Seq<ParsedMessage>, start: int) -> bool {
    &&& r.len() == messages.len()
    &&& forall|i: int|
        0 <= i < r.len() ==> is_input_of(
            #[trigger] r[i],
            messages[i],
            instant_or_zero(named_instant(messages[i])),
            start + i,
        )
}

/// The messages as they are written, numbered from zero.
pub fn convert_messages(messages: &Vec<ParsedMessage>) -> (r: Vec<MessageInput>)
    requires
        messages@.len() <= i64::MAX,
    ensures
        is_conversion(r@, messages@, 0),
{
    convert_messages_with_start_sequence(messages, 0)
}

/// The messages as they are written, numbered from `start_sequence`.
pub fn convert_messages_with_start_sequence(
    messages: &Vec<ParsedMessage>,
    start_sequence: i64,
) -> (r: Vec<MessageInput>)
    requires
        start_sequence + messages@.len() <= i64::MAX,
    ensures
        is_conversion(r@, messages@, start_sequence as int),
{
    let mut r: Vec<MessageInput> = Vec::new();
    let mut i: usize = 0;
    while i < messages.len()
        invariant
            i <= messages@.len(),
            start_sequence + messages@.len() <= i64::MAX,
            r@.len() == i,
            forall|k: int|
                0 <= k < i ==> is_input_of(
                    #[trigger] r@[k],
                    messages@[k],
                    instant_or_zero(named_instant(messages@[k])),
                    start_sequence + k,
                ),
        decreases messages@.len() - i,
    {
        let sequence: i64 = (start_sequence as i128 + i as i128) as i64;
        r.push(convert_message(&messages[i], sequence));
        i += 1;
    }
    r
}

/// Messages are numbered on without a gap from where they start, and there is one way to write them:
/// those numbered from zero by default are those numbered from zero when asked.
pub proof fn numbering_is_unique(
    messages: Seq<ParsedMessage>,
    start: int,
    r: Seq<MessageInput>,
    s: Seq<MessageInput>,
)
    requires
        is_conversion(r, messages, start),
        is_conversion(s, messages, start),
    ensures
        r == s,
        forall|i: int| 0 <= i < r.len() ==> (#[trigger] r[i]).sequence == start + i,
{
    assert forall|i: int| 0 <= i < r.len() implies r[i] == s[i] by {
        assert(r[i].source == s[i].source);
    }
    assert(r =~= s);
}

proof fn lemma_scanned_len(messages: Seq<MessageInput>, checkpoint: Option<i64>)
    ensures
        scanned(messages, checkpoint).len() <= messages.len(),
    decreases messages.len(),
{
    if messages.len() > 0 {
        lemma_scanned_len(messages.drop_last(), checkpoint);
    }
}

/// The numbers that a scan gives ascend by one from the first that is free in the store: a
/// scan never numbers from the beginning again.
pub proof fn scan_sequences_ascend(
    messages: Seq<MessageInput>,
    checkpoint: Option<i64>,
    max_sequence: Option<i64>,
)
    requires
        next_sequence(max_sequence) >= i64::MIN,
        next_sequence(max_sequence) + messages.len() <= i64::MAX,
    ensures
        forall|k: int|
            0 <= k < scanned(messages, checkpoint).len() ==> (#[trigger] renumbered(
                scanned(messages, checkpoint),
                next_sequence(max_sequence),
            )[k]).sequence == next_sequence(max_sequence) + k,
{
    lemma_scanned_len(messages, checkpoint);
}

/// Whether `max` is the greatest of the numbers that a session has in the store, where it has any.
pub open spec fn is_greatest(held: Seq<i64>, max: Option<i64>) -> bool {
    match max {
        Some(m) => held.contains(m) && forall|i: int| 0 <= i < held.len() ==> #[trigger] held[i] <= m,
        None => held.len() == 0,
    }
}

/// The numbers of a session only grow: those that a scan gives ascend, and each is greater than all
/// that the session has in the store, whichever of its messages the store then takes.
pub proof fn scan_goes_on(
    held: Seq<i64>,
    max_sequence: Option<i64>,
    messages: Seq<MessageInput>,
    checkpoint: Option<i64>,
)
    requires
        is_greatest(held, max_sequence),
        next_sequence(max_sequence) + messages.len() <= i64::MAX,
    ensures
        ({
            let new = renumbered(scanned(messages, checkpoint), next_sequence(max_sequence));
            &&& forall|j: int, k: int|
                0 <= j < k < new.len() ==> (#[trigger] new[j]).sequence < (#[trigger] new[k]).sequence
            &&& forall|i: int, k: int|
                0 <= i < held.len() && 0 <= k < new.len() ==> #[trigger] held[i] < (
                #[trigger] new[k]).sequence
        }),
{
    lemma_scanned_len(messages, checkpoint);
    let start = next_sequence(max_sequence);
    let new = renumbered(scanned(messages, checkpoint), start);
    assert forall|k: int| 0 <= k < new.len() implies (#[trigger] new[k]).sequence == start + k by {
        assert(i64::MIN <= start + k <= i64::MAX);
    }
}

/// A scan takes a message exactly where it is younger than a minute before the checkpoint.
pub proof fn scan_takes_what_is_young(
    messages: Seq<MessageInput>,
    checkpoint: Option<i64>,
    m: MessageInput,
)
    ensures
        scanned(messages, checkpoint).contains(m) <==> messages.contains(m) && is_scanned(
            checkpoint,
            m.timestamp,
        ),
    decreases messages.len(),
{
    let q = scanned(messages, checkpoint);
    if messages.len() > 0 {
        let d = messages.drop_last();
        let p = scanned(d, checkpoint);
        scan_takes_what_is_young(d, checkpoint, m);
        if q.contains(m) {
            let k = choose|k: int| 0 <= k < q.len() && q[k] == m;
            if k < p.len() {
                assert(p[k] == m);
                let i = choose|i: int| 0 <= i < d.len() && d[i] == m;
                assert(messages[i] == m);
            } else {
                assert(messages[messages.len() - 1] == m);
            }
        }
        if messages.contains(m) && is_scanned(checkpoint, m.timestamp) {
            let i = choose|i: int| 0 <= i < messages.len() && messages[i] == m;
            if i < d.len() {
                assert(d[i] == m);
                let k = choose|k: int| 0 <= k < p.len() && p[k] == m;
                assert(q[k] == m);
            } else {
                assert(q[q.len() - 1] == m);
            }
        }
    }
}

} // verus!

//! What holds of pushing sessions to a server.
use vstd::prelude::*;
use crate::sync::filter::{
    batch_is_blocked, batch_is_redacted, batch_is_scoped, glob_matches, has_word, passes_in,
    path_passes, retained, retained_passes, same_but_case, session_passes_in, words_of_lines,
    FilterMode, ProjectFilter, SensitiveWordFilter,
};
use crate::sync::client::{is_filtered, SessionSync, SyncStep};
use crate::sync::{
    SyncBatch, SyncChainNode, SyncContinuationChain, SyncMessage, SyncProject, SyncSession,
    SyncSessionRelation, SyncTalk,
};

use crate::text::{ascii_lower, begins_with, pieces, trimmed, views};

verus! {

/// Whether one of the projects has the path.
pub open spec fn has_project(projects: Seq<SyncProject>, path: Seq<char>) -> bool {
    exists|i: int| 0 <= i < projects.len() && (#[trigger] projects[i]).path@ == path
}

/// Whether one of the sessions has the id.
pub open spec fn has_session(sessions: Seq<SyncSession>, id: Seq<char>) -> bool {
    exists|i: int| 0 <= i < sessions.len() && (#[trigger] sessions[i]).session_id@ == id
}

/// What is kept of a list is what passes, in the order of the list.
pub proof fn kept_is_filtered<T>(s: Seq<T>, keep: spec_fn(T) -> bool)
    ensures
        retained(s, keep) == s.filter(keep),
    decreases s.len(),
{
    reveal(Seq::filter);
    if s.len() > 0 {
        kept_is_filtered(s.drop_last(), keep);
    }
    assert(retained(s, keep) =~= s.filter(keep));
}

proof fn lemma_all_kept<T>(s: Seq<T>, keep: spec_fn(T) -> bool)
    requires
        forall|i: int| 0 <= i < s.len() ==> keep(#[trigger] s[i]),
    ensures
        retained(s, keep) == s,
    decreases s.len(),
{
    if s.len() > 0 {
        let d = s.drop_last();
        assert forall|i: int| 0 <= i < d.len() implies keep(#[trigger] d[i]) by {
            assert(d[i] == s[i]);
        }
        lemma_all_kept(d, keep);
        assert(keep(s[s.len() - 1]));
    }
    assert(retained(s, keep) =~= s);
}

/// A project passes exactly if no glob that keeps projects back matches its path, and either there
/// is no glob that lets projects through or one of them matches.
pub proof fn globs_decide(allow: Seq<Seq<char>>, deny: Seq<Seq<char>>, path: Seq<char>)
    ensures
        path_passes(allow, deny, path) <==> {
            &&& forall|i: int| 0 <= i < deny.len() ==> !glob_matches(#[trigger] deny[i], path)
            &&& allow.len() == 0 || exists|i: int|
                0 <= i < allow.len() && glob_matches(#[trigger] allow[i], path)
        },
{
}

/// Of a batch the projects that pass are pushed, the sessions of those projects, and what belongs to
/// those sessions; a relation goes with its parent or its child. Nothing else is pushed, and nothing
/// of this is held back.
pub proof fn pushed_batch_hangs_together(f: ProjectFilter, r: SyncBatch, b: SyncBatch)
    requires
        batch_is_scoped(f, r, b),
    ensures
        forall|p: SyncProject| #[trigger]
            r.projects@.contains(p) <==> b.projects@.contains(p) && path_passes(
                f.allow_globs(),
                f.deny_globs(),
                p.path@,
            ),
        forall|s: SyncSession| #[trigger]
            r.sessions@.contains(s) <==> b.sessions@.contains(s) && has_project(
                r.projects@,
                s.project_path@,
            ),
        forall|m: SyncMessage| #[trigger]
            r.messages@.contains(m) <==> b.messages@.contains(m) && has_session(
                r.sessions@,
                m.session_id@,
            ),
        forall|t: SyncTalk| #[trigger]
            r.talks@.contains(t) <==> b.talks@.contains(t) && has_session(
                r.sessions@,
                t.session_id@,
            ),
        forall|x: SyncSessionRelation| #[trigger]
            r.session_relations@.contains(x) <==> b.session_relations@.contains(x) && (has_session(
                r.sessions@,
                x.parent_session_id@,
            ) || has_session(r.sessions@, x.child_session_id@)),
        forall|c: SyncContinuationChain| #[trigger]
            r.continuation_chains@.contains(c) <==> b.continuation_chains@.contains(c)
                && has_session(r.sessions@, c.root_session_id@),
        forall|n: SyncChainNode| #[trigger]
            r.chain_nodes@.contains(n) <==> b.chain_nodes@.contains(n) && has_session(
                r.sessions@,
                n.session_id@,
            ),
{
    let keep_project = |p: SyncProject| passes_in(f, b, p.path@);
    let keep_session = |s: SyncSession| passes_in(f, b, s.project_path@);
    assert forall|p: SyncProject| #[trigger] r.projects@.contains(p) <==> b.projects@.contains(p)
        && path_passes(f.allow_globs(), f.deny_globs(), p.path@) by {
        retained_passes(b.projects@, keep_project, p);
        if b.projects@.contains(p) {
            let i = choose|i: int| 0 <= i < b.projects@.len() && b.projects@[i] == p;
            assert(b.projects@[i].path@ == p.path@);
        }
    }
    assert forall|path: Seq<char>| #[trigger] has_project(r.projects@, path) <==> passes_in(
        f,
        b,
        path,
    ) by {
        if has_project(r.projects@, path) {
            let i = choose|i: int|
                0 <= i < r.projects@.len() && (#[trigger] r.projects@[i]).path@ == path;
            retained_passes(b.projects@, keep_project, r.projects@[i]);
            assert(r.projects@.contains(r.projects@[i]));
        }
        if passes_in(f, b, path) {
            let i = choose|i: int|
                0 <= i < b.projects@.len() && (#[trigger] b.projects@[i]).path@ == path;
            retained_passes(b.projects@, keep_project, b.projects@[i]);
            assert(b.projects@.contains(b.projects@[i]));
            let k = choose|k: int| 0 <= k < r.projects@.len() && r.projects@[k] == b.projects@[i];
            assert(r.projects@[k].path@ == path);
        }
    }
    assert forall|s: SyncSession| #[trigger] r.sessions@.contains(s) <==> b.sessions@.contains(s)
        && has_project(r.projects@, s.project_path@) by {
        retained_passes(b.sessions@, keep_session, s);
    }
    assert forall|id: Seq<char>| #[trigger] has_session(r.sessions@, id) <==> session_passes_in(
        f,
        b,
        id,
    ) by {
        if has_session(r.sessions@, id) {
            let i = choose|i: int|
                0 <= i < r.sessions@.len() && (#[trigger] r.sessions@[i]).session_id@ == id;
            let s = r.sessions@[i];
            retained_passes(b.sessions@, keep_session, s);
            assert(r.sessions@.contains(s));
            let k = choose|k: int| 0 <= k < b.sessions@.len() && b.sessions@[k] == s;
            assert(b.sessions@[k].session_id@ == id);
        }
        if session_passes_in(f, b, id) {
            let i = choose|i: int|
                0 <= i < b.sessions@.len() && (#[trigger] b.sessions@[i]).session_id@ == id
                    && passes_in(f, b, b.sessions@[i].project_path@);
            retained_passes(b.sessions@, keep_session, b.sessions@[i]);
            assert(b.sessions@.contains(b.sessions@[i]));
            let k = choose|k: int| 0 <= k < r.sessions@.len() && r.sessions@[k] == b.sessions@[i];
            assert(r.sessions@[k].session_id@ == id);
        }
    }
    assert forall|m: SyncMessage| #[trigger] r.messages@.contains(m) <==> b.messages@.contains(m)
        && has_session(r.sessions@, m.session_id@) by {
        retained_passes(
            b.messages@,
            |m: SyncMessage| session_passes_in(f, b, m.session_id@),
            m,
        );
    }
    assert forall|t: SyncTalk| #[trigger] r.talks@.contains(t) <==> b.talks@.contains(t)
        && has_session(r.sessions@, t.session_id@) by {
        retained_passes(b.talks@, |t: SyncTalk| session_passes_in(f, b, t.session_id@), t);
    }
    assert forall|x: SyncSessionRelation| #[trigger]
        r.session_relations@.contains(x) <==> b.session_relations@.contains(x) && (has_session(
            r.sessions@,
            x.parent_session_id@,
        ) || has_session(r.sessions@, x.child_session_id@)) by {
        retained_passes(
            b.session_relations@,
            |x: SyncSessionRelation|
                session_passes_in(f, b, x.parent_session_id@) || session_passes_in(
                    f,
                    b,
                    x.child_session_id@,
                ),
            x,
        );
    }
    assert forall|c: SyncContinuationChain| #[trigger]
        r.continuation_chains@.contains(c) <==> b.continuation_chains@.contains(c) && has_session(
            r.sessions@,
            c.root_session_id@,
        ) by {
        retained_passes(
            b.continuation_chains@,
            |c: SyncContinuationChain| session_passes_in(f, b, c.root_session_id@),
            c,
        );
    }
    assert forall|n: SyncChainNode| #[trigger]
        r.chain_nodes@.contains(n) <==> b.chain_nodes@.contains(n) && has_session(
            r.sessions@,
            n.session_id@,
        ) by {
        retained_passes(
            b.chain_nodes@,
            |n: SyncChainNode| session_passes_in(f, b, n.session_id@),
            n,
        );
    }
}

/// A filter without globs leaves a batch as it is that holds the project of each of its sessions, and
/// the session that each of its other parts belongs to.
pub proof fn open_filter_changes_nothing(f: ProjectFilter, r: SyncBatch, b: SyncBatch)
    requires
        batch_is_scoped(f, r, b),
        f.allow_globs().len() == 0,
        f.deny_globs().len() == 0,
        forall|i: int|
            0 <= i < b.sessions@.len() ==> has_project(
                b.projects@,
                (#[trigger] b.sessions@[i]).project_path@,
            ),
        forall|i: int|
            0 <= i < b.messages@.len() ==> has_session(
                b.sessions@,
                (#[trigger] b.messages@[i]).session_id@,
            ),
        forall|i: int|
            0 <= i < b.talks@.len() ==> has_session(
                b.sessions@,
                (#[trigger] b.talks@[i]).session_id@,
            ),
        forall|i: int|
            0 <= i < b.session_relations@.len() ==> {
                ||| has_session(b.sessions@, (#[trigger] b.session_relations@[i]).parent_session_id@)
                ||| has_session(b.sessions@, b.session_relations@[i].child_session_id@)
            },
        forall|i: int|
            0 <= i < b.continuation_chains@.len() ==> has_session(
                b.sessions@,
                (#[trigger] b.continuation_chains@[i]).root_session_id@,
            ),
        forall|i: int|
            0 <= i < b.chain_nodes@.len() ==> has_session(
                b.sessions@,
                (#[trigger] b.chain_nodes@[i]).session_id@,
            ),
    ensures
        r.projects@ == b.projects@,
        r.sessions@ == b.sessions@,
        r.messages@ == b.messages@,
        r.talks@ == b.talks@,
        r.session_relations@ == b.session_relations@,
        r.continuation_chains@ == b.continuation_chains@,
        r.chain_nodes@ == b.chain_nodes@,
{
    assert forall|path: Seq<char>| has_project(b.projects@, path) implies #[trigger] passes_in(
        f,
        b,
        path,
    ) by {
        globs_decide(f.allow_globs(), f.deny_globs(), path);
    }
    assert forall|i: int| 0 <= i < b.projects@.len() implies passes_in(
        f,
        b,
        (#[trigger] b.projects@[i]).path@,
    ) by {
        assert(has_project(b.projects@, b.projects@[i].path@));
    }
    assert forall|id: Seq<char>| has_session(b.sessions@, id) implies #[trigger] session_passes_in(
        f,
        b,
        id,
    ) by {
        let i = choose|i: int|
            0 <= i < b.sessions@.len() && (#[trigger] b.sessions@[i]).session_id@ == id;
        assert(passes_in(f, b, b.sessions@[i].project_path@));
    }
    lemma_all_kept(b.projects@, |p: SyncProject| passes_in(f, b, p.path@));
    lemma_all_kept(b.sessions@, |s: SyncSession| passes_in(f, b, s.project_path@));
    lemma_all_kept(b.messages@, |m: SyncMessage| session_passes_in(f, b, m.session_id@));
    lemma_all_kept(b.talks@, |t: SyncTalk| session_passes_in(f, b, t.session_id@));
    lemma_all_kept(
        b.session_relations@,
        |x: SyncSessionRelation|
            session_passes_in(f, b, x.parent_session_id@) || session_passes_in(
                f,
                b,
                x.child_session_id@,
            ),
    );
    lemma_all_kept(
        b.continuation_chains@,
        |c: SyncContinuationChain| session_passes_in(f, b, c.root_session_id@),
    );
    lemma_all_kept(b.chain_nodes@, |n: SyncChainNode| session_passes_in(f, b, n.session_id@));
}

/// Where sensitive messages are taken out, a message stays exactly if none of the words stands in
/// any of its texts: not in its short or full content, its raw form or the arguments of its tool.
/// All else of the batch but its talks stays as it is.
pub proof fn blocked_message_holds_a_word(
    words: Seq<Seq<char>>,
    r: SyncBatch,
    b: SyncBatch,
    m: SyncMessage,
)
    requires
        batch_is_blocked(words, r, b),
    ensures
        r.messages@.contains(m) <==> b.messages@.contains(m) && forall|i: int|
            0 <= i < words.len() ==> {
                &&& !has_word(m.content_text@, #[trigger] words[i])
                &&& !has_word(m.content_full@, words[i])
                &&& m.raw is Some ==> !has_word(m.raw->0@, words[i])
                &&& m.tool_args is Some ==> !has_word(m.tool_args->0@, words[i])
            },
        r.projects == b.projects,
        r.sessions == b.sessions,
        r.session_relations == b.session_relations,
        r.continuation_chains == b.continuation_chains,
        r.chain_nodes == b.chain_nodes,
{
    retained_passes(
        b.messages@,
        |m: SyncMessage| !crate::sync::filter::message_is_sensitive(m, words),
        m,
    );
    let clean = forall|i: int|
        0 <= i < words.len() ==> {
            &&& !has_word(m.content_text@, #[trigger] words[i])
            &&& !has_word(m.content_full@, words[i])
            &&& m.raw is Some ==> !has_word(m.raw->0@, words[i])
            &&& m.tool_args is Some ==> !has_word(m.tool_args->0@, words[i])
        };
    assert(clean ==> !crate::sync::filter::message_is_sensitive(m, words));
    if !crate::sync::filter::message_is_sensitive(m, words) {
        assert forall|i: int| 0 <= i < words.len() implies {
            &&& !has_word(m.content_text@, #[trigger] words[i])
            &&& !has_word(m.content_full@, words[i])
            &&& m.raw is Some ==> !has_word(m.raw->0@, words[i])
            &&& m.tool_args is Some ==> !has_word(m.tool_args->0@, words[i])
        } by {}
    }
}

/// Where sensitive talks are taken out, a talk stays exactly if none of the words stands in its
/// summaries.
pub proof fn blocked_talk_holds_a_word(words: Seq<Seq<char>>, r: SyncBatch, b: SyncBatch, t: SyncTalk)
    requires
        batch_is_blocked(words, r, b),
    ensures
        r.talks@.contains(t) <==> b.talks@.contains(t) && forall|i: int|
            0 <= i < words.len() ==> {
                &&& !has_word(t.summary_l2@, #[trigger] words[i])
                &&& t.summary_l3 is Some ==> !has_word(t.summary_l3->0@, words[i])
            },
{
    retained_passes(
        b.talks@,
        |t: SyncTalk| !crate::sync::filter::talk_is_sensitive(t, words),
        t,
    );
    if !crate::sync::filter::talk_is_sensitive(t, words) {
        assert forall|i: int| 0 <= i < words.len() implies {
            &&& !has_word(t.summary_l2@, #[trigger] words[i])
            &&& t.summary_l3 is Some ==> !has_word(t.summary_l3->0@, words[i])
        } by {}
    }
}

/// Blotting words out leaves every message and talk in its place, with its identity, its session and
/// its order; and one in which no word stands is left as it is.
pub proof fn redaction_touches_texts_alone(
    words: Seq<Seq<char>>,
    r: SyncBatch,
    b: SyncBatch,
    i: int,
)
    requires
        batch_is_redacted(words, r, b),
        0 <= i < b.messages@.len(),
    ensures
        r.messages@.len() == b.messages@.len(),
        r.talks@.len() == b.talks@.len(),
        r.messages@[i].uuid == b.messages@[i].uuid,
        r.messages@[i].session_id == b.messages@[i].session_id,
        r.messages@[i].sequence == b.messages@[i].sequence,
        r.messages@[i].timestamp == b.messages@[i].timestamp,
        r.messages@[i].raw is Some <==> b.messages@[i].raw is Some,
        r.messages@[i].tool_args is Some <==> b.messages@[i].tool_args is Some,
        (forall|k: int|
            0 <= k < words.len() ==> !has_word(b.messages@[i].content_text@, #[trigger] words[k]))
            ==> r.messages@[i].content_text@ == b.messages@[i].content_text@,
        (forall|k: int|
            0 <= k < words.len() ==> !has_word(b.messages@[i].content_full@, #[trigger] words[k]))
            ==> r.messages@[i].content_full@ == b.messages@[i].content_full@,
        r.projects == b.projects,
        r.sessions == b.sessions,
        r.session_relations == b.session_relations,
        r.continuation_chains == b.continuation_chains,
        r.chain_nodes == b.chain_nodes,
{
}

/// What the filter leaves of a batch: a relation stays with its parent or its child, and whatever names
/// one session stays with that.
pub proof fn filtered_batch_hangs_together(f: &ProjectFilter, batch: &mut SyncBatch, r: ())
    requires
        call_ensures(ProjectFilter::filter_batch, (f, batch), r),
    ensures
        forall|x: SyncSessionRelation| #[trigger]
            final(batch).session_relations@.contains(x) <==> old(
                batch,
            ).session_relations@.contains(x) && (has_session(
                final(batch).sessions@,
                x.parent_session_id@,
            ) || has_session(final(batch).sessions@, x.child_session_id@)),
        forall|s: SyncSession| #[trigger]
            final(batch).sessions@.contains(s) <==> old(batch).sessions@.contains(s)
                && has_project(final(batch).projects@, s.project_path@),
        forall|m: SyncMessage| #[trigger]
            final(batch).messages@.contains(m) <==> old(batch).messages@.contains(m)
                && has_session(final(batch).sessions@, m.session_id@),
        forall|t: SyncTalk| #[trigger]
            final(batch).talks@.contains(t) <==> old(batch).talks@.contains(t) && has_session(
                final(batch).sessions@,
                t.session_id@,
            ),
        forall|c: SyncContinuationChain| #[trigger]
            final(batch).continuation_chains@.contains(c) <==> old(
                batch,
            ).continuation_chains@.contains(c) && has_session(
                final(batch).sessions@,
                c.root_session_id@,
            ),
        forall|n: SyncChainNode| #[trigger]
            final(batch).chain_nodes@.contains(n) <==> old(batch).chain_nodes@.contains(n)
                && has_session(final(batch).sessions@, n.session_id@),
        forall|p: SyncProject| #[trigger]
            final(batch).projects@.contains(p) <==> old(batch).projects@.contains(p)
                && path_passes(f.allow_globs(), f.deny_globs(), p.path@),
{
    pushed_batch_hangs_together(*f, *final(batch), *old(batch));
}

/// A path is let through exactly where no glob keeps it back and, where globs let paths through, one
/// of them does.
pub proof fn path_is_let_through(f: &ProjectFilter, path: &str, r: bool)
    requires
        call_ensures(ProjectFilter::is_allowed, (f, path), r),
    ensures
        r <==> {
            &&& forall|i: int|
                0 <= i < f.deny_globs().len() ==> !glob_matches(
                    #[trigger] f.deny_globs()[i],
                    path@,
                )
            &&& f.allow_globs().len() == 0 || exists|i: int|
                0 <= i < f.allow_globs().len() && glob_matches(#[trigger] f.allow_globs()[i], path@)
        },
{
    globs_decide(f.allow_globs(), f.deny_globs(), path@);
}

/// A text is sensitive exactly where one of the words stands in it, and a message where one stands in
/// any of its texts.
pub proof fn sensitive_is_what_holds_a_word(
    f: &SensitiveWordFilter,
    text: &str,
    m: &SyncMessage,
    a: bool,
    b: bool,
)
    requires
        call_ensures(SensitiveWordFilter::contains_sensitive, (f, text), a),
        call_ensures(SensitiveWordFilter::is_message_sensitive, (f, m), b),
    ensures
        a <==> exists|i: int| 0 <= i < f.words().len() && has_word(text@, #[trigger] f.words()[i]),
        !b <==> forall|i: int|
            0 <= i < f.words().len() ==> {
                &&& !has_word(m.content_text@, #[trigger] f.words()[i])
                &&& !has_word(m.content_full@, f.words()[i])
                &&& m.raw is Some ==> !has_word(m.raw->0@, f.words()[i])
                &&& m.tool_args is Some ==> !has_word(m.tool_args->0@, f.words()[i])
            },
{
}

/// What a filter does to a batch is what its mode says: it takes messages out, blots words out of them,
/// or leaves all as it is; in no mode does it touch projects, sessions, relations or chains.
pub proof fn mode_decides_what_is_done(f: &SensitiveWordFilter, batch: &mut SyncBatch, r: ())
    requires
        call_ensures(SensitiveWordFilter::filter_batch, (f, batch), r),
    ensures
        final(batch).projects == old(batch).projects,
        final(batch).sessions == old(batch).sessions,
        final(batch).session_relations == old(batch).session_relations,
        final(batch).continuation_chains == old(batch).continuation_chains,
        final(batch).chain_nodes == old(batch).chain_nodes,
        f.filter_mode() == FilterMode::Tag ==> *final(batch) == *old(batch),
        f.filter_mode() == FilterMode::Redact ==> final(batch).messages@.len() == old(
            batch,
        ).messages@.len() && final(batch).talks@.len() == old(batch).talks@.len(),
        f.filter_mode() == FilterMode::Block ==> forall|i: int, k: int|
            0 <= i < f.words().len() && 0 <= k < final(batch).messages@.len() ==> !has_word(
                (#[trigger] final(batch).messages@[k]).content_full@,
                #[trigger] f.words()[i],
            ),
{
    if f.filter_mode() == FilterMode::Block {
        assert forall|i: int, k: int|
            0 <= i < f.words().len() && 0 <= k < final(batch).messages@.len() implies !has_word(
            (#[trigger] final(batch).messages@[k]).content_full@,
            #[trigger] f.words()[i],
        ) by {
            blocked_message_holds_a_word(
                f.words(),
                *final(batch),
                *old(batch),
                final(batch).messages@[k],
            );
            assert(final(batch).messages@.contains(final(batch).messages@[k]));
        }
    }
}

/// The words of a list are its lines without the space around them, in order; a line that is blank or
/// begins with a number sign is none.
pub proof fn words_stand_line_by_line(lines: Seq<Seq<char>>, line: Seq<char>)
    ensures
        words_of_lines(Seq::empty()) == Seq::<Seq<char>>::empty(),
        trimmed(line).len() == 0 ==> words_of_lines(lines.push(line)) == words_of_lines(lines),
        begins_with(trimmed(line), "#"@) ==> words_of_lines(lines.push(line)) == words_of_lines(
            lines,
        ),
        trimmed(line).len() > 0 && !begins_with(trimmed(line), "#"@) ==> words_of_lines(
            lines.push(line),
        ) == words_of_lines(lines).push(trimmed(line)),
{
    assert(lines.push(line).drop_last() =~= lines);
    assert(words_of_lines(Seq::empty()) =~= Seq::<Seq<char>>::empty());
}

/// A filter made of a list filters for the words of its lines, in the mode that it was made with.
pub proof fn filter_has_the_words_of_its_list(
    content: &str,
    mode: FilterMode,
    r: Result<SensitiveWordFilter, String>,
)
    requires
        call_ensures(SensitiveWordFilter::from_str, (content, mode), r),
        r is Ok,
    ensures
        r->Ok_0.words() == words_of_lines(pieces(content@, '\n')),
        r->Ok_0.filter_mode() == mode,
{
}

/// A word is found in any case of its letters, wherever it stands.
pub proof fn word_is_found_in_any_case(before: Seq<char>, word: Seq<char>, after: Seq<char>)
    ensures
        has_word(before + word + after, word),
        has_word(before + word.map_values(|c: char| ascii_lower(c)) + after, word),
        has_word(before + word + after, word.map_values(|c: char| ascii_lower(c))),
{
    let small = word.map_values(|c: char| ascii_lower(c));
    let at = before.len() as int;
    let a = before + word + after;
    let b = before + small + after;
    assert(a.subrange(at, at + word.len()) =~= word);
    assert(b.subrange(at, at + word.len()) =~= small);
    assert forall|i: int| 0 <= i < word.len() implies ascii_lower(#[trigger] small[i])
        == ascii_lower(word[i]) by {
        crate::laws::texts::capitals_become_small(word[i]);
        crate::laws::texts::capitals_become_small(small[i]);
    }
    assert(same_but_case(a.subrange(at, at + word.len()), word));
    assert(same_but_case(b.subrange(at, at + word.len()), word));
    assert(same_but_case(a.subrange(at, at + small.len()), small));
}

/// Blotting words out leaves a talk its identity; a summary that is not there stays so, and one in which
/// no word stands is left as it is.
pub proof fn redacted_talk_keeps_its_identity(
    words: Seq<Seq<char>>,
    r: SyncBatch,
    b: SyncBatch,
    i: int,
)
    requires
        batch_is_redacted(words, r, b),
        0 <= i < b.talks@.len(),
    ensures
        r.talks@[i].session_id == b.talks@[i].session_id,
        r.talks@[i].talk_id == b.talks@[i].talk_id,
        r.talks@[i].summary_l3 is Some <==> b.talks@[i].summary_l3 is Some,
        (forall|k: int|
            0 <= k < words.len() ==> !has_word(b.talks@[i].summary_l2@, #[trigger] words[k]))
            ==> r.talks@[i].summary_l2@ == b.talks@[i].summary_l2@,
        b.talks@[i].summary_l3 is Some && (forall|k: int|
            0 <= k < words.len() ==> !has_word(b.talks@[i].summary_l3->0@, #[trigger] words[k]))
            ==> r.talks@[i].summary_l3->0@ == b.talks@[i].summary_l3->0@,
{
}

/// Of a message that holds words every text is redacted, as a text by itself is: one that is the same
/// before is the same after.
pub proof fn every_text_is_redacted_alike(
    f: &SensitiveWordFilter,
    batch: &mut SyncBatch,
    done: (),
    i: int,
    text: &str,
    r: String,
)
    requires
        call_ensures(SensitiveWordFilter::filter_batch, (f, batch), done),
        f.filter_mode() == FilterMode::Redact,
        call_ensures(SensitiveWordFilter::redact, (f, text), r),
        0 <= i < old(batch).messages@.len(),
    ensures
        ({
            let before = old(batch).messages@[i];
            let after = final(batch).messages@[i];
            &&& before.content_text@ == text@ ==> after.content_text@ == r@
            &&& before.content_full@ == text@ ==> after.content_full@ == r@
            &&& before.raw is Some && before.raw->0@ == text@ ==> after.raw is Some && after.raw->0@
                == r@
            &&& before.tool_args is Some && before.tool_args->0@ == text@ ==> after.tool_args is Some
                && after.tool_args->0@ == r@
        }),
        0 <= i < old(batch).talks@.len() ==> {
            let before = old(batch).talks@[i];
            let after = final(batch).talks@[i];
            &&& before.summary_l2@ == text@ ==> after.summary_l2@ == r@
            &&& before.summary_l3 is Some && before.summary_l3->0@ == text@ ==> after.summary_l3
                is Some && after.summary_l3->0@ == r@
        },
{
}

/// A filter is made of the globs that it is given, those that let through and those that keep back each
/// on their side; without any it is always made.
pub proof fn filter_has_the_globs_it_is_given(
    allow: &Vec<String>,
    deny: &Vec<String>,
    r: Result<ProjectFilter, String>,
)
    requires
        call_ensures(ProjectFilter::new, (allow, deny), r),
    ensures
        r is Ok ==> r->Ok_0.allow_globs() == views(allow@) && r->Ok_0.deny_globs() == views(deny@),
        allow@.len() == 0 && deny@.len() == 0 ==> r is Ok,
        r is Ok ==> forall|i: int|
            0 <= i < views(allow@).len() ==> crate::sync::filter::is_glob(#[trigger] views(allow@)[i]),
{
    assert(views(allow@).len() == allow@.len() && views(deny@).len() == deny@.len());
    lemma_all_globs(views(allow@));
}

proof fn lemma_all_globs(globs: Seq<Seq<char>>)
    ensures
        crate::sync::filter::first_non_glob(globs) is None ==> forall|i: int|
            0 <= i < globs.len() ==> crate::sync::filter::is_glob(#[trigger] globs[i]),
    decreases globs.len(),
{
    if globs.len() > 0 {
        let d = globs.drop_first();
        lemma_all_globs(d);
        if crate::sync::filter::first_non_glob(globs) is None {
            assert forall|i: int| 0 <= i < globs.len() implies crate::sync::filter::is_glob(
                #[trigger] globs[i],
            ) by {
                if i > 0 {
                    assert(d[i - 1] == globs[i]);
                }
            }
        }
    }
}

/// What a session pushes has passed both filters: every message of it belongs to a session that was
/// collected, holds none of the words where those are blocked, and is a message that was collected with
/// the words blotted out where that is asked for.
pub proof fn pushed_messages_passed_both_filters(
    s: SessionSync,
    batch: SyncBatch,
    projects: &ProjectFilter,
    words: Option<&SensitiveWordFilter>,
    r: SyncStep,
    k: int,
)
    requires
        call_ensures(SessionSync::collected, (s, batch, projects, words), r),
        r is Push,
        0 <= k < r->Push_0.batch.messages@.len(),
    ensures
        has_session(batch.sessions@, r->Push_0.batch.messages@[k].session_id@),
        words is None || words->0.filter_mode() == FilterMode::Tag ==> batch.messages@.contains(
            r->Push_0.batch.messages@[k],
        ),
        words is Some && words->0.filter_mode() == FilterMode::Block ==> {
            &&& batch.messages@.contains(r->Push_0.batch.messages@[k])
            &&& forall|i: int|
                0 <= i < words->0.words().len() ==> !has_word(
                    r->Push_0.batch.messages@[k].content_full@,
                    #[trigger] words->0.words()[i],
                ) && !has_word(r->Push_0.batch.messages@[k].content_text@, words->0.words()[i])
        },
        words is Some && words->0.filter_mode() == FilterMode::Redact ==> exists|i: int|
            0 <= i < batch.messages@.len() && (#[trigger] batch.messages@[i]).uuid
                == r->Push_0.batch.messages@[k].uuid && crate::sync::filter::is_redacted(
                words->0.words(),
                r->Push_0.batch.messages@[k].content_full@,
                batch.messages@[i].content_full@,
            ),
{
    let out = r->Push_0.batch;
    let m = out.messages@[k];
    assert(out.messages@.contains(m));
    assert(is_filtered(*projects, words, out, batch));
    match words {
        None => {
            pushed_batch_hangs_together(*projects, out, batch);
            lemma_session_was_there(*projects, out, batch, m.session_id@);
        },
        Some(w) => {
            let scoped = choose|scoped: SyncBatch|
                {
                    &&& #[trigger] batch_is_scoped(*projects, scoped, batch)
                    &&& match w.filter_mode() {
                        FilterMode::Redact => batch_is_redacted(w.words(), out, scoped),
                        FilterMode::Block => batch_is_blocked(w.words(), out, scoped),
                        FilterMode::Tag => out == scoped,
                    }
                };
            pushed_batch_hangs_together(*projects, scoped, batch);
            match w.filter_mode() {
                FilterMode::Redact => {
                    let b = scoped.messages@[k];
                    assert(scoped.messages@.contains(b));
                    assert(batch.messages@.contains(b));
                    let i = choose|i: int| 0 <= i < batch.messages@.len() && batch.messages@[i] == b;
                    assert(batch.messages@[i].uuid == m.uuid);
                    lemma_session_was_there(*projects, scoped, batch, b.session_id@);
                },
                FilterMode::Block => {
                    blocked_message_holds_a_word(w.words(), out, scoped, m);
                    lemma_session_was_there(*projects, scoped, batch, m.session_id@);
                },
                FilterMode::Tag => {
                    lemma_session_was_there(*projects, scoped, batch, m.session_id@);
                },
            }
        },
    }
}

proof fn lemma_session_was_there(f: ProjectFilter, r: SyncBatch, b: SyncBatch, id: Seq<char>)
    requires
        batch_is_scoped(f, r, b),
        has_session(r.sessions@, id),
    ensures
        has_session(b.sessions@, id),
{
    pushed_batch_hangs_together(f, r, b);
    let i = choose|i: int| 0 <= i < r.sessions@.len() && (#[trigger] r.sessions@[i]).session_id@ == id;
    assert(r.sessions@.contains(r.sessions@[i]));
    let j = choose|j: int| 0 <= j < b.sessions@.len() && b.sessions@[j] == r.sessions@[i];
    assert(b.sessions@[j].session_id@ == id);
}

} // verus!

//! What is kept back before a push: sensitive words, and projects that are not to
//! be pushed. The local store is never changed.
use vstd::prelude::*;
use crate::laws::pushing::{has_project, has_session, pushed_batch_hangs_together};
use crate::sync::{
    SyncBatch,
    SyncChainNode,
    SyncContinuationChain,
    SyncMessage,
    SyncProject,
    SyncSession,
    SyncSessionRelation,
    SyncTalk,
};
use crate::text::{
    ascii_lower,
    begins_with,
    holds_text,
    pieces,
    split_pieces,
    starts_with,
    trim,
    trimmed,
    views,
};

verus! {

/// How sensitive words are dealt with.
#[derive(Debug, Clone)]
pub struct FilterConfig {
    pub enabled: bool,
    /// The file with the words, one to a line.
    pub sensitive_words_file: String,
    pub mode: FilterMode,
    pub remote_list_url: Option<String>,
}

impl Default for FilterConfig {
    fn default() -> (r: FilterConfig)
        ensures
            !r.enabled,
            r.sensitive_words_file@.len() == 0,
            r.mode == FilterMode::Redact,
            r.remote_list_url is None,
    {
        FilterConfig {
            enabled: false,
            sensitive_words_file: String::new(),
            mode: FilterMode::Redact,
            remote_list_url: None,
        }
    }
}

/// What becomes of a text with a sensitive word in it.
#[derive(Debug, Clone, Copy, PartialEq, Eq, Structural)]
pub enum FilterMode {
    /// The word is blotted out.
    Redact,
    /// What holds it is not pushed.
    Block,
    /// It is pushed as it is; the server marks it.
    Tag,
}

// ---- The outside crates ----

/// A matcher of many words, of the crate `aho_corasick`.
#[verifier::external_type_specification]
#[verifier::external_body]
pub struct ExAhoCorasick(aho_corasick::AhoCorasick);

/// The words that a matcher was built from.
pub uninterp spec fn matcher_words(m: aho_corasick::AhoCorasick) -> Seq<Seq<char>>;

/// Whether a matcher can be built from the words.
pub uninterp spec fn matcher_builds(words: Seq<Seq<char>>) -> bool;

/// A text in which a matcher of the words has put the replacement of the word in place of each
/// match that it finds.
pub uninterp spec fn replaced(
    words: Seq<Seq<char>>,
    replacements: Seq<Seq<char>>,
    text: Seq<char>,
) -> Seq<char>;

/// Whether two texts are the same but for the case of ASCII letters.
pub open spec fn same_but_case(a: Seq<char>, b: Seq<char>) -> bool {
    &&& a.len() == b.len()
    &&& forall|i: int| 0 <= i < a.len() ==> ascii_lower(#[trigger] a[i]) == ascii_lower(b[i])
}

/// Whether the word occurs in the text, in any case.
pub open spec fn has_word(text: Seq<char>, word: Seq<char>) -> bool {
    exists|at: int|
        0 <= at && at + word.len() <= text.len() && #[trigger] same_but_case(
            text.subrange(at, at + word.len()),
            word,
        )
}

/// Whether one of the words occurs in the text, in any case.
pub open spec fn has_any_word(text: Seq<char>, words: Seq<Seq<char>>) -> bool {
    exists|i: int| 0 <= i < words.len() && has_word(text, #[trigger] words[i])
}

/// Whether the word occurs at a place of the text, in any case.
pub open spec fn occurs_at(text: Seq<char>, word: Seq<char>, at: int) -> bool {
    &&& 0 <= at
    &&& at + word.len() <= text.len()
    &&& same_but_case(text.subrange(at, at + word.len()), word)
}

/// Whether no two occurrences of words in the text overlap, but for occurrences of the same
/// characters that have the same replacement. No word is empty.
pub open spec fn are_apart(
    words: Seq<Seq<char>>,
    replacements: Seq<Seq<char>>,
    text: Seq<char>,
) -> bool {
    &&& forall|i: int| 0 <= i < words.len() ==> (#[trigger] words[i]).len() > 0
    &&& forall|i: int, j: int, a: int, b: int|
        0 <= i < words.len() && 0 <= j < words.len() && #[trigger] occurs_at(text, words[i], a)
            && #[trigger] occurs_at(text, words[j], b) ==> {
            ||| a + words[i].len() <= b
            ||| b + words[j].len() <= a
            ||| a == b && words[i].len() == words[j].len() && replacements[i] == replacements[j]
        }
}

/// Whether the text ends with the word at the place `i`, in any case.
pub open spec fn ends_in(text: Seq<char>, words: Seq<Seq<char>>, i: int) -> bool {
    0 <= i < words.len() && words[i].len() > 0 && occurs_at(
        text,
        words[i],
        text.len() - words[i].len(),
    )
}

/// A text with each occurrence of a word replaced, and all else kept.
pub open spec fn all_replaced(
    words: Seq<Seq<char>>,
    replacements: Seq<Seq<char>>,
    text: Seq<char>,
) -> Seq<char>
    decreases text.len(),
{
    if text.len() == 0 {
        seq![]
    } else if exists|i: int| ends_in(text, words, i) {
        let i = choose|i: int| ends_in(text, words, i);
        all_replaced(words, replacements, text.take(text.len() - words[i].len())) + replacements[i]
    } else {
        all_replaced(words, replacements, text.drop_last()).push(text.last())
    }
}

/// `AhoCorasickBuilder::build` with `ascii_case_insensitive`: a matcher of the words, unless they
/// are more than it can take.
#[verifier::external_body]
fn build_matcher(words: &Vec<String>) -> (r: Option<aho_corasick::AhoCorasick>)
    ensures
        r is Some <==> matcher_builds(views(words@)),
        r is Some ==> matcher_words(r->0) == views(words@),
{
    aho_corasick::AhoCorasick::builder().ascii_case_insensitive(true).build(words).ok()
}

/// `AhoCorasick::is_match`: whether one of the words occurs in the text.
#[verifier::external_body]
fn matcher_is_match(m: &aho_corasick::AhoCorasick, text: &str) -> (r: bool)
    ensures
        r == has_any_word(text@, matcher_words(*m)),
{
    m.is_match(text)
}

/// `AhoCorasick::replace_all`: the text with each match replaced by the replacement of its word, and
/// so the text itself where there is no match, and the text with every occurrence replaced where no
/// two overlap. Which of two matches that overlap is replaced is left to the crate.
#[verifier::external_body]
fn matcher_replace_all(m: &aho_corasick::AhoCorasick, text: &str, replacements: &Vec<String>) -> (r:
    String)
    requires
        replacements@.len() == matcher_words(*m).len(),
    ensures
        r@ == replaced(matcher_words(*m), views(replacements@), text@),
        !has_any_word(text@, matcher_words(*m)) ==> r@ == text@,
        are_apart(matcher_words(*m), views(replacements@), text@) ==> r@ == all_replaced(
            matcher_words(*m),
            views(replacements@),
            text@,
        ),
{
    m.replace_all(text, replacements)
}

/// A set of globs that is being built, of the crate `globset`.
#[verifier::external_type_specification]
#[verifier::external_body]
pub struct ExGlobSetBuilder(globset::GlobSetBuilder);

/// A set of globs, of the crate `globset`.
#[verifier::external_type_specification]
#[verifier::external_body]
pub struct ExGlobSet(globset::GlobSet);

/// The globs that have been added to a builder.
pub uninterp spec fn builder_globs(b: globset::GlobSetBuilder) -> Seq<Seq<char>>;

/// The globs of a set.
pub uninterp spec fn set_globs(s: globset::GlobSet) -> Seq<Seq<char>>;

/// Whether a text is a glob.
pub uninterp spec fn is_glob(s: Seq<char>) -> bool;

/// Whether a set can be built from the globs.
pub uninterp spec fn globs_build(globs: Seq<Seq<char>>) -> bool;

/// Whether a path matches a glob.
pub uninterp spec fn glob_matches(glob: Seq<char>, path: Seq<char>) -> bool;

/// `GlobSetBuilder::new`: a builder without globs.
#[verifier::external_body]
fn new_builder() -> (r: globset::GlobSetBuilder)
    ensures
        builder_globs(r) == Seq::<Seq<char>>::empty(),
{
    globset::GlobSetBuilder::new()
}

/// `Glob::new` and `GlobSetBuilder::add`: adds the text to the builder where it is a glob.
#[verifier::external_body]
fn add_glob(b: &mut globset::GlobSetBuilder, glob: &str) -> (r: bool)
    ensures
        r == is_glob(glob@),
        builder_globs(*final(b)) == if r {
            builder_globs(*old(b)).push(glob@)
        } else {
            builder_globs(*old(b))
        },
{
    match globset::Glob::new(glob) {
        Ok(g) => {
            b.add(g);
            true
        },
        Err(_) => false,
    }
}

/// `GlobSetBuilder::build`: the set of the globs that have been added, unless they are more than
/// it can take.
#[verifier::external_body]
fn build_set(b: &globset::GlobSetBuilder) -> (r: Option<globset::GlobSet>)
    ensures
        r is Some <==> globs_build(builder_globs(*b)),
        r is Some ==> set_globs(r->0) == builder_globs(*b),
{
    b.build().ok()
}

/// Whether a path matches one of the globs.
pub open spec fn matches_any(globs: Seq<Seq<char>>, path: Seq<char>) -> bool {
    exists|i: int| 0 <= i < globs.len() && glob_matches(#[trigger] globs[i], path)
}

/// `GlobSet::is_match`: whether the path matches one of the globs of the set.
#[verifier::external_body]
fn set_is_match(s: &globset::GlobSet, path: &str) -> (r: bool)
    ensures
        r == (exists|i: int|
            0 <= i < set_globs(*s).len() && glob_matches(#[trigger] set_globs(*s)[i], path@)),
{
    s.is_match(path)
}

// ---- Sensitive words ----

/// The words of a file: its lines without white space at their ends, but for empty ones and
/// those that start with `#`.
pub open spec fn words_of_lines(lines: Seq<Seq<char>>) -> Seq<Seq<char>>
    decreases lines.len(),
{
    if lines.len() == 0 {
        seq![]
    } else {
        let p = words_of_lines(lines.drop_last());
        let line = trimmed(lines.last());
        if line.len() > 0 && !begins_with(line, "#"@) {
            p.push(line)
        } else {
            p
        }
    }
}

/// The words in the content of a file.
pub open spec fn words_in(content: Seq<char>) -> Seq<Seq<char>> {
    words_of_lines(pieces(content, '\n'))
}

proof fn lemma_words_are_not_empty(lines: Seq<Seq<char>>)
    ensures
        forall|i: int|
            0 <= i < words_of_lines(lines).len() ==> (#[trigger] words_of_lines(lines)[i]).len() > 0,
    decreases lines.len(),
{
    if lines.len() > 0 {
        lemma_words_are_not_empty(lines.drop_last());
        let p = words_of_lines(lines.drop_last());
        let all = words_of_lines(lines);
        assert forall|i: int| 0 <= i < all.len() implies (#[trigger] all[i]).len() > 0 by {
            if i < p.len() {
                assert(all[i] == p[i]);
            }
        }
    }
}

/// No word of a file is empty.
pub proof fn words_are_not_empty(content: Seq<char>)
    ensures
        forall|i: int| 0 <= i < words_in(content).len() ==> (#[trigger] words_in(content)[i]).len() > 0,
{
    lemma_words_are_not_empty(pieces(content, '\n'));
}

fn read_words(content: &str) -> (r: Vec<String>)
    ensures
        views(r@) == words_in(content@),
{
    let lines = split_pieces(content, '\n');
    let ghost texts = views(lines@);
    let mut r: Vec<String> = Vec::new();
    let mut i: usize = 0;
    assert(texts.take(0) =~= Seq::<Seq<char>>::empty());
    assert(views(r@) =~= Seq::<Seq<char>>::empty());
    while i < lines.len()
        invariant
            i <= lines@.len(),
            texts == views(lines@),
            views(r@) == words_of_lines(texts.take(i as int)),
        decreases lines@.len() - i,
    {
        assert(texts.take(i + 1).drop_last() =~= texts.take(i as int));
        assert(texts[i as int] == lines@[i as int]@);
        let line = trim(lines[i].as_str());
        if !line.as_str().is_empty() && !starts_with(line.as_str(), "#") {
            let ghost before = r@;
            let ghost word = line@;
            r.push(line);
            assert(views(r@) =~= views(before).push(word));
        }
        i += 1;
    }
    assert(texts.take(texts.len() as int) =~= texts);
    r
}

/// Finds sensitive words and deals with them.
pub struct SensitiveWordFilter {
    automaton: aho_corasick::AhoCorasick,
    mode: FilterMode,
    patterns_count: usize,
}

/// The stars that stand for a blotted word, once for each of `n` words.
pub open spec fn stars(n: nat) -> Seq<Seq<char>> {
    Seq::new(n, |i: int| "***"@)
}

/// A text with the words blotted out.
pub open spec fn redacted(words: Seq<Seq<char>>, text: Seq<char>) -> Seq<char> {
    replaced(words, stars(words.len()), text)
}

/// Whether `r` is the text with the words blotted out: the text itself where none occurs, and with
/// every occurrence blotted out and all else kept where no two overlap.
pub open spec fn is_redacted(words: Seq<Seq<char>>, r: Seq<char>, text: Seq<char>) -> bool {
    &&& r == redacted(words, text)
    &&& !has_any_word(text, words) ==> r == text
    &&& are_apart(words, stars(words.len()), text) ==> r == all_replaced(
        words,
        stars(words.len()),
        text,
    )
}

/// Whether `r` is `o` with the words blotted out.
pub open spec fn is_redacted_opt(words: Seq<Seq<char>>, r: Option<String>, o: Option<String>) -> bool {
    match o {
        Some(s) => r is Some && is_redacted(words, r->0@, s@),
        None => r is None,
    }
}

/// Whether `r` is the message `m` with the words blotted out of its texts.
pub open spec fn is_redacted_message(words: Seq<Seq<char>>, r: SyncMessage, m: SyncMessage) -> bool {
    &&& r == (SyncMessage {
        content_text: r.content_text,
        content_full: r.content_full,
        raw: r.raw,
        tool_args: r.tool_args,
        ..m
    })
    &&& is_redacted(words, r.content_text@, m.content_text@)
    &&& is_redacted(words, r.content_full@, m.content_full@)
    &&& is_redacted_opt(words, r.raw, m.raw)
    &&& is_redacted_opt(words, r.tool_args, m.tool_args)
}

/// Whether `r` is the talk `t` with the words blotted out of its texts.
pub open spec fn is_redacted_talk(words: Seq<Seq<char>>, r: SyncTalk, t: SyncTalk) -> bool {
    &&& r == (SyncTalk { summary_l2: r.summary_l2, summary_l3: r.summary_l3, ..t })
    &&& is_redacted(words, r.summary_l2@, t.summary_l2@)
    &&& is_redacted_opt(words, r.summary_l3, t.summary_l3)
}

proof fn lemma_rest_is_kept(
    words: Seq<Seq<char>>,
    replacements: Seq<Seq<char>>,
    text: Seq<char>,
    from: int,
    to: int,
)
    requires
        0 <= from <= to <= text.len(),
        forall|k: int, i: int| from < k <= to ==> !#[trigger] ends_in(text.take(k), words, i),
    ensures
        all_replaced(words, replacements, text.take(to)) == all_replaced(
            words,
            replacements,
            text.take(from),
        ) + text.subrange(from, to),
    decreases to - from,
{
    if from < to {
        lemma_rest_is_kept(words, replacements, text, from, to - 1);
        let t = text.take(to);
        assert(t.drop_last() =~= text.take(to - 1));
        assert forall|i: int| !ends_in(t, words, i) by {}
        assert(all_replaced(words, replacements, t) =~= all_replaced(
            words,
            replacements,
            text.take(from),
        ) + text.subrange(from, to));
    } else {
        assert(text.subrange(from, to) =~= Seq::<char>::empty());
        assert(all_replaced(words, replacements, text.take(to)) =~= all_replaced(
            words,
            replacements,
            text.take(from),
        ) + text.subrange(from, to));
    }
}

/// Where a word occurs at one place and nothing else does, that place alone is blotted out, and what
/// stands before and behind it is kept.
pub proof fn one_word_is_blotted_out(
    words: Seq<Seq<char>>,
    text: Seq<char>,
    word: int,
    at: int,
    r: Seq<char>,
)
    requires
        0 <= word < words.len(),
        forall|i: int| 0 <= i < words.len() ==> (#[trigger] words[i]).len() > 0,
        occurs_at(text, words[word], at),
        forall|i: int, b: int|
            0 <= i < words.len() && #[trigger] occurs_at(text, words[i], b) ==> b == at
                && words[i].len() == words[word].len(),
        is_redacted(words, r, text),
    ensures
        r == text.take(at) + "***"@ + text.skip(at + words[word].len()),
{
    let with = stars(words.len());
    let end = at + words[word].len();
    assert(are_apart(words, with, text));
    assert forall|k: int, i: int| 0 <= k <= text.len() && k != end implies !#[trigger] ends_in(
        text.take(k),
        words,
        i,
    ) by {
        if ends_in(text.take(k), words, i) {
            let b = k - words[i].len();
            assert(text.take(k).subrange(b, k) =~= text.subrange(b, k));
            assert(occurs_at(text, words[i], b));
        }
    }
    lemma_rest_is_kept(words, with, text, end, text.len() as int);
    assert(text.take(text.len() as int) =~= text);
    assert(text.subrange(end, text.len() as int) =~= text.skip(end));
    let t = text.take(end);
    assert(t.subrange(at, end) =~= text.subrange(at, end));
    assert(ends_in(t, words, word));
    let i = choose|i: int| ends_in(t, words, i);
    assert(t.subrange(end - words[i].len(), end) =~= text.subrange(end - words[i].len(), end));
    assert(occurs_at(text, words[i], end - words[i].len()));
    assert(t.take(at) =~= text.take(at));
    lemma_rest_is_kept(words, with, text, 0, at);
    assert(text.take(0) =~= Seq::<char>::empty());
    assert(text.subrange(0, at) =~= text.take(at));
    assert(all_replaced(words, with, text.take(at)) =~= text.take(at));
    assert(r =~= text.take(at) + "***"@ + text.skip(end));
}

/// Whether one of the words occurs in the optional text.
pub open spec fn opt_has_any_word(o: Option<String>, words: Seq<Seq<char>>) -> bool {
    o is Some && has_any_word(o->0@, words)
}

/// Whether a message holds one of the words.
pub open spec fn message_is_sensitive(m: SyncMessage, words: Seq<Seq<char>>) -> bool {
    ||| has_any_word(m.content_text@, words)
    ||| has_any_word(m.content_full@, words)
    ||| opt_has_any_word(m.raw, words)
    ||| opt_has_any_word(m.tool_args, words)
}

/// Whether a talk holds one of the words.
pub open spec fn talk_is_sensitive(t: SyncTalk, words: Seq<Seq<char>>) -> bool {
    has_any_word(t.summary_l2@, words) || opt_has_any_word(t.summary_l3, words)
}

/// The items that are kept, in order.
pub open spec fn retained<T>(s: Seq<T>, keep: spec_fn(T) -> bool) -> Seq<T>
    decreases s.len(),
{
    if s.len() == 0 {
        seq![]
    } else {
        let p = retained(s.drop_last(), keep);
        if keep(s.last()) {
            p.push(s.last())
        } else {
            p
        }
    }
}

fn retain_flagged<T>(v: Vec<T>, flags: &Vec<bool>, Ghost(keep): Ghost<spec_fn(T) -> bool>) -> (r: Vec<
    T,
>)
    requires
        flags@.len() == v@.len(),
        forall|i: int| 0 <= i < v@.len() ==> #[trigger] flags@[i] == keep(v@[i]),
    ensures
        r@ == retained(v@, keep),
{
    let ghost all = v@;
    let mut r: Vec<T> = Vec::new();
    let total: usize = flags.len();
    let mut n: usize = 0;
    assert(all.take(0) =~= Seq::<T>::empty());
    for x in it: v
        invariant
            it.seq() == all,
            n == it.index(),
            flags@.len() == all.len() == total,
            forall|i: int| 0 <= i < all.len() ==> #[trigger] flags@[i] == keep(all[i]),
            r@ == retained(all.take(it.index()), keep),
    {
        assert(all.take(it.index() + 1).drop_last() =~= all.take(it.index()));
        assert(x == all[it.index()]);
        if flags[n] {
            r.push(x);
        }
        n = n + 1;
    }
    assert(all.take(all.len() as int) =~= all);
    r
}

impl SensitiveWordFilter {
    /// The words that are looked for.
    pub closed spec fn words(&self) -> Seq<Seq<char>> {
        matcher_words(self.automaton)
    }

    /// What becomes of what holds one.
    pub closed spec fn filter_mode(&self) -> FilterMode {
        self.mode
    }

    /// That the filter has as many patterns as words.
    pub closed spec fn wf(&self) -> bool {
        self.patterns_count == self.words().len()
    }

    /// A filter for the words in the content of a file.
    pub fn from_str(content: &str, mode: FilterMode) -> (r: Result<SensitiveWordFilter, String>)
        ensures
            match r {
                Ok(f) => {
                    &&& matcher_builds(words_in(content@))
                    &&& f.wf()
                    &&& f.words() == words_in(content@)
                    &&& f.filter_mode() == mode
                },
                Err(e) => !matcher_builds(words_in(content@)) && e@
                    == "构建 Aho-Corasick 自动机失败"@,
            },
    {
        let patterns = read_words(content);
        assert(views(patterns@).len() == patterns@.len());
        match build_matcher(&patterns) {
            Some(automaton) => Ok(
                SensitiveWordFilter { automaton, mode, patterns_count: patterns.len() },
            ),
            None => Err("构建 Aho-Corasick 自动机失败".to_owned()),
        }
    }

    /// How many words are looked for.
    pub fn patterns_count(&self) -> (r: usize)
        requires
            self.wf(),
        ensures
            r == self.words().len(),
    {
        self.patterns_count
    }

    /// Whether one of the words occurs in the text, in any case.
    pub fn contains_sensitive(&self, text: &str) -> (r: bool)
        ensures
            r == has_any_word(text@, self.words()),
    {
        matcher_is_match(&self.automaton, text)
    }

    /// The text with each word blotted out; a text without any is left as it is.
    pub fn redact(&self, text: &str) -> (r: String)
        requires
            self.wf(),
        ensures
            is_redacted(self.words(), r@, text@),
    {
        let mut with: Vec<String> = Vec::new();
        while with.len() < self.patterns_count
            invariant
                with@.len() <= self.patterns_count,
                forall|i: int| 0 <= i < with@.len() ==> (#[trigger] with@[i])@ == "***"@,
            decreases self.patterns_count - with@.len(),
        {
            with.push("***".to_owned());
        }
        assert(views(with@) =~= stars(self.words().len()));
        matcher_replace_all(&self.automaton, text, &with)
    }

    fn redact_opt(&self, o: Option<String>) -> (r: Option<String>)
        requires
            self.wf(),
        ensures
            is_redacted_opt(self.words(), r, o),
    {
        match o {
            Some(s) => Some(self.redact(s.as_str())),
            None => None,
        }
    }

    fn opt_sensitive(&self, o: &Option<String>) -> (r: bool)
        ensures
            r == opt_has_any_word(*o, self.words()),
    {
        match o {
            Some(s) => self.contains_sensitive(s.as_str()),
            None => false,
        }
    }

    /// Whether a message holds one of the words.
    pub fn is_message_sensitive(&self, msg: &SyncMessage) -> (r: bool)
        ensures
            r == message_is_sensitive(*msg, self.words()),
    {
        self.contains_sensitive(msg.content_text.as_str()) || self.contains_sensitive(
            msg.content_full.as_str(),
        ) || self.opt_sensitive(&msg.raw) || self.opt_sensitive(&msg.tool_args)
    }

    fn redact_batch(&self, batch: &mut SyncBatch)
        requires
            self.wf(),
        ensures
            batch_is_redacted(self.words(), *final(batch), *old(batch)),
    {
        let mut messages: Vec<SyncMessage> = Vec::new();
        std::mem::swap(&mut messages, &mut batch.messages);
        let ghost all = messages@;
        let mut clean: Vec<SyncMessage> = Vec::new();
        for m in it: messages
            invariant
                self.wf(),
                it.seq() == all,
                clean@.len() == it.index(),
                forall|i: int|
                    0 <= i < clean@.len() ==> is_redacted_message(
                        self.words(),
                        #[trigger] clean@[i],
                        all[i],
                    ),
        {
            let mut m = m;
            m.content_text = self.redact(m.content_text.as_str());
            m.content_full = self.redact(m.content_full.as_str());
            m.raw = self.redact_opt(m.raw);
            m.tool_args = self.redact_opt(m.tool_args);
            clean.push(m);
        }
        batch.messages = clean;
        let mut talks: Vec<SyncTalk> = Vec::new();
        std::mem::swap(&mut talks, &mut batch.talks);
        let ghost all_talks = talks@;
        let mut clean_talks: Vec<SyncTalk> = Vec::new();
        for t in it: talks
            invariant
                self.wf(),
                it.seq() == all_talks,
                clean_talks@.len() == it.index(),
                forall|i: int|
                    0 <= i < clean_talks@.len() ==> is_redacted_talk(
                        self.words(),
                        #[trigger] clean_talks@[i],
                        all_talks[i],
                    ),
        {
            let mut t = t;
            t.summary_l2 = self.redact(t.summary_l2.as_str());
            t.summary_l3 = self.redact_opt(t.summary_l3);
            clean_talks.push(t);
        }
        batch.talks = clean_talks;
    }

    fn block_batch(&self, batch: &mut SyncBatch)
        ensures
            batch_is_blocked(self.words(), *final(batch), *old(batch)),
    {
        let ghost words = self.words();
        let mut messages: Vec<SyncMessage> = Vec::new();
        std::mem::swap(&mut messages, &mut batch.messages);
        let mut flags: Vec<bool> = Vec::new();
        while flags.len() < messages.len()
            invariant
                words == self.words(),
                flags@.len() <= messages@.len(),
                forall|i: int|
                    0 <= i < flags@.len() ==> #[trigger] flags@[i] == !message_is_sensitive(
                        messages@[i],
                        words,
                    ),
            decreases messages@.len() - flags@.len(),
        {
            let keep = !self.is_message_sensitive(&messages[flags.len()]);
            flags.push(keep);
        }
        batch.messages = retain_flagged(
            messages,
            &flags,
            Ghost(|m: SyncMessage| !message_is_sensitive(m, words)),
        );
        let mut talks: Vec<SyncTalk> = Vec::new();
        std::mem::swap(&mut talks, &mut batch.talks);
        let mut talk_flags: Vec<bool> = Vec::new();
        while talk_flags.len() < talks.len()
            invariant
                words == self.words(),
                talk_flags@.len() <= talks@.len(),
                forall|i: int|
                    0 <= i < talk_flags@.len() ==> #[trigger] talk_flags@[i] == !talk_is_sensitive(
                        talks@[i],
                        words,
                    ),
            decreases talks@.len() - talk_flags@.len(),
        {
            let t = &talks[talk_flags.len()];
            let keep = !self.contains_sensitive(t.summary_l2.as_str()) && !self.opt_sensitive(
                &t.summary_l3,
            );
            talk_flags.push(keep);
        }
        batch.talks = retain_flagged(
            talks,
            &talk_flags,
            Ghost(|t: SyncTalk| !talk_is_sensitive(t, words)),
        );
    }

    /// Deals with the sensitive words in a batch: blots them out, takes out what holds them, or
    /// leaves them to the server.
    pub fn filter_batch(&self, batch: &mut SyncBatch)
        requires
            self.wf(),
        ensures
            match self.filter_mode() {
                FilterMode::Redact => batch_is_redacted(self.words(), *final(batch), *old(batch)),
                FilterMode::Block => batch_is_blocked(self.words(), *final(batch), *old(batch)),
                FilterMode::Tag => *final(batch) == *old(batch),
            },
    {
        match self.mode {
            FilterMode::Redact => self.redact_batch(batch),
            FilterMode::Block => self.block_batch(batch),
            FilterMode::Tag => {},
        }
    }
}

/// Whether two batches differ in their messages and talks alone.
pub open spec fn differ_in_texts(a: SyncBatch, b: SyncBatch) -> bool {
    a == (SyncBatch { messages: a.messages, talks: a.talks, ..b })
}

/// Whether `r` is the batch `b` with the words blotted out.
pub open spec fn batch_is_redacted(words: Seq<Seq<char>>, r: SyncBatch, b: SyncBatch) -> bool {
    &&& differ_in_texts(r, b)
    &&& r.messages@.len() == b.messages@.len()
    &&& forall|i: int|
        0 <= i < r.messages@.len() ==> is_redacted_message(
            words,
            #[trigger] r.messages@[i],
            b.messages@[i],
        )
    &&& r.talks@.len() == b.talks@.len()
    &&& forall|i: int|
        0 <= i < r.talks@.len() ==> is_redacted_talk(words, #[trigger] r.talks@[i], b.talks@[i])
}

/// Whether `r` is the batch `b` without what holds one of the words.
pub open spec fn batch_is_blocked(words: Seq<Seq<char>>, r: SyncBatch, b: SyncBatch) -> bool {
    &&& differ_in_texts(r, b)
    &&& r.messages@ == retained(
        b.messages@,
        |m: SyncMessage| !message_is_sensitive(m, words),
    )
    &&& r.talks@ == retained(b.talks@, |t: SyncTalk| !talk_is_sensitive(t, words))
}

/// What is kept is what passes, each item as often as it was there.
pub proof fn retained_passes<T>(s: Seq<T>, keep: spec_fn(T) -> bool, x: T)
    ensures
        retained(s, keep).contains(x) <==> s.contains(x) && keep(x),
    decreases s.len(),
{
    let q = retained(s, keep);
    if s.len() > 0 {
        let d = s.drop_last();
        let p = retained(d, keep);
        retained_passes(d, keep, x);
        if q.contains(x) {
            let k = choose|k: int| 0 <= k < q.len() && q[k] == x;
            if k < p.len() {
                assert(p[k] == x);
                let i = choose|i: int| 0 <= i < d.len() && d[i] == x;
                assert(s[i] == x);
            } else {
                assert(s[s.len() - 1] == x);
            }
        }
        if s.contains(x) && keep(x) {
            let i = choose|i: int| 0 <= i < s.len() && s[i] == x;
            if i < d.len() {
                assert(d[i] == x);
                let k = choose|k: int| 0 <= k < p.len() && p[k] == x;
                assert(q[k] == x);
            } else {
                assert(q[q.len() - 1] == x);
            }
        }
    }
}

/// No message that holds a sensitive word is left in a batch from which they are taken out.
pub proof fn blocked_batch_is_clean(words: Seq<Seq<char>>, r: SyncBatch, b: SyncBatch, i: int)
    requires
        batch_is_blocked(words, r, b),
        0 <= i < r.messages@.len(),
    ensures
        !message_is_sensitive(r.messages@[i], words),
{
    retained_passes(
        b.messages@,
        |m: SyncMessage| !message_is_sensitive(m, words),
        r.messages@[i],
    );
    assert(r.messages@.contains(r.messages@[i]));
}

// ---- Projects ----

/// Tells which projects are pushed.
pub struct ProjectFilter {
    allow: Option<globset::GlobSet>,
    deny: Option<globset::GlobSet>,
}

/// The first of the texts that is no glob.
pub open spec fn first_non_glob(s: Seq<Seq<char>>) -> Option<Seq<char>>
    decreases s.len(),
{
    if s.len() == 0 {
        None
    } else if !is_glob(s[0]) {
        Some(s[0])
    } else {
        first_non_glob(s.drop_first())
    }
}

/// Why a set of globs cannot be had.
pub open spec fn glob_error(globs: Seq<Seq<char>>, invalid: Seq<char>, failed: Seq<char>) -> Option<
    Seq<char>,
> {
    if globs.len() == 0 {
        None
    } else {
        match first_non_glob(globs) {
            Some(glob) => Some(invalid + glob),
            None => if globs_build(globs) {
                None
            } else {
                Some(failed)
            },
        }
    }
}

fn build_globs(globs: &Vec<String>, invalid: &str, failed: &str) -> (r: Result<
    Option<globset::GlobSet>,
    String,
>)
    ensures
        match r {
            Ok(Some(s)) => {
                &&& glob_error(views(globs@), invalid@, failed@) is None
                &&& globs@.len() > 0
                &&& set_globs(s) == views(globs@)
            },
            Ok(None) => globs@.len() == 0,
            Err(e) => glob_error(views(globs@), invalid@, failed@) == Some(e@),
        },
{
    let ghost texts = views(globs@);
    if globs.len() == 0 {
        return Ok(None);
    }
    let mut b = new_builder();
    let mut i: usize = 0;
    assert(texts.skip(0) =~= texts);
    assert(texts.take(0) =~= Seq::<Seq<char>>::empty());
    while i < globs.len()
        invariant
            i <= globs@.len(),
            texts == views(globs@),
            globs@.len() > 0,
            first_non_glob(texts) == first_non_glob(texts.skip(i as int)),
            builder_globs(b) == texts.take(i as int),
        decreases globs@.len() - i,
    {
        let ghost here = texts.skip(i as int);
        assert(here[0] == globs@[i as int]@);
        assert(here.drop_first() =~= texts.skip(i + 1));
        if !add_glob(&mut b, globs[i].as_str()) {
            let mut e = invalid.to_owned();
            e.push_str(globs[i].as_str());
            return Err(e);
        }
        assert(texts.take(i + 1) =~= texts.take(i as int).push(texts[i as int]));
        i += 1;
    }
    assert(texts.take(texts.len() as int) =~= texts);
    match build_set(&b) {
        Some(s) => Ok(Some(s)),
        None => Err(failed.to_owned()),
    }
}

/// Whether a project is pushed: no glob that keeps projects back matches its path, and one of
/// those that let them through does, where there are any.
pub open spec fn path_passes(allow: Seq<Seq<char>>, deny: Seq<Seq<char>>, path: Seq<char>) -> bool {
    &&& !matches_any(deny, path)
    &&& allow.len() > 0 ==> matches_any(allow, path)
}

/// Whether a batch holds a project of the given path that is pushed.
pub open spec fn passes_in(f: ProjectFilter, b: SyncBatch, path: Seq<char>) -> bool {
    f.passes(path) && exists|i: int|
        0 <= i < b.projects@.len() && (#[trigger] b.projects@[i]).path@ == path
}

/// Whether a batch holds a session of the given id whose project is pushed.
pub open spec fn session_passes_in(f: ProjectFilter, b: SyncBatch, id: Seq<char>) -> bool {
    exists|i: int|
        0 <= i < b.sessions@.len() && (#[trigger] b.sessions@[i]).session_id@ == id && passes_in(
            f,
            b,
            b.sessions@[i].project_path@,
        )
}

/// Whether `r` is what of the batch `b` is pushed.
pub open spec fn batch_is_scoped(f: ProjectFilter, r: SyncBatch, b: SyncBatch) -> bool {
    &&& r.projects@ == retained(b.projects@, |p: SyncProject| passes_in(f, b, p.path@))
    &&& r.sessions@ == retained(b.sessions@, |s: SyncSession| passes_in(f, b, s.project_path@))
    &&& r.messages@ == retained(
        b.messages@,
        |m: SyncMessage| session_passes_in(f, b, m.session_id@),
    )
    &&& r.talks@ == retained(b.talks@, |t: SyncTalk| session_passes_in(f, b, t.session_id@))
    &&& r.session_relations@ == retained(
        b.session_relations@,
        |x: SyncSessionRelation|
            session_passes_in(f, b, x.parent_session_id@) || session_passes_in(
                f,
                b,
                x.child_session_id@,
            ),
    )
    &&& r.continuation_chains@ == retained(
        b.continuation_chains@,
        |c: SyncContinuationChain| session_passes_in(f, b, c.root_session_id@),
    )
    &&& r.chain_nodes@ == retained(
        b.chain_nodes@,
        |n: SyncChainNode| session_passes_in(f, b, n.session_id@),
    )
}

impl ProjectFilter {
    /// The globs that let projects through.
    pub closed spec fn allow_globs(&self) -> Seq<Seq<char>> {
        match self.allow {
            Some(s) => set_globs(s),
            None => seq![],
        }
    }

    /// The globs that keep projects back.
    pub closed spec fn deny_globs(&self) -> Seq<Seq<char>> {
        match self.deny {
            Some(s) => set_globs(s),
            None => seq![],
        }
    }

    /// That a set of globs holds some.
    pub closed spec fn wf(&self) -> bool {
        self.allow is Some ==> set_globs(self.allow->0).len() > 0
    }

    /// Whether a project is pushed.
    pub open spec fn passes(&self, path: Seq<char>) -> bool {
        path_passes(self.allow_globs(), self.deny_globs(), path)
    }

    /// A filter of the globs that let projects through and those that keep them back.
    pub fn new(allow: &Vec<String>, deny: &Vec<String>) -> (r: Result<ProjectFilter, String>)
        ensures
            match r {
                Ok(f) => {
                    &&& f.wf()
                    &&& f.allow_globs() == views(allow@)
                    &&& f.deny_globs() == views(deny@)
                    &&& glob_error(
                        views(allow@),
                        "无效的 include glob: "@,
                        "构建 include GlobSet 失败"@,
                    ) is None
                    &&& glob_error(
                        views(deny@),
                        "无效的 exclude glob: "@,
                        "构建 exclude GlobSet 失败"@,
                    ) is None
                },
                Err(e) => match glob_error(
                    views(allow@),
                    "无效的 include glob: "@,
                    "构建 include GlobSet 失败"@,
                ) {
                    Some(why) => e@ == why,
                    None => glob_error(
                        views(deny@),
                        "无效的 exclude glob: "@,
                        "构建 exclude GlobSet 失败"@,
                    ) == Some(e@),
                },
            },
    {
        let inc = match build_globs(
            allow,
            "无效的 include glob: ",
            "构建 include GlobSet 失败",
        ) {
            Ok(s) => s,
            Err(e) => {
                return Err(e);
            },
        };
        let exc = match build_globs(
            deny,
            "无效的 exclude glob: ",
            "构建 exclude GlobSet 失败",
        ) {
            Ok(s) => s,
            Err(e) => {
                return Err(e);
            },
        };
        let f = ProjectFilter { allow: inc, deny: exc };
        assert(f.allow_globs() =~= views(allow@));
        assert(f.deny_globs() =~= views(deny@));
        Ok(f)
    }

    /// Whether the project at the path is pushed.
    pub fn is_allowed(&self, project_path: &str) -> (r: bool)
        requires
            self.wf(),
        ensures
            r == self.passes(project_path@),
    {
        match &self.deny {
            Some(deny) => {
                if set_is_match(deny, project_path) {
                    return false;
                }
            },
            None => {},
        }
        match &self.allow {
            Some(allow) => set_is_match(allow, project_path),
            None => true,
        }
    }

    /// Takes out of a batch what belongs to projects that are not pushed: the projects, their
    /// sessions, and what belongs to those.
    pub fn filter_batch(&self, batch: &mut SyncBatch)
        requires
            self.wf(),
        ensures
            batch_is_scoped(*self, *final(batch), *old(batch)),
            forall|s: SyncSession| #[trigger]
                final(batch).sessions@.contains(s) <==> old(batch).sessions@.contains(s)
                    && has_project(final(batch).projects@, s.project_path@),
            forall|m: SyncMessage| #[trigger]
                final(batch).messages@.contains(m) <==> old(batch).messages@.contains(m)
                    && has_session(final(batch).sessions@, m.session_id@),
            forall|x: SyncSessionRelation| #[trigger]
                final(batch).session_relations@.contains(x) <==> old(
                    batch,
                ).session_relations@.contains(x) && (has_session(
                    final(batch).sessions@,
                    x.parent_session_id@,
                ) || has_session(final(batch).sessions@, x.child_session_id@)),
    {
        let ghost b = *batch;
        let ghost f = *self;
        let mut paths: Vec<String> = Vec::new();
        let mut project_flags: Vec<bool> = Vec::new();
        while project_flags.len() < batch.projects.len()
            invariant
                self.wf(),
                f == *self,
                b == *batch,
                project_flags@.len() <= b.projects@.len(),
                forall|i: int|
                    0 <= i < project_flags@.len() ==> #[trigger] project_flags@[i] == passes_in(
                        f,
                        b,
                        b.projects@[i].path@,
                    ),
                forall|path: Seq<char>|
                    views(paths@).contains(path) <==> f.passes(path) && exists|i: int|
                        0 <= i < project_flags@.len() && (#[trigger] b.projects@[i]).path@ == path,
            decreases b.projects@.len() - project_flags@.len(),
        {
            let n: usize = project_flags.len();
            let p = &batch.projects[n];
            let allowed = self.is_allowed(p.path.as_str());
            let ghost before = views(paths@);
            assert(b.projects@[n as int].path@ == p.path@);
            if allowed {
                paths.push(p.path.clone());
                assert(views(paths@) =~= before.push(p.path@));
                assert forall|path: Seq<char>|
                    views(paths@).contains(path) <==> f.passes(path) && exists|i: int|
                        0 <= i < n + 1 && (#[trigger] b.projects@[i]).path@ == path by {
                    if views(paths@).contains(path) {
                        let k = choose|k: int|
                            0 <= k < views(paths@).len() && views(paths@)[k] == path;
                        if k < before.len() {
                            assert(before[k] == path);
                        }
                    }
                    if before.contains(path) {
                        let k = choose|k: int| 0 <= k < before.len() && before[k] == path;
                        assert(views(paths@)[k] == path);
                    }
                    if path == p.path@ {
                        assert(views(paths@)[before.len() as int] == path);
                    }
                }
            }
            project_flags.push(allowed);
        }
        let mut sessions: Vec<String> = Vec::new();
        let mut session_flags: Vec<bool> = Vec::new();
        while session_flags.len() < batch.sessions.len()
            invariant
                b == *batch,
                session_flags@.len() <= b.sessions@.len(),
                forall|path: Seq<char>|
                    views(paths@).contains(path) <==> passes_in(f, b, path),
                forall|i: int|
                    0 <= i < session_flags@.len() ==> #[trigger] session_flags@[i] == passes_in(
                        f,
                        b,
                        b.sessions@[i].project_path@,
                    ),
                forall|id: Seq<char>|
                    views(sessions@).contains(id) <==> exists|i: int|
                        0 <= i < session_flags@.len() && (#[trigger] b.sessions@[i]).session_id@
                            == id && passes_in(f, b, b.sessions@[i].project_path@),
            decreases b.sessions@.len() - session_flags@.len(),
        {
            let n: usize = session_flags.len();
            let s = &batch.sessions[n];
            let allowed = holds_text(&paths, s.project_path.as_str());
            let ghost before = views(sessions@);
            assert(b.sessions@[n as int].session_id@ == s.session_id@);
            if allowed {
                sessions.push(s.session_id.clone());
                assert(views(sessions@) =~= before.push(s.session_id@));
            }
            assert forall|id: Seq<char>|
                views(sessions@).contains(id) <==> exists|i: int|
                    0 <= i < n + 1 && (#[trigger] b.sessions@[i]).session_id@ == id && passes_in(
                        f,
                        b,
                        b.sessions@[i].project_path@,
                    ) by {
                if views(sessions@).contains(id) {
                    let k = choose|k: int|
                        0 <= k < views(sessions@).len() && views(sessions@)[k] == id;
                    if k < before.len() {
                        assert(before[k] == id);
                    }
                }
                if before.contains(id) {
                    let k = choose|k: int| 0 <= k < before.len() && before[k] == id;
                    assert(views(sessions@)[k] == id);
                }
                if allowed && id == s.session_id@ {
                    assert(views(sessions@)[before.len() as int] == id);
                }
            }
            session_flags.push(allowed);
        }
        assert forall|id: Seq<char>|
            views(sessions@).contains(id) <==> session_passes_in(f, b, id) by {}
        self.retain_scoped(batch, &project_flags, &session_flags, &sessions);
        proof {
            pushed_batch_hangs_together(f, *batch, b);
        }
    }

    fn retain_scoped(
        &self,
        batch: &mut SyncBatch,
        project_flags: &Vec<bool>,
        session_flags: &Vec<bool>,
        sessions: &Vec<String>,
    )
        requires
            project_flags@.len() == old(batch).projects@.len(),
            forall|i: int|
                0 <= i < project_flags@.len() ==> #[trigger] project_flags@[i] == passes_in(
                    *self,
                    *old(batch),
                    old(batch).projects@[i].path@,
                ),
            session_flags@.len() == old(batch).sessions@.len(),
            forall|i: int|
                0 <= i < session_flags@.len() ==> #[trigger] session_flags@[i] == passes_in(
                    *self,
                    *old(batch),
                    old(batch).sessions@[i].project_path@,
                ),
            forall|id: Seq<char>|
                #![trigger views(sessions@).contains(id)]
                #![trigger session_passes_in(*self, *old(batch), id)]
                views(sessions@).contains(id) <==> session_passes_in(*self, *old(batch), id),
        ensures
            batch_is_scoped(*self, *final(batch), *old(batch)),
    {
        let ghost b = *batch;
        let ghost f = *self;
        let mut projects: Vec<SyncProject> = Vec::new();
        std::mem::swap(&mut projects, &mut batch.projects);
        batch.projects = retain_flagged(
            projects,
            project_flags,
            Ghost(|p: SyncProject| passes_in(f, b, p.path@)),
        );
        let mut all_sessions: Vec<SyncSession> = Vec::new();
        std::mem::swap(&mut all_sessions, &mut batch.sessions);
        batch.sessions = retain_flagged(
            all_sessions,
            session_flags,
            Ghost(|s: SyncSession| passes_in(f, b, s.project_path@)),
        );
        let mut messages: Vec<SyncMessage> = Vec::new();
        std::mem::swap(&mut messages, &mut batch.messages);
        let mut flags: Vec<bool> = Vec::new();
        while flags.len() < messages.len()
            invariant
                flags@.len() <= messages@.len(),
                forall|id: Seq<char>|
                    #![trigger views(sessions@).contains(id)]
                    views(sessions@).contains(id) <==> session_passes_in(f, b, id),
                forall|i: int|
                    0 <= i < flags@.len() ==> #[trigger] flags@[i] == session_passes_in(
                        f,
                        b,
                        messages@[i].session_id@,
                    ),
            decreases messages@.len() - flags@.len(),
        {
            let keep = holds_text(sessions, messages[flags.len()].session_id.as_str());
            flags.push(keep);
        }
        batch.messages = retain_flagged(
            messages,
            &flags,
            Ghost(|m: SyncMessage| session_passes_in(f, b, m.session_id@)),
        );
        let mut talks: Vec<SyncTalk> = Vec::new();
        std::mem::swap(&mut talks, &mut batch.talks);
        let mut talk_flags: Vec<bool> = Vec::new();
        while talk_flags.len() < talks.len()
            invariant
                talk_flags@.len() <= talks@.len(),
                forall|id: Seq<char>|
                    #![trigger views(sessions@).contains(id)]
                    views(sessions@).contains(id) <==> session_passes_in(f, b, id),
                forall|i: int|
                    0 <= i < talk_flags@.len() ==> #[trigger] talk_flags@[i] == session_passes_in(
                        f,
                        b,
                        talks@[i].session_id@,
                    ),
            decreases talks@.len() - talk_flags@.len(),
        {
            let keep = holds_text(sessions, talks[talk_flags.len()].session_id.as_str());
            talk_flags.push(keep);
        }
        batch.talks = retain_flagged(
            talks,
            &talk_flags,
            Ghost(|t: SyncTalk| session_passes_in(f, b, t.session_id@)),
        );
        let mut relations: Vec<SyncSessionRelation> = Vec::new();
        std::mem::swap(&mut relations, &mut batch.session_relations);
        let mut relation_flags: Vec<bool> = Vec::new();
        while relation_flags.len() < relations.len()
            invariant
                relation_flags@.len() <= relations@.len(),
                forall|id: Seq<char>|
                    #![trigger views(sessions@).contains(id)]
                    views(sessions@).contains(id) <==> session_passes_in(f, b, id),
                forall|i: int|
                    0 <= i < relation_flags@.len() ==> #[trigger] relation_flags@[i] == (
                    session_passes_in(f, b, relations@[i].parent_session_id@) || session_passes_in(
                        f,
                        b,
                        relations@[i].child_session_id@,
                    )),
            decreases relations@.len() - relation_flags@.len(),
        {
            let x = &relations[relation_flags.len()];
            let keep = holds_text(sessions, x.parent_session_id.as_str()) || holds_text(
                sessions,
                x.child_session_id.as_str(),
            );
            relation_flags.push(keep);
        }
        batch.session_relations = retain_flagged(
            relations,
            &relation_flags,
            Ghost(
                |x: SyncSessionRelation|
                    session_passes_in(f, b, x.parent_session_id@) || session_passes_in(
                        f,
                        b,
                        x.child_session_id@,
                    ),
            ),
        );
        let mut chains: Vec<SyncContinuationChain> = Vec::new();
        std::mem::swap(&mut chains, &mut batch.continuation_chains);
        let mut chain_flags: Vec<bool> = Vec::new();
        while chain_flags.len() < chains.len()
            invariant
                chain_flags@.len() <= chains@.len(),
                forall|id: Seq<char>|
                    #![trigger views(sessions@).contains(id)]
                    views(sessions@).contains(id) <==> session_passes_in(f, b, id),
                forall|i: int|
                    0 <= i < chain_flags@.len() ==> #[trigger] chain_flags@[i]
                        == session_passes_in(f, b, chains@[i].root_session_id@),
            decreases chains@.len() - chain_flags@.len(),
        {
            let keep = holds_text(sessions, chains[chain_flags.len()].root_session_id.as_str());
            chain_flags.push(keep);
        }
        batch.continuation_chains = retain_flagged(
            chains,
            &chain_flags,
            Ghost(|c: SyncContinuationChain| session_passes_in(f, b, c.root_session_id@)),
        );
        let mut nodes: Vec<SyncChainNode> = Vec::new();
        std::mem::swap(&mut nodes, &mut batch.chain_nodes);
        let mut node_flags: Vec<bool> = Vec::new();
        while node_flags.len() < nodes.len()
            invariant
                node_flags@.len() <= nodes@.len(),
                forall|id: Seq<char>|
                    #![trigger views(sessions@).contains(id)]
                    views(sessions@).contains(id) <==> session_passes_in(f, b, id),
                forall|i: int|
                    0 <= i < node_flags@.len() ==> #[trigger] node_flags@[i] == session_passes_in(
                        f,
                        b,
                        nodes@[i].session_id@,
                    ),
            decreases nodes@.len() - node_flags@.len(),
        {
            let keep = holds_text(sessions, nodes[node_flags.len()].session_id.as_str());
            node_flags.push(keep);
        }
        batch.chain_nodes = retain_flagged(
            nodes,
            &node_flags,
            Ghost(|n: SyncChainNode| session_passes_in(f, b, n.session_id@)),
        );
    }
}

/// A glob that keeps a project back prevails over one that lets it through.
pub proof fn exclusion_prevails(allow: Seq<Seq<char>>, deny: Seq<Seq<char>>, path: Seq<char>)
    requires
        matches_any(deny, path),
    ensures
        !path_passes(allow, deny, path),
{
}

/// Without globs every project is pushed.
pub proof fn no_globs_pass_all(path: Seq<char>)
    ensures
        path_passes(seq![], seq![], path),
{
}

/// No project, session or message of a project that is kept back is left in a batch.
pub proof fn scoped_batch_is_clean(f: ProjectFilter, r: SyncBatch, b: SyncBatch)
    requires
        batch_is_scoped(f, r, b),
    ensures
        forall|i: int| 0 <= i < r.projects@.len() ==> f.passes((#[trigger] r.projects@[i]).path@),
        forall|i: int|
            0 <= i < r.sessions@.len() ==> f.passes((#[trigger] r.sessions@[i]).project_path@),
        forall|i: int|
            0 <= i < r.messages@.len() ==> session_passes_in(
                f,
                b,
                (#[trigger] r.messages@[i]).session_id@,
            ),
{
    assert forall|i: int| 0 <= i < r.projects@.len() implies f.passes(
        (#[trigger] r.projects@[i]).path@,
    ) by {
        retained_passes(b.projects@, |p: SyncProject| passes_in(f, b, p.path@), r.projects@[i]);
        assert(r.projects@.contains(r.projects@[i]));
    }
    assert forall|i: int| 0 <= i < r.sessions@.len() implies f.passes(
        (#[trigger] r.sessions@[i]).project_path@,
    ) by {
        retained_passes(
            b.sessions@,
            |s: SyncSession| passes_in(f, b, s.project_path@),
            r.sessions@[i],
        );
        assert(r.sessions@.contains(r.sessions@[i]));
    }
    assert forall|i: int| 0 <= i < r.messages@.len() implies session_passes_in(
        f,
        b,
        (#[trigger] r.messages@[i]).session_id@,
    ) by {
        retained_passes(
            b.messages@,
            |m: SyncMessage| session_passes_in(f, b, m.session_id@),
            r.messages@[i],
        );
        assert(r.messages@.contains(r.messages@[i]));
    }
}

} // verus!

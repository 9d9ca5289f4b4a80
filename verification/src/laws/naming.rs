//! What holds of paths and of the words that stand for values.
use vstd::prelude::*;
use crate::agent::watcher::handle_file_change;
use crate::archive::is_jsonl;
use crate::collector::{extract_encoded_dir_name, extract_project_name, PathJob};
use crate::paths::{
    directory_in, extension, extension_of, file_name, file_stem, is_extension_dot, is_sep, join,
    last_component, name_in, parent, parent_name, stem_of, stripped, with_extension, PathStyle,
    Reading,
};
use crate::db::{wal_paths, WalPaths};
use crate::reader::compute_session_path;
use crate::repair::{repair_paths, RepairPaths};
use crate::text::{all_ascii, ascii_lower, views};
use crate::types::{ApprovalStatus, MessageType};

verus! {

/// Whether a text can be the name of a file: it is not empty, names neither the directory itself nor
/// the one above, and holds no separator of either style.
pub open spec fn is_name(c: Seq<char>) -> bool {
    &&& c.len() > 0
    &&& c != seq!['.']
    &&& c != seq!['.', '.']
    &&& !c.contains('/')
    &&& !c.contains('\\')
}

proof fn lemma_last_component(r: Reading, d: Seq<char>, sep: char, c: Seq<char>)
    requires
        is_sep(r, sep),
        forall|i: int| 0 <= i < c.len() ==> !is_sep(r, #[trigger] c[i]),
    ensures
        last_component(r, d.push(sep) + c) == c,
    decreases c.len(),
{
    let s = d.push(sep) + c;
    if c.len() == 0 {
        assert(s.last() == sep);
        assert(last_component(r, s) =~= c);
    } else {
        let e = c.drop_last();
        assert(s.drop_last() =~= d.push(sep) + e);
        assert(s.last() == c[c.len() - 1]);
        assert forall|i: int| 0 <= i < e.len() implies !is_sep(r, #[trigger] e[i]) by {
            assert(e[i] == c[i]);
        }
        lemma_last_component(r, d, sep, e);
        assert(last_component(r, s) =~= c);
    }
}

proof fn lemma_nothing_stripped(r: Reading, d: Seq<char>, sep: char, c: Seq<char>)
    requires
        is_sep(r, sep),
        c.len() > 0,
        c != seq!['.'],
        forall|i: int| 0 <= i < c.len() ==> !is_sep(r, #[trigger] c[i]),
    ensures
        stripped(r, d.push(sep) + c) == d.push(sep) + c,
{
    let s = d.push(sep) + c;
    assert(s.last() == c[c.len() - 1]);
    if c.len() == 1 {
        assert(c[0] != '.') by {
            if c[0] == '.' {
                assert(c =~= seq!['.']);
            }
        }
    } else {
        assert(s[s.len() - 2] == c[c.len() - 2]);
    }
}

proof fn lemma_no_separator(r: Reading, c: Seq<char>)
    requires
        !c.contains('/'),
        !c.contains('\\'),
    ensures
        forall|i: int| 0 <= i < c.len() ==> !is_sep(r, #[trigger] c[i]),
{
    assert forall|i: int| 0 <= i < c.len() implies !is_sep(r, #[trigger] c[i]) by {
        assert(c.contains(c[i]));
    }
}

proof fn lemma_name_in(r: Reading, d: Seq<char>, sep: char, c: Seq<char>)
    requires
        is_sep(r, sep),
        is_name(c),
    ensures
        name_in(r, d.push(sep) + c) == Some(c),
        directory_in(r, d.push(sep) + c) == d.push(sep),
{
    lemma_no_separator(r, c);
    lemma_nothing_stripped(r, d, sep, c);
    lemma_last_component(r, d, sep, c);
    assert(directory_in(r, d.push(sep) + c) =~= d.push(sep));
}

/// The name of a file is what stands behind the last slash, whatever directory it lies in.
pub proof fn name_stands_behind_the_last_slash(path: &str, d: Seq<char>, c: Seq<char>, r: Option<String>)
    requires
        call_ensures(file_name, (PathStyle::Unix, path), r),
        path@ == d.push('/') + c,
        is_name(c),
    ensures
        r is Some && r->0@ == c,
{
    lemma_name_in(Reading::Slash, d, '/', c);
    assert(path@.skip(0) =~= path@);
}

/// On a drive the name of a file stands behind the last slash or backslash.
pub proof fn name_on_a_drive_stands_behind_either_slash(
    path: &str,
    letter: char,
    d: Seq<char>,
    sep: char,
    c: Seq<char>,
    r: Option<String>,
)
    requires
        call_ensures(file_name, (PathStyle::Windows, path), r),
        'a' <= letter <= 'z' || 'A' <= letter <= 'Z',
        sep == '/' || sep == '\\',
        path@ == seq![letter, ':'] + (d.push(sep) + c),
        is_name(c),
    ensures
        r is Some && r->0@ == c,
{
    lemma_name_in(Reading::Both, d, sep, c);
    assert(path@[0] == letter && path@[1] == ':');
    assert(path@.skip(2) =~= d.push(sep) + c);
}

/// The directory that a file lies in has the name before the last slash, and the file lies in it.
pub proof fn directory_stands_before_the_name(
    path: &str,
    d: Seq<char>,
    dir: Seq<char>,
    c: Seq<char>,
    name: Option<String>,
    up: Option<String>,
    encoded: Option<String>,
)
    requires
        call_ensures(parent_name, (PathStyle::Unix, path), name),
        call_ensures(parent, (PathStyle::Unix, path), up),
        call_ensures(extract_encoded_dir_name, (PathStyle::Unix, path), encoded),
        path@ == (d.push('/') + dir).push('/') + c,
        is_name(dir),
        is_name(c),
    ensures
        name is Some && name->0@ == dir,
        encoded is Some && encoded->0@ == dir,
        up is Some && up->0@ == d.push('/') + dir,
{
    let r = Reading::Slash;
    let above = d.push('/') + dir;
    lemma_name_in(r, above, '/', c);
    lemma_name_in(r, d, '/', dir);
    lemma_no_separator(r, dir);
    lemma_no_separator(r, c);
    lemma_nothing_stripped(r, d, '/', dir);
    lemma_nothing_stripped(r, above, '/', c);
    assert(path@.skip(0) =~= path@);
    let b = above.push('/');
    assert(b.drop_last() =~= above);
    assert(stripped(r, b) == above);
    lemma_last_component(r, d, '/', dir);
    assert(path@.take(0) + above =~= above);
}

proof fn lemma_dot(s: Seq<char>, e: Seq<char>)
    requires
        s.len() > 0,
        !e.contains('.'),
    ensures
        stem_of(s.push('.') + e) == s,
        extension_of(s.push('.') + e) == Some(e),
{
    let name = s.push('.') + e;
    let dot = s.len() as int;
    assert(name[dot] == '.');
    assert forall|k: int| dot < k < name.len() implies name[k] != '.' by {
        assert(name[k] == e[k - dot - 1]);
        assert(e.contains(e[k - dot - 1]));
    }
    assert(is_extension_dot(name, dot));
    let chosen = choose|x: int| is_extension_dot(name, x);
    assert(chosen == dot) by {
        if chosen < dot {
            assert(name[dot] != '.');
        } else if chosen > dot {
            assert(name[chosen] != '.');
        }
    }
    assert(name.take(dot) =~= s);
    assert(name.skip(dot + 1) =~= e);
}

/// A name is parted at its last dot: before it stands the stem, behind it the extension; and another
/// extension takes the place of the one that was there.
pub proof fn name_is_parted_at_its_last_dot(
    path: &str,
    d: Seq<char>,
    s: Seq<char>,
    e: Seq<char>,
    new: &str,
    stem: Option<String>,
    ext: Option<String>,
    other: String,
)
    requires
        call_ensures(file_stem, (PathStyle::Unix, path), stem),
        call_ensures(extension, (PathStyle::Unix, path), ext),
        call_ensures(with_extension, (PathStyle::Unix, path, new), other),
        path@ == d.push('/') + (s.push('.') + e),
        s.len() > 0,
        !e.contains('.'),
        is_name(s.push('.') + e),
    ensures
        stem is Some && stem->0@ == s,
        ext is Some && ext->0@ == e,
        other@ == d.push('/') + s.push('.') + new@,
{
    let c = s.push('.') + e;
    lemma_name_in(Reading::Slash, d, '/', c);
    assert(path@.skip(0) =~= path@);
    lemma_dot(s, e);
    assert(path@.take(0) + d.push('/') =~= d.push('/'));
    assert(d.push('/') + s + seq!['.'] + new@ =~= d.push('/') + s.push('.') + new@);
}

/// A path is joined to a directory with one slash between; one that begins with a slash stands for
/// itself.
pub proof fn joining_puts_one_slash_between(base: &str, p: &str, r: String)
    requires
        call_ensures(join, (PathStyle::Unix, base, p), r),
    ensures
        p@.len() > 0 && p@[0] == '/' ==> r@ == p@,
        !(p@.len() > 0 && p@[0] == '/') && base@.len() > 0 && base@.last() != '/' ==> r@ == base@.push(
            '/',
        ) + p@,
        !(p@.len() > 0 && p@[0] == '/') && base@.len() > 0 && base@.last() == '/' ==> r@ == base@ + p@,
        !(p@.len() > 0 && p@[0] == '/') && base@.len() == 0 ==> r@ == p@,
{
    if base@.len() == 0 {
        assert(base@ + p@ =~= p@);
    }
}

/// What was joined to a directory is the name of what comes out, and the directory is what it lies in.
pub proof fn joined_name_is_found_again(
    base: &str,
    name: &str,
    r: String,
    path: &str,
    again: Option<String>,
)
    requires
        call_ensures(join, (PathStyle::Unix, base, name), r),
        base@.len() > 0,
        is_name(name@),
        path@ == r@,
        call_ensures(file_name, (PathStyle::Unix, path), again),
    ensures
        again is Some && again->0@ == name@,
{
    assert(name@[0] != '/') by {
        assert(name@.contains(name@[0]));
    }
    assert(path@.skip(0) =~= path@);
    if base@.last() != '/' {
        lemma_name_in(Reading::Slash, base@, '/', name@);
    } else {
        let d = base@.drop_last();
        assert(d.push('/') =~= base@);
        lemma_name_in(Reading::Slash, d, '/', name@);
    }
}

/// The file of a session lies in the directory of its project, under the session's id.
pub proof fn session_file_lies_in_its_project(
    root: &str,
    dir: &str,
    id: &str,
    r: String,
)
    requires
        call_ensures(compute_session_path, (PathStyle::Unix, root, dir, id), r),
        root@.len() > 0,
        root@.last() != '/',
        is_name(dir@),
        is_name(id@),
    ensures
        r@ == (root@.push('/') + dir@).push('/') + id@ + ".jsonl"@,
{
    reveal_strlit(".jsonl");
    assert(dir@.contains(dir@[0]) && id@.contains(id@[0]));
    let inner = root@.push('/') + dir@;
    assert(inner.last() == dir@[dir@.len() - 1]);
    assert(dir@.contains(dir@[dir@.len() - 1]));
    assert((id@ + ".jsonl"@)[0] == id@[0]);
    assert(inner.push('/') + (id@ + ".jsonl"@) =~= inner.push('/') + id@ + ".jsonl"@);
}

/// A file is taken for a session exactly where its extension is one of those that are read; one of lines
/// where that is the extension of lines.
pub proof fn extension_decides_what_is_read(
    path: &str,
    d: Seq<char>,
    s: Seq<char>,
    e: Seq<char>,
    known: &Vec<String>,
    a: bool,
    b: bool,
)
    requires
        call_ensures(handle_file_change, (PathStyle::Unix, path, known), a),
        call_ensures(is_jsonl, (PathStyle::Unix, path), b),
        path@ == d.push('/') + (s.push('.') + e),
        s.len() > 0,
        !e.contains('.'),
        is_name(s.push('.') + e),
    ensures
        a <==> exists|i: int| 0 <= i < known@.len() && (#[trigger] known@[i])@ == e,
        b <==> e == "jsonl"@,
{
    lemma_name_in(Reading::Slash, d, '/', s.push('.') + e);
    assert(path@.skip(0) =~= path@);
    lemma_dot(s, e);
    if a {
        let i = choose|i: int| 0 <= i < views(known@).len() && views(known@)[i] == e;
        assert(known@[i]@ == e);
    }
    if exists|i: int| 0 <= i < known@.len() && (#[trigger] known@[i])@ == e {
        let i = choose|i: int| 0 <= i < known@.len() && (#[trigger] known@[i])@ == e;
        assert(views(known@)[i] == e);
    }
    assert(seq!["jsonl"@][0] == "jsonl"@);
}

/// A single file is collected under the stem of its name, in the directory that it lies in.
pub proof fn file_is_collected_under_its_stem(
    path: &str,
    d: Seq<char>,
    dir: Seq<char>,
    s: Seq<char>,
    r: Option<PathJob>,
)
    requires
        call_ensures(PathJob::open, (PathStyle::Unix, path), r),
        path@ == (d.push('/') + dir).push('/') + (s.push('.') + "jsonl"@),
        is_name(dir),
        is_name(s),
    ensures
        r is Some,
        r->0.session_id@ == s,
        r->0.encoded_dir_name is Some && r->0.encoded_dir_name->0@ == dir,
        r->0.path@ == path@,
{
    reveal_strlit("jsonl");
    let e = "jsonl"@;
    let c = s.push('.') + e;
    assert forall|i: int| 0 <= i < c.len() implies c[i] != '/' && c[i] != '\\' by {
        if i < s.len() {
            assert(s.contains(s[i]));
            assert(c[i] == s[i]);
        } else if i > s.len() {
            assert(c[i] == e[i - s.len() - 1]);
        }
    }
    assert(c.len() > 2);
    lemma_name_in(Reading::Slash, d.push('/') + dir, '/', c);
    lemma_name_in(Reading::Slash, d, '/', dir);
    lemma_dot(s, e);
    assert(path@.skip(0) =~= path@);
    let b = (d.push('/') + dir).push('/');
    assert(b.drop_last() =~= d.push('/') + dir);
    lemma_no_separator(Reading::Slash, dir);
    lemma_nothing_stripped(Reading::Slash, d, '/', dir);
    assert(stripped(Reading::Slash, b) == d.push('/') + dir);
    lemma_last_component(Reading::Slash, d, '/', dir);
}

/// The name of a project is the last part of its path.
pub proof fn project_is_named_by_its_path(path: &str, d: Seq<char>, c: Seq<char>, r: String)
    requires
        call_ensures(extract_project_name, (PathStyle::Unix, path), r),
        path@ == d.push('/') + c,
        is_name(c),
    ensures
        r@ == c,
{
    lemma_name_in(Reading::Slash, d, '/', c);
    assert(path@.skip(0) =~= path@);
}

/// Each kind of message is read back from its word; a word that is none stands for the user.
pub proof fn message_kinds_are_read_back(t: &MessageType, w: String, s: &str, r: MessageType)
    requires
        call_ensures(MessageType::to_string, (t,), w),
        s@ == w@,
        call_ensures(MessageType::from_word, (s,), r),
    ensures
        r == *t,
        *t == MessageType::User <==> w@ == "user"@,
        *t == MessageType::Assistant <==> w@ == "assistant"@,
        *t == MessageType::Tool <==> w@ == "tool"@,
        *t == MessageType::System <==> w@ == "system"@,
{
    reveal_strlit("user");
    reveal_strlit("assistant");
    reveal_strlit("tool");
    reveal_strlit("system");
    assert("user"@[0] == 'u' && "assistant"@[0] == 'a' && "tool"@[0] == 't' && "system"@[0] == 's');
}

/// A word that stands for no kind of message is taken for the user's.
pub proof fn other_words_are_the_users(s: &str, r: MessageType)
    requires
        call_ensures(MessageType::from_word, (s,), r),
        s@ != "assistant"@,
        s@ != "tool"@,
        s@ != "system"@,
    ensures
        r == MessageType::User,
{
}

/// Each state of an approval is read back from its word, in capitals too; no other word is one.
pub proof fn approvals_are_read_back(
    t: &ApprovalStatus,
    w: String,
    s: &str,
    r: Result<ApprovalStatus, String>,
)
    requires
        call_ensures(ApprovalStatus::to_string, (t,), w),
        all_ascii(s@),
        s@.map_values(|c: char| ascii_lower(c)) == w@,
        call_ensures(ApprovalStatus::from_str, (s,), r),
    ensures
        r is Ok && r->Ok_0 == *t,
        *t == ApprovalStatus::Pending <==> w@ == "pending"@,
        *t == ApprovalStatus::Approved <==> w@ == "approved"@,
        *t == ApprovalStatus::Rejected <==> w@ == "rejected"@,
        *t == ApprovalStatus::Timeout <==> w@ == "timeout"@,
{
    reveal_strlit("pending");
    reveal_strlit("approved");
    reveal_strlit("rejected");
    reveal_strlit("timeout");
    assert("pending"@[0] == 'p' && "approved"@[0] == 'a' && "rejected"@[0] == 'r' && "timeout"@[0]
        == 't');
}

/// What ends in the directory itself or the one above names no file, nor does the root, nor nothing.
pub proof fn directories_above_are_no_files(
    path: &str,
    d: Seq<char>,
    r: Option<String>,
)
    requires
        call_ensures(file_name, (PathStyle::Unix, path), r),
    ensures
        path@ == d.push('/') + seq!['.', '.'] ==> r is None,
        path@ == seq!['.', '.'] ==> r is None,
        path@ == seq!['.'] ==> r is None,
        path@ == seq!['/'] ==> r is None,
        path@.len() == 0 ==> r is None,
{
    let s = Reading::Slash;
    assert(path@.skip(0) =~= path@);
    let up = seq!['.', '.'];
    if path@ == d.push('/') + up {
        lemma_nothing_stripped(s, d, '/', up);
        lemma_last_component(s, d, '/', up);
    }
    if path@ == up {
        assert(stripped(s, up) == up);
        assert(up.drop_last() =~= seq!['.']);
        assert(seq!['.'].drop_last() =~= Seq::<char>::empty());
        assert(last_component(s, Seq::empty()) =~= Seq::<char>::empty());
        assert(last_component(s, seq!['.']) =~= seq!['.']);
        assert(last_component(s, up) =~= up);
    }
    if path@ == seq!['.'] {
        assert(stripped(s, path@) == path@);
        assert(path@.drop_last() =~= Seq::<char>::empty());
        assert(last_component(s, Seq::empty()) =~= Seq::<char>::empty());
        assert(last_component(s, path@) =~= seq!['.']);
    }
    if path@ == seq!['/'] {
        assert(path@.drop_last() =~= Seq::<char>::empty());
        assert(stripped(s, Seq::empty()) =~= Seq::<char>::empty());
        assert(stripped(s, path@) == stripped(s, path@.drop_last()));
    }
}

/// On a drive a path is joined to a directory with one backslash between, unless the directory ends in a
/// separator already.
pub proof fn joining_on_a_drive_puts_one_backslash_between(
    base: &str,
    letter: char,
    d: Seq<char>,
    name: &str,
    r: String,
)
    requires
        call_ensures(join, (PathStyle::Windows, base, name), r),
        'a' <= letter <= 'z' || 'A' <= letter <= 'Z',
        base@ == seq![letter, ':'] + d,
        d.len() > 0,
        is_name(name@),
        !name@.contains(':'),
    ensures
        d.last() == '/' || d.last() == '\\' ==> r@ == base@ + name@,
        d.last() != '/' && d.last() != '\\' ==> r@ == base@.push('\\') + name@,
{
    let p = name@;
    assert(p.contains(p[0]));
    if p.len() > 1 {
        assert(p.contains(p[1]));
    }
    assert(base@[1] == ':');
    assert(base@.last() == d.last());
}

proof fn lemma_other_extension(d: Seq<char>, s: Seq<char>, e: Seq<char>, new: Seq<char>)
    requires
        s.len() > 0,
        !e.contains('.'),
        is_name(s.push('.') + e),
    ensures
        crate::paths::path_with_extension(PathStyle::Unix, d.push('/') + (s.push('.') + e), new)
            == d.push('/') + (s.push('.') + new),
{
    let c = s.push('.') + e;
    let path = d.push('/') + c;
    lemma_name_in(Reading::Slash, d, '/', c);
    assert(path.skip(0) =~= path);
    lemma_dot(s, e);
    assert(path.take(0) + d.push('/') =~= d.push('/'));
    assert(d.push('/') + s + seq!['.'] + new =~= d.push('/') + (s.push('.') + new));
}

proof fn lemma_name_with(s: Seq<char>, e: Seq<char>)
    requires
        s.len() > 0,
        !s.contains('/'),
        !s.contains('\\'),
        e.len() > 0,
        !e.contains('/'),
        !e.contains('\\'),
    ensures
        is_name(s.push('.') + e),
{
    let c = s.push('.') + e;
    assert forall|i: int| 0 <= i < c.len() implies c[i] != '/' && c[i] != '\\' by {
        if i < s.len() {
            assert(s.contains(s[i]));
            assert(c[i] == s[i]);
        } else if i > s.len() {
            assert(c[i] == e[i - s.len() - 1]);
            assert(e.contains(e[i - s.len() - 1]));
        }
    }
    assert(c.len() > 2);
}

/// What belongs to a store lies beside it, under its name: its log, its shared memory, and what a repair
/// puts aside or builds anew.
pub proof fn what_belongs_to_a_store_lies_beside_it(
    path: &str,
    d: Seq<char>,
    s: Seq<char>,
    a: WalPaths,
    b: RepairPaths,
)
    requires
        call_ensures(wal_paths, (PathStyle::Unix, path), a),
        call_ensures(repair_paths, (PathStyle::Unix, path), b),
        path@ == d.push('/') + (s.push('.') + "db"@),
        is_name(s),
    ensures
        a.wal@ == d.push('/') + (s.push('.') + "db-wal"@),
        a.shm@ == d.push('/') + (s.push('.') + "db-shm"@),
        a.backup@ == d.push('/') + (s.push('.') + "db-wal.backup"@),
        b.wal@ == a.wal@,
        b.shm@ == a.shm@,
        b.wal_backup@ == d.push('/') + (s.push('.') + "db-wal.repair-backup"@),
        b.rebuilt@ == d.push('/') + (s.push('.') + "db-repair-tmp"@),
        b.damaged@ == d.push('/') + (s.push('.') + "db-pre-repair"@),
        b.marker@ == d.push('/') + (s.push('.') + "db-repair-needed"@),
{
    reveal_strlit("db");
    reveal_strlit("db-wal");
    lemma_name_with(s, "db"@);
    lemma_name_with(s, "db-wal"@);
    lemma_other_extension(d, s, "db"@, "db-wal"@);
    lemma_other_extension(d, s, "db"@, "db-shm"@);
    lemma_other_extension(d, s, "db-wal"@, "db-wal.backup"@);
    lemma_other_extension(d, s, "db-wal"@, "db-wal.repair-backup"@);
    lemma_other_extension(d, s, "db"@, "db-repair-tmp"@);
    lemma_other_extension(d, s, "db"@, "db-pre-repair"@);
    lemma_other_extension(d, s, "db"@, "db-repair-needed"@);
}

} // verus!

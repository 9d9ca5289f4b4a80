//! Paths as text, in the style of Unix or of Windows.
//!
//! Repeated separators, a separator at the end and components `.` behind another
//! component carry no meaning. On Windows a path may begin with a prefix, such as
//! a drive; behind the prefix `\\?\` only `\` separates, and `.` is a component
//! like any other.
use vstd::prelude::*;
use crate::host::is_separator;
use crate::text::{chars_of, join as join_texts, joined, string_of_range, views};

verus! {

/// How paths are written.
#[derive(Debug, Clone, Copy, PartialEq, Eq, Structural)]
pub enum PathStyle {
    Unix,
    Windows,
}

/// The style of a machine, given whether a backslash separates the components of its paths.
pub fn style_where(backslash_separates: bool) -> (r: PathStyle)
    ensures
        r == if backslash_separates {
            PathStyle::Windows
        } else {
            PathStyle::Unix
        },
{
    if backslash_separates {
        PathStyle::Windows
    } else {
        PathStyle::Unix
    }
}

/// The style of this machine. Which one it is depends on the machine, and nothing is claimed of it.
pub(crate) fn native_style() -> PathStyle {
    style_where(is_separator('\\'))
}

/// How what stands behind the prefix of a path is read.
#[derive(Debug, Clone, Copy, PartialEq, Eq, Structural)]
pub enum Reading {
    /// `/` separates.
    Slash,
    /// `/` and `\` separate.
    Both,
    /// `\` separates, and `.` carries a meaning.
    Verbatim,
}

/// Whether the character separates components.
pub open spec fn is_sep(r: Reading, c: char) -> bool {
    match r {
        Reading::Slash => c == '/',
        Reading::Both => c == '/' || c == '\\',
        Reading::Verbatim => c == '\\',
    }
}

fn separates(r: Reading, c: char) -> (b: bool)
    ensures
        b == is_sep(r, c),
{
    match r {
        Reading::Slash => c == '/',
        Reading::Both => c == '/' || c == '\\',
        Reading::Verbatim => c == '\\',
    }
}

/// Where the component that begins at `from` ends.
pub open spec fn component_end(r: Reading, s: Seq<char>, from: int) -> int
    decreases s.len() - from,
{
    if from < 0 || from >= s.len() || is_sep(r, s[from]) {
        from
    } else {
        component_end(r, s, from + 1)
    }
}

fn end_of_component(r: Reading, v: &Vec<char>, from: usize) -> (to: usize)
    requires
        from <= v@.len(),
    ensures
        to == component_end(r, v@, from as int),
        from <= to <= v@.len(),
{
    let mut to: usize = from;
    while to < v.len() && !separates(r, v[to])
        invariant
            from <= to <= v@.len(),
            component_end(r, v@, from as int) == component_end(r, v@, to as int),
        decreases v@.len() - to,
    {
        to += 1;
    }
    to
}

/// Where two components end that begin at `from` with a separator between them: the second counts
/// only where it is not empty.
pub open spec fn two_components_end(r: Reading, s: Seq<char>, from: int) -> int {
    let first = component_end(r, s, from);
    if first < s.len() && component_end(r, s, first + 1) > first + 1 {
        component_end(r, s, first + 1)
    } else {
        first
    }
}

fn end_of_two_components(r: Reading, v: &Vec<char>, from: usize) -> (to: usize)
    requires
        from <= v@.len(),
    ensures
        to == two_components_end(r, v@, from as int),
        from <= to <= v@.len(),
{
    let first = end_of_component(r, v, from);
    if first < v.len() {
        let second = end_of_component(r, v, first + 1);
        if second > first + 1 {
            return second;
        }
    }
    first
}

/// Whether a drive stands at the place: a letter and a colon.
pub open spec fn has_drive(s: Seq<char>, at: int) -> bool {
    &&& 0 <= at
    &&& at + 2 <= s.len()
    &&& ('a' <= s[at] <= 'z' || 'A' <= s[at] <= 'Z')
    &&& s[at + 1] == ':'
}

fn is_drive_at(v: &Vec<char>, at: usize) -> (r: bool)
    requires
        at <= v@.len(),
    ensures
        r == has_drive(v@, at as int),
{
    v.len() - at >= 2 && (('a' <= v[at] && v[at] <= 'z') || ('A' <= v[at] && v[at] <= 'Z')) && v[at
        + 1] == ':'
}

/// Whether a path begins with two separators.
pub open spec fn is_doubled(s: Seq<char>) -> bool {
    s.len() >= 2 && is_sep(Reading::Both, s[0]) && is_sep(Reading::Both, s[1])
}

/// Whether a path begins with `\\?\`.
pub open spec fn is_verbatim(s: Seq<char>) -> bool {
    s.len() >= 4 && s[0] == '\\' && s[1] == '\\' && s[2] == '?' && s[3] == '\\'
}

/// How many characters the prefix of a path has that begins with `\\?\`: a server and a share
/// behind `UNC\`, a drive, or one component.
pub open spec fn verbatim_prefix_len(s: Seq<char>) -> int {
    if s.len() >= 8 && s[4] == 'U' && s[5] == 'N' && s[6] == 'C' && is_sep(Reading::Both, s[7]) {
        two_components_end(Reading::Verbatim, s, 8)
    } else if has_drive(s, 4) && (s.len() == 6 || is_sep(Reading::Both, s[6])) {
        6
    } else {
        component_end(Reading::Verbatim, s, 4)
    }
}

/// How many characters the prefix of a path on Windows has: a drive, a device behind `\\.\`, or a
/// server and a share behind two separators, both of them not empty.
pub open spec fn windows_prefix_len(s: Seq<char>) -> int {
    if is_verbatim(s) {
        verbatim_prefix_len(s)
    } else if is_doubled(s) {
        if s.len() >= 4 && s[2] == '.' && is_sep(Reading::Both, s[3]) {
            component_end(Reading::Both, s, 4)
        } else {
            let server = component_end(Reading::Both, s, 2);
            if server > 2 && two_components_end(Reading::Both, s, 2) > server {
                two_components_end(Reading::Both, s, 2)
            } else {
                0
            }
        }
    } else if has_drive(s, 0) {
        2
    } else {
        0
    }
}

/// How many characters the prefix of a path has.
pub open spec fn prefix_len(style: PathStyle, s: Seq<char>) -> int {
    match style {
        PathStyle::Unix => 0,
        PathStyle::Windows => windows_prefix_len(s),
    }
}

fn prefix_length(style: PathStyle, v: &Vec<char>) -> (n: usize)
    ensures
        n == prefix_len(style, v@),
        n <= v@.len(),
{
    match style {
        PathStyle::Unix => 0,
        PathStyle::Windows => {
            if v.len() >= 4 && v[0] == '\\' && v[1] == '\\' && v[2] == '?' && v[3] == '\\' {
                if v.len() >= 8 && v[4] == 'U' && v[5] == 'N' && v[6] == 'C' && separates(
                    Reading::Both,
                    v[7],
                ) {
                    end_of_two_components(Reading::Verbatim, v, 8)
                } else if is_drive_at(v, 4) && (v.len() == 6 || separates(Reading::Both, v[6])) {
                    6
                } else {
                    end_of_component(Reading::Verbatim, v, 4)
                }
            } else if v.len() >= 2 && separates(Reading::Both, v[0]) && separates(
                Reading::Both,
                v[1],
            ) {
                if v.len() >= 4 && v[2] == '.' && separates(Reading::Both, v[3]) {
                    end_of_component(Reading::Both, v, 4)
                } else {
                    let server = end_of_component(Reading::Both, v, 2);
                    let share = end_of_two_components(Reading::Both, v, 2);
                    if server > 2 && share > server {
                        share
                    } else {
                        0
                    }
                }
            } else if is_drive_at(v, 0) {
                2
            } else {
                0
            }
        },
    }
}

/// The prefix of a path.
pub open spec fn prefix_of(style: PathStyle, s: Seq<char>) -> Seq<char> {
    s.take(prefix_len(style, s))
}

/// What stands behind the prefix of a path.
pub open spec fn body_of(style: PathStyle, s: Seq<char>) -> Seq<char> {
    s.skip(prefix_len(style, s))
}

/// How what stands behind the prefix of a path is read.
pub open spec fn reading_of(style: PathStyle, s: Seq<char>) -> Reading {
    match style {
        PathStyle::Unix => Reading::Slash,
        PathStyle::Windows => if is_verbatim(s) {
            Reading::Verbatim
        } else {
            Reading::Both
        },
    }
}

/// The prefix of a path, the characters behind it, and how they are read.
fn split_prefix(style: PathStyle, path: &str) -> (r: (String, Vec<char>, Reading))
    ensures
        r.0@ == prefix_of(style, path@),
        r.1@ == body_of(style, path@),
        r.2 == reading_of(style, path@),
        0 <= prefix_len(style, path@) <= path@.len(),
{
    let v = chars_of(path);
    let n = prefix_length(style, &v);
    let prefix = string_of_range(&v, 0, n);
    assert(prefix@ =~= path@.take(n as int));
    let rest = string_of_range(&v, n, v.len());
    let body = chars_of(rest.as_str());
    assert(body@ =~= path@.skip(n as int));
    let reading = match style {
        PathStyle::Unix => Reading::Slash,
        PathStyle::Windows => if v.len() >= 4 && v[0] == '\\' && v[1] == '\\' && v[2] == '?' && v[3]
            == '\\' {
            Reading::Verbatim
        } else {
            Reading::Both
        },
    };
    (prefix, body, reading)
}

/// What stands behind a prefix, without the separators and `.` components at its end.
pub open spec fn stripped(r: Reading, s: Seq<char>) -> Seq<char>
    decreases s.len(),
{
    if s.len() > 0 && is_sep(r, s.last()) {
        stripped(r, s.drop_last())
    } else if r != Reading::Verbatim && s.len() >= 2 && s.last() == '.' && is_sep(r, s[s.len() - 2]) {
        stripped(r, s.drop_last())
    } else {
        s
    }
}

/// What stands behind the last separator of a text.
pub open spec fn last_component(r: Reading, s: Seq<char>) -> Seq<char>
    decreases s.len(),
{
    if s.len() == 0 || is_sep(r, s.last()) {
        seq![]
    } else {
        last_component(r, s.drop_last()).push(s.last())
    }
}

/// Whether a component names something, rather than the same or the parent directory.
pub open spec fn is_plain_component(c: Seq<char>) -> bool {
    c.len() > 0 && c != seq!['.'] && c != seq!['.', '.']
}

/// The last component behind a prefix, where it is a plain name.
pub open spec fn name_in(r: Reading, body: Seq<char>) -> Option<Seq<char>> {
    let c = last_component(r, stripped(r, body));
    if is_plain_component(c) {
        Some(c)
    } else {
        None
    }
}

/// What stands behind a prefix, without its last component.
pub open spec fn directory_in(r: Reading, body: Seq<char>) -> Seq<char> {
    let b = stripped(r, body);
    b.take(b.len() - last_component(r, b).len())
}

/// The last component of a path, where it is a plain name.
pub open spec fn file_name_of(style: PathStyle, s: Seq<char>) -> Option<Seq<char>> {
    name_in(reading_of(style, s), body_of(style, s))
}

/// The last component but one of a path, where it is a plain name.
pub open spec fn parent_name_of(style: PathStyle, s: Seq<char>) -> Option<Seq<char>> {
    let r = reading_of(style, s);
    name_in(r, directory_in(r, body_of(style, s)))
}

/// A path without its last component.
pub open spec fn directory_of(style: PathStyle, s: Seq<char>) -> Seq<char> {
    prefix_of(style, s) + directory_in(reading_of(style, s), body_of(style, s))
}

/// Where the extension of a file name begins: its last dot, if that is not its first character.
pub open spec fn is_extension_dot(name: Seq<char>, dot: int) -> bool {
    &&& 0 < dot < name.len()
    &&& name[dot] == '.'
    &&& forall|k: int| dot < k < name.len() ==> name[k] != '.'
}

/// A file name without its extension.
pub open spec fn stem_of(name: Seq<char>) -> Seq<char> {
    if exists|dot: int| is_extension_dot(name, dot) {
        name.take(choose|dot: int| is_extension_dot(name, dot))
    } else {
        name
    }
}

/// The extension of a file name.
pub open spec fn extension_of(name: Seq<char>) -> Option<Seq<char>> {
    if exists|dot: int| is_extension_dot(name, dot) {
        Some(name.skip((choose|dot: int| is_extension_dot(name, dot)) + 1))
    } else {
        None
    }
}

/// Where the last component of `v[..upto]` begins and ends.
fn last_component_range(r: Reading, v: &Vec<char>, upto: usize) -> (range: (usize, usize))
    requires
        upto <= v@.len(),
    ensures
        range.0 <= range.1 <= upto,
        v@.take(range.1 as int) == stripped(r, v@.take(upto as int)),
        v@.subrange(range.0 as int, range.1 as int) == last_component(
            r,
            stripped(r, v@.take(upto as int)),
        ),
        v@.take(range.0 as int) == directory_in(r, v@.take(upto as int)),
{
    let ghost s = v@.take(upto as int);
    let dots = r != Reading::Verbatim;
    let mut to: usize = upto;
    while to > 0 && (separates(r, v[to - 1]) || (dots && to >= 2 && v[to - 1] == '.' && separates(
        r,
        v[to - 2],
    )))
        invariant
            dots == (r != Reading::Verbatim),
            to <= upto <= v@.len(),
            stripped(r, s) == stripped(r, v@.take(to as int)),
        decreases to,
    {
        assert(v@.take(to as int).drop_last() =~= v@.take(to - 1));
        to -= 1;
    }
    let ghost b = stripped(r, s);
    assert(b == v@.take(to as int));
    let mut from: usize = to;
    assert(v@.subrange(to as int, to as int) =~= Seq::<char>::empty());
    assert(last_component(r, b) =~= last_component(r, v@.take(from as int)) + v@.subrange(
        from as int,
        to as int,
    ));
    while from > 0 && !separates(r, v[from - 1])
        invariant
            from <= to <= v@.len(),
            last_component(r, b) == last_component(r, v@.take(from as int)) + v@.subrange(
                from as int,
                to as int,
            ),
        decreases from,
    {
        assert(v@.take(from as int).drop_last() =~= v@.take(from - 1));
        assert(last_component(r, v@.take(from - 1)).push(v@[from - 1]) + v@.subrange(
            from as int,
            to as int,
        ) =~= last_component(r, v@.take(from - 1)) + v@.subrange(from - 1, to as int));
        from -= 1;
    }
    assert(last_component(r, v@.take(from as int)) =~= Seq::<char>::empty());
    assert(last_component(r, b) =~= v@.subrange(from as int, to as int));
    assert(b.take(from as int) =~= v@.take(from as int));
    (from, to)
}

fn is_plain_range(v: &Vec<char>, from: usize, to: usize) -> (r: bool)
    requires
        from <= to <= v@.len(),
    ensures
        r == is_plain_component(v@.subrange(from as int, to as int)),
{
    let ghost c = v@.subrange(from as int, to as int);
    let n: usize = to - from;
    if n == 0 {
        false
    } else if n == 1 && v[from] == '.' {
        assert(c =~= seq!['.']);
        false
    } else if n == 2 && v[from] == '.' && v[from + 1] == '.' {
        assert(c =~= seq!['.', '.']);
        false
    } else {
        assert(c[0] == v@[from as int]);
        assert(n >= 2 ==> c[1] == v@[from + 1]);
        assert(seq!['.'].len() == 1 && seq!['.'][0] == '.');
        assert(seq!['.', '.'].len() == 2 && seq!['.', '.'][0] == '.' && seq!['.', '.'][1] == '.');
        true
    }
}

/// The last component of `path`, where it is a plain name.
pub fn file_name(style: PathStyle, path: &str) -> (r: Option<String>)
    ensures
        match r {
            Some(name) => file_name_of(style, path@) == Some(name@),
            None => file_name_of(style, path@) is None,
        },
{
    let (_, v, reading) = split_prefix(style, path);
    assert(v@.take(v@.len() as int) =~= v@);
    let (from, to) = last_component_range(reading, &v, v.len());
    if is_plain_range(&v, from, to) {
        Some(string_of_range(&v, from, to))
    } else {
        None
    }
}

/// The name of the directory that holds the last component of `path`.
pub fn parent_name(style: PathStyle, path: &str) -> (r: Option<String>)
    ensures
        match r {
            Some(name) => parent_name_of(style, path@) == Some(name@),
            None => parent_name_of(style, path@) is None,
        },
{
    let (_, v, reading) = split_prefix(style, path);
    assert(v@.take(v@.len() as int) =~= v@);
    let (cut, _) = last_component_range(reading, &v, v.len());
    let (from, to) = last_component_range(reading, &v, cut);
    if is_plain_range(&v, from, to) {
        Some(string_of_range(&v, from, to))
    } else {
        None
    }
}

/// Where the extension of the name `v[from..to]` begins.
fn extension_dot(v: &Vec<char>, from: usize, to: usize) -> (r: Option<usize>)
    requires
        from <= to <= v@.len(),
    ensures
        match r {
            Some(dot) => from < dot < to && is_extension_dot(
                v@.subrange(from as int, to as int),
                dot - from,
            ),
            None => forall|dot: int|
                !is_extension_dot(v@.subrange(from as int, to as int), dot),
        },
{
    let ghost name = v@.subrange(from as int, to as int);
    let mut dot: usize = to;
    while dot > from
        invariant
            from <= dot <= to <= v@.len(),
            name == v@.subrange(from as int, to as int),
            forall|k: int| dot - from <= k < name.len() ==> name[k] != '.',
        decreases dot,
    {
        dot -= 1;
        if v[dot] == '.' {
            if dot > from {
                return Some(dot);
            }
            assert(name[0] == '.');
            return None;
        }
        assert(name[dot - from] == v@[dot as int]);
    }
    None
}

proof fn lemma_extension_dot_unique(name: Seq<char>, a: int, b: int)
    requires
        is_extension_dot(name, a),
        is_extension_dot(name, b),
    ensures
        a == b,
{
    if a < b {
        assert(name[b] != '.');
    } else if b < a {
        assert(name[a] != '.');
    }
}

/// The last component of `path` without its extension.
pub fn file_stem(style: PathStyle, path: &str) -> (r: Option<String>)
    ensures
        match file_name_of(style, path@) {
            Some(name) => r is Some && r->0@ == stem_of(name),
            None => r is None,
        },
{
    let (_, v, reading) = split_prefix(style, path);
    assert(v@.take(v@.len() as int) =~= v@);
    let (from, to) = last_component_range(reading, &v, v.len());
    if !is_plain_range(&v, from, to) {
        return None;
    }
    let ghost name = v@.subrange(from as int, to as int);
    match extension_dot(&v, from, to) {
        Some(dot) => {
            proof {
                let d = choose|d: int| is_extension_dot(name, d);
                assert(is_extension_dot(name, dot - from));
                lemma_extension_dot_unique(name, dot - from, d);
                assert(v@.subrange(from as int, dot as int) =~= name.take(d));
            }
            Some(string_of_range(&v, from, dot))
        },
        None => Some(string_of_range(&v, from, to)),
    }
}

/// The extension of the last component of `path`.
pub fn extension(style: PathStyle, path: &str) -> (r: Option<String>)
    ensures
        match r {
            Some(e) => {
                &&& file_name_of(style, path@) is Some
                &&& extension_of(file_name_of(style, path@)->0) == Some(e@)
            },
            None => {
                ||| file_name_of(style, path@) is None
                ||| extension_of(file_name_of(style, path@)->0) is None
            },
        },
{
    let (_, v, reading) = split_prefix(style, path);
    assert(v@.take(v@.len() as int) =~= v@);
    let (from, to) = last_component_range(reading, &v, v.len());
    if !is_plain_range(&v, from, to) {
        return None;
    }
    let ghost name = v@.subrange(from as int, to as int);
    match extension_dot(&v, from, to) {
        Some(dot) => {
            proof {
                let d = choose|d: int| is_extension_dot(name, d);
                assert(is_extension_dot(name, dot - from));
                lemma_extension_dot_unique(name, dot - from, d);
                assert(v@.subrange(dot + 1, to as int) =~= name.skip(d + 1));
            }
            Some(string_of_range(&v, dot + 1, to))
        },
        None => None,
    }
}

/// A path whose file name has another extension, or the path itself where it has no file name.
pub open spec fn path_with_extension(style: PathStyle, s: Seq<char>, ext: Seq<char>) -> Seq<char> {
    match file_name_of(style, s) {
        Some(name) => directory_of(style, s) + stem_of(name) + seq!['.'] + ext,
        None => s,
    }
}

/// `path` with the extension `ext`, which is not empty, in place of its own.
pub fn with_extension(style: PathStyle, path: &str, ext: &str) -> (r: String)
    requires
        ext@.len() > 0,
    ensures
        r@ == path_with_extension(style, path@, ext@),
{
    let (prefix, v, reading) = split_prefix(style, path);
    assert(v@.take(v@.len() as int) =~= v@);
    let (from, to) = last_component_range(reading, &v, v.len());
    if !is_plain_range(&v, from, to) {
        return path.to_owned();
    }
    let mut r = prefix;
    r.push_str(string_of_range(&v, 0, from).as_str());
    assert(r@ =~= directory_of(style, path@));
    match file_stem(style, path) {
        Some(stem) => r.push_str(stem.as_str()),
        None => {},
    }
    r.push('.');
    r.push_str(ext);
    assert(r@ =~= path_with_extension(style, path@, ext@));
    r
}

/// The components of a text, each a maximal run of characters that do not separate.
pub open spec fn runs(r: Reading, s: Seq<char>) -> Seq<Seq<char>>
    decreases s.len(),
{
    if s.len() == 0 {
        seq![]
    } else {
        let p = s.drop_last();
        if is_sep(r, s.last()) {
            runs(r, p)
        } else if p.len() == 0 || is_sep(r, p.last()) {
            runs(r, p).push(seq![s.last()])
        } else {
            runs(r, p).drop_last().push(runs(r, p).last().push(s.last()))
        }
    }
}

fn split_runs(reading: Reading, v: &Vec<char>) -> (r: Vec<String>)
    ensures
        views(r@) == runs(reading, v@),
{
    let mut done: Vec<String> = Vec::new();
    let mut run = String::new();
    let mut in_run = false;
    let mut i: usize = 0;
    assert(v@.take(0) =~= Seq::<char>::empty());
    assert(views(done@) =~= Seq::<Seq<char>>::empty());
    while i < v.len()
        invariant
            i <= v@.len(),
            in_run == (i > 0 && !is_sep(reading, v@[i - 1])),
            in_run ==> runs(reading, v@.take(i as int)) == views(done@).push(run@),
            !in_run ==> runs(reading, v@.take(i as int)) == views(done@) && run@ == Seq::<
                char,
            >::empty(),
        decreases v@.len() - i,
    {
        let c = v[i];
        let ghost p = v@.take(i as int);
        assert(v@.take(i + 1).drop_last() =~= p);
        assert(i > 0 ==> p.last() == v@[i - 1]);
        if separates(reading, c) {
            if in_run {
                let ghost before = done@;
                let ghost last = run@;
                done.push(run);
                assert(views(done@) =~= views(before).push(last));
                run = String::new();
                in_run = false;
            }
        } else {
            let ghost before = run@;
            run.push(c);
            if in_run {
                assert(views(done@).push(before).drop_last() =~= views(done@));
            } else {
                assert(run@ =~= seq![c]);
            }
            in_run = true;
        }
        i += 1;
    }
    assert(v@.take(v@.len() as int) =~= v@);
    if in_run {
        let ghost before = done@;
        let ghost last = run@;
        done.push(run);
        assert(views(done@) =~= views(before).push(last));
    }
    done
}

/// Where one more component leads: `.` nowhere, and `..` out of a directory with a name.
pub open spec fn stepped(at: Seq<Seq<char>>, c: Seq<char>) -> Seq<Seq<char>> {
    if c == seq!['.'] {
        at
    } else if c == seq!['.', '.'] {
        if at.len() > 0 && is_plain_component(at.last()) {
            at.drop_last()
        } else {
            at
        }
    } else {
        at.push(c)
    }
}

/// Where components lead, one after the other.
pub open spec fn walked(at: Seq<Seq<char>>, parts: Seq<Seq<char>>) -> Seq<Seq<char>>
    decreases parts.len(),
{
    if parts.len() == 0 {
        at
    } else {
        stepped(walked(at, parts.drop_last()), parts.last())
    }
}

/// The path `p`, which is not empty and has no prefix, as seen from `base`, which begins with
/// `\\?\`: no `.` and `..` of `p` is left.
pub open spec fn joined_verbatim(base: Seq<char>, p: Seq<char>) -> Seq<char> {
    let body = body_of(PathStyle::Windows, base);
    let rooted = is_sep(Reading::Both, p[0]);
    let from = if rooted {
        seq![]
    } else {
        runs(Reading::Verbatim, body)
    };
    let parts = walked(from, runs(Reading::Both, p));
    let root = rooted || (body.len() > 0 && body[0] == '\\') || parts.len() > 0;
    prefix_of(PathStyle::Windows, base) + (if root {
        seq!['\\']
    } else {
        seq![]
    }) + joined(parts, "\\"@)
}

/// The character that is put between two components.
pub open spec fn main_separator(style: PathStyle) -> char {
    match style {
        PathStyle::Unix => '/',
        PathStyle::Windows => '\\',
    }
}

/// The path `p` as seen from `base`: `p` itself where it has a prefix, or a root and Unix's style;
/// behind the prefix of `base` where it has a root alone; and otherwise behind `base`, with a
/// separator where `base` needs one.
pub open spec fn joined_path(style: PathStyle, base: Seq<char>, p: Seq<char>) -> Seq<char> {
    let rooted = p.len() > 0 && is_sep(reading_of(style, p), p[0]);
    if prefix_len(style, p) > 0 || (rooted && style == PathStyle::Unix) {
        p
    } else if p.len() > 0 && reading_of(style, base) == Reading::Verbatim {
        joined_verbatim(base, p)
    } else if rooted {
        prefix_of(style, base) + p
    } else if needs_separator(style, base) {
        base.push(main_separator(style)) + p
    } else {
        base + p
    }
}

/// Whether a separator must stand between a path and what follows it: the path is not empty, does
/// not end with one, and is no bare drive.
pub open spec fn needs_separator(style: PathStyle, base: Seq<char>) -> bool {
    &&& base.len() > 0
    &&& !is_sep(
        if style == PathStyle::Unix {
            Reading::Slash
        } else {
            Reading::Both
        },
        base.last(),
    )
    &&& !(style == PathStyle::Windows && base.len() == 2 && has_drive(base, 0))
}

/// A text of dots.
pub open spec fn dots(n: nat) -> Seq<char> {
    Seq::new(n, |i: int| '.')
}

fn is_dots(s: &String, n: usize) -> (r: bool)
    ensures
        r == (s@ == dots(n as nat)),
{
    let v = chars_of(s.as_str());
    let mut i: usize = 0;
    while i < v.len() && v[i] == '.'
        invariant
            i <= v@.len(),
            v@ == s@,
            forall|k: int| 0 <= k < i ==> v@[k] == '.',
        decreases v@.len() - i,
    {
        i += 1;
    }
    proof {
        if i == v@.len() && v@.len() == n {
            assert(s@ =~= dots(n as nat));
        }
        if s@ == dots(n as nat) && i < v@.len() {
            assert(s@[i as int] == '.');
        }
    }
    i == v.len() && v.len() == n
}

fn walk(at: Vec<String>, parts: &Vec<String>) -> (r: Vec<String>)
    ensures
        views(r@) == walked(views(at@), views(parts@)),
{
    let ghost start = views(at@);
    let ghost texts = views(parts@);
    let mut r = at;
    let mut i: usize = 0;
    assert(texts.take(0) =~= Seq::<Seq<char>>::empty());
    assert(dots(1) =~= seq!['.'] && dots(2) =~= seq!['.', '.']);
    while i < parts.len()
        invariant
            i <= parts@.len(),
            texts == views(parts@),
            dots(1) == seq!['.'] && dots(2) == seq!['.', '.'],
            views(r@) == walked(start, texts.take(i as int)),
        decreases parts@.len() - i,
    {
        assert(texts.take(i + 1).drop_last() =~= texts.take(i as int));
        assert(texts[i as int] == parts@[i as int]@);
        let ghost before = r@;
        if is_dots(&parts[i], 1) {
        } else if is_dots(&parts[i], 2) {
            if r.len() > 0 {
                let last = r.len() - 1;
                assert(views(r@).last() == r@[last as int]@);
                if !r[last].as_str().is_empty() && !is_dots(&r[last], 1) && !is_dots(&r[last], 2) {
                    r.pop();
                    assert(views(r@) =~= views(before).drop_last());
                }
            }
        } else {
            r.push(parts[i].clone());
            assert(views(r@) =~= views(before).push(parts@[i as int]@));
        }
        i += 1;
    }
    assert(texts.take(texts.len() as int) =~= texts);
    r
}

fn join_verbatim(base: &str, p: &str) -> (r: String)
    requires
        p@.len() > 0,
        is_verbatim(base@),
    ensures
        r@ == joined_verbatim(base@, p@),
{
    let (prefix, body, _) = split_prefix(PathStyle::Windows, base);
    let q = chars_of(p);
    let rooted = separates(Reading::Both, q[0]);
    let from: Vec<String> = if rooted {
        Vec::new()
    } else {
        split_runs(Reading::Verbatim, &body)
    };
    assert(rooted ==> views(from@) =~= Seq::<Seq<char>>::empty());
    let steps = split_runs(Reading::Both, &q);
    let parts = walk(from, &steps);
    assert(views(parts@).len() == parts@.len());
    let mut r = prefix;
    if rooted || (body.len() > 0 && body[0] == '\\') || parts.len() > 0 {
        r.push('\\');
    }
    r.push_str(join_texts(&parts, "\\").as_str());
    assert(r@ =~= joined_verbatim(base@, p@));
    r
}

/// The path `p` as seen from `base`.
pub fn join(style: PathStyle, base: &str, p: &str) -> (r: String)
    ensures
        r@ == joined_path(style, base@, p@),
{
    let q = chars_of(p);
    let (p_prefix, _, p_reading) = split_prefix(style, p);
    let rooted = q.len() > 0 && separates(p_reading, q[0]);
    let unix = style == PathStyle::Unix;
    assert(p_prefix@.len() == prefix_len(style, p@));
    if !p_prefix.as_str().is_empty() || (rooted && unix) {
        return p.to_owned();
    }
    let (base_prefix, _, base_reading) = split_prefix(style, base);
    if q.len() > 0 && base_reading == Reading::Verbatim {
        return join_verbatim(base, p);
    }
    if rooted {
        let mut r = base_prefix;
        r.push_str(p);
        return r;
    }
    let b = chars_of(base);
    let reading = if unix {
        Reading::Slash
    } else {
        Reading::Both
    };
    let mut r = base.to_owned();
    if b.len() > 0 && !separates(reading, b[b.len() - 1]) && (unix || b.len() != 2 || !is_drive_at(
        &b,
        0,
    )) {
        r.push(
            if unix {
                '/'
            } else {
                '\\'
            },
        );
    }
    r.push_str(p);
    r
}

/// The path of the directory that holds the last component of a path; a root has none, nor has a
/// bare prefix, nor the empty path.
pub open spec fn parent_of(style: PathStyle, s: Seq<char>) -> Option<Seq<char>> {
    let r = reading_of(style, s);
    let body = body_of(style, s);
    if stripped(r, body).len() == 0 {
        None
    } else {
        let d = directory_in(r, body);
        if d.len() > 0 && stripped(r, d).len() == 0 {
            Some(prefix_of(style, s).push(body[0]))
        } else {
            Some(prefix_of(style, s) + stripped(r, d))
        }
    }
}

/// The path of the directory that holds the last component of `path`.
pub fn parent(style: PathStyle, path: &str) -> (r: Option<String>)
    ensures
        match r {
            Some(p) => parent_of(style, path@) == Some(p@),
            None => parent_of(style, path@) is None,
        },
{
    let (prefix, v, reading) = split_prefix(style, path);
    assert(v@.take(v@.len() as int) =~= v@);
    let (from, to) = last_component_range(reading, &v, v.len());
    assert(v@.take(to as int).len() == to);
    if to == 0 {
        return None;
    }
    let (_, end) = last_component_range(reading, &v, from);
    assert(v@.take(end as int).len() == end);
    assert(v@.take(from as int).len() == from);
    let mut r = prefix;
    if from > 0 && end == 0 {
        r.push(v[0]);
    } else {
        assert(v@.subrange(0, end as int) =~= v@.take(end as int));
        r.push_str(string_of_range(&v, 0, end).as_str());
    }
    Some(r)
}

} // verus!

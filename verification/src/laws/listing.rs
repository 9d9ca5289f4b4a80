//! What holds of listing projects and sessions from the tools' own files.
use vstd::prelude::*;
use crate::json::{field, json_of_text, JsonView};
use crate::order::{arranged, arranging_keeps_all, is_ranking};
use crate::paths::PathStyle;
use crate::reader::{
    are_infos_of, cwd_of_files, cwd_of_line, first_cwd, first_holder, is_recent, is_session_file,
    is_wanted, latest_mtime, lookup, project_dirs, scan_of, scan_project_dir, session_files,
    told_by_projects, told_by_sessions, wanted, without_suffix, DirFile, DirProbe, ProjectDir,
    ProjectInfo, SessionReader,
};
use crate::session::{SessionMeta, Source};
use crate::text::{begins_with, finishes_with, trimmed};

verus! {

/// Whether one time of activity is no earlier than another; never comes before any time.
pub open spec fn no_earlier(a: Option<u64>, b: Option<u64>) -> bool {
    match (a, b) {
        (_, None) => true,
        (None, Some(_)) => false,
        (Some(x), Some(y)) => x >= y,
    }
}

proof fn lemma_session_files_filtered(files: Seq<DirFile>)
    ensures
        session_files(files) == files.filter(|f: DirFile| is_session_file(f)),
    decreases files.len(),
{
    reveal(Seq::filter);
    if files.len() > 0 {
        lemma_session_files_filtered(files.drop_last());
    }
    assert(session_files(files) =~= files.filter(|f: DirFile| is_session_file(f)));
}

proof fn lemma_session_file_kept(files: Seq<DirFile>, f: DirFile)
    ensures
        session_files(files).contains(f) <==> files.contains(f) && is_session_file(f),
    decreases files.len(),
{
    let q = session_files(files);
    if files.len() > 0 {
        let d = files.drop_last();
        let p = session_files(d);
        lemma_session_file_kept(d, f);
        if q.contains(f) {
            let k = choose|k: int| 0 <= k < q.len() && q[k] == f;
            if k < p.len() {
                assert(p[k] == f);
                let i = choose|i: int| 0 <= i < d.len() && d[i] == f;
                assert(files[i] == f);
            } else {
                assert(files[files.len() - 1] == f);
            }
        }
        if files.contains(f) && is_session_file(f) {
            let i = choose|i: int| 0 <= i < files.len() && files[i] == f;
            if i < d.len() {
                assert(d[i] == f);
                let k = choose|k: int| 0 <= k < p.len() && p[k] == f;
                assert(q[k] == f);
            } else {
                assert(q[q.len() - 1] == f);
            }
        }
    }
}

proof fn lemma_latest(files: Seq<DirFile>)
    ensures
        match latest_mtime(files) {
            Some(t) => {
                &&& exists|i: int| 0 <= i < files.len() && (#[trigger] files[i]).mtime == Some(t)
                &&& forall|i: int|
                    0 <= i < files.len() && (#[trigger] files[i]).mtime is Some ==> files[i].mtime->0
                        <= t
            },
            None => forall|i: int| 0 <= i < files.len() ==> (#[trigger] files[i]).mtime is None,
        },
    decreases files.len(),
{
    if files.len() > 0 {
        let d = files.drop_last();
        lemma_latest(d);
        assert forall|i: int| 0 <= i < d.len() implies #[trigger] files[i] == d[i] by {}
        assert(files.last() == files[files.len() - 1]);
        if latest_mtime(d) is Some {
            let i = choose|i: int|
                0 <= i < d.len() && (#[trigger] d[i]).mtime == Some(latest_mtime(d)->0);
            assert(files[i].mtime == latest_mtime(d));
        }
    }
}

/// A project was last active when the last of its session files was modified: one of them has that
/// time, none has a later one, and there is no such time exactly where none is known.
pub proof fn last_activity_is_the_latest(
    files: Seq<DirFile>,
    last_active: Option<u64>,
)
    requires
        last_active == latest_mtime(session_files(files)),
    ensures
        match last_active {
            Some(t) => {
                &&& exists|i: int|
                    0 <= i < files.len() && is_session_file(#[trigger] files[i]) && files[i].mtime
                        == Some(t)
                &&& forall|i: int|
                    0 <= i < files.len() && is_session_file(#[trigger] files[i]) && files[i].mtime
                        is Some ==> files[i].mtime->0 <= t
            },
            None => forall|i: int|
                0 <= i < files.len() && is_session_file(#[trigger] files[i]) ==> files[i].mtime
                    is None,
        },
{
    let s = session_files(files);
    lemma_latest(s);
    assert forall|i: int| 0 <= i < files.len() && is_session_file(#[trigger] files[i]) implies exists|
        k: int,
    |
        0 <= k < s.len() && #[trigger] s[k] == files[i] by {
        lemma_session_file_kept(files, files[i]);
        assert(files.contains(files[i]));
        let k = choose|k: int| 0 <= k < s.len() && s[k] == files[i];
        assert(s[k] == files[i]);
    }
    if let Some(t) = last_active {
        let k = choose|k: int| 0 <= k < s.len() && (#[trigger] s[k]).mtime == Some(t);
        lemma_session_file_kept(files, s[k]);
        assert(s.contains(s[k]));
        let i = choose|i: int| 0 <= i < files.len() && files[i] == s[k];
        assert(is_session_file(files[i]));
    }
}

proof fn lemma_suffix_cut(s: Seq<char>, suffix: Seq<char>)
    requires
        suffix.len() > 0,
    ensures
        without_suffix(s + suffix, suffix) == without_suffix(s, suffix),
{
    let t = s + suffix;
    assert(t.subrange(t.len() - suffix.len(), t.len() as int) =~= suffix);
    assert(finishes_with(t, suffix));
    assert(t.take(t.len() - suffix.len()) =~= s);
}

proof fn lemma_agent_stays(s: Seq<char>)
    requires
        begins_with(s, "agent-"@),
    ensures
        begins_with(without_suffix(s, ".jsonl"@), "agent-"@),
    decreases s.len(),
{
    reveal_strlit("agent-");
    reveal_strlit(".jsonl");
    if finishes_with(s, ".jsonl"@) {
        let n = s.len() - 6;
        let t = s.take(n);
        let a = s.subrange(0, 6);
        let e = s.subrange(n, n + 6);
        assert(forall|i: int| 0 <= i < 6 ==> a[i] == s[i]);
        assert(forall|i: int| 0 <= i < 6 ==> e[i] == s[n + i]);
        assert(a[0] == 'a' && a[1] == 'g' && a[2] == 'e' && a[3] == 'n' && a[4] == 't' && a[5]
            == '-');
        assert(e[0] == '.' && e[1] == 'j' && e[2] == 's' && e[3] == 'o' && e[4] == 'n' && e[5]
            == 'l');
        if n < 6 {
            if n == 0 {
                assert(a[0] == e[0]);
            } else if n == 1 {
                assert(a[1] == e[0]);
            } else if n == 2 {
                assert(a[2] == e[0]);
            } else if n == 3 {
                assert(a[3] == e[0]);
            } else if n == 4 {
                assert(a[4] == e[0]);
            } else {
                assert(a[5] == e[0]);
            }
        }
        assert(t.subrange(0, 6) =~= a);
        lemma_agent_stays(t);
    }
}

/// A file is taken for a session exactly as its name says: a plain file named by an id and `.jsonl`
/// is one, and one whose id begins with `agent-` or that is named otherwise is none.
pub proof fn session_files_are_named(f: DirFile, id: Seq<char>)
    ensures
        f.is_file && f.name@ == id + ".jsonl"@ && id.len() > 0 && !finishes_with(id, ".jsonl"@)
            && !begins_with(id, "agent-"@) ==> is_session_file(f),
        f.name@ == "agent-"@ + id + ".jsonl"@ ==> !is_session_file(f),
        f.name@ == ".jsonl"@ ==> !is_session_file(f),
        !finishes_with(f.name@, ".jsonl"@) ==> !is_session_file(f),
        !f.is_file ==> !is_session_file(f),
{
    reveal_strlit("agent-");
    reveal_strlit(".jsonl");
    let suffix = ".jsonl"@;
    if f.name@ == id + suffix {
        lemma_suffix_cut(id, suffix);
        assert(f.name@.subrange(f.name@.len() - 6, f.name@.len() as int) =~= suffix);
    }
    if f.name@ == "agent-"@ + id + suffix {
        assert(f.name@.subrange(0, 6) =~= "agent-"@);
        lemma_agent_stays(f.name@);
    }
    if f.name@ == suffix {
        assert(Seq::<char>::empty() + suffix =~= suffix);
        lemma_suffix_cut(Seq::empty(), suffix);
        assert(without_suffix(Seq::empty(), suffix).len() == 0);
    }
}

/// The sessions of a project are counted: each session file once, and nothing else.
pub proof fn sessions_are_counted(files: Vec<DirFile>, name: Seq<char>)
    ensures
        scan_of(Some(files), name).1 == files@.filter(|f: DirFile| is_session_file(f)).len(),
        scan_of(None, name) == (name, 0nat, None::<u64>),
{
    lemma_session_files_filtered(files@);
}

proof fn lemma_cwd_of_lines(lines: Seq<Option<String>>, i: int)
    requires
        0 <= i,
    ensures
        match first_cwd(lines, i) {
            Some(cwd) => exists|j: int|
                #![trigger lines[j]]
                {
                    &&& i <= j < lines.len()
                    &&& j < 10
                    &&& lines[j] is Some
                    &&& cwd_of_line(lines[j]->0@, json_of_text(lines[j]->0@)) == Some(cwd)
                    &&& forall|k: int|
                        i <= k < j ==> (#[trigger] lines[k]) is Some && cwd_of_line(
                            lines[k]->0@,
                            json_of_text(lines[k]->0@),
                        ) is None
                },
            None => forall|j: int|
                #![trigger lines[j]]
                i <= j < lines.len() && j < 10 && (forall|k: int|
                    i <= k <= j ==> (#[trigger] lines[k]) is Some) ==> cwd_of_line(
                    lines[j]->0@,
                    json_of_text(lines[j]->0@),
                ) is None,
        },
    decreases lines.len() - i,
{
    if i < lines.len() && i < 10 && lines[i] is Some && cwd_of_line(
        lines[i]->0@,
        json_of_text(lines[i]->0@),
    ) is None {
        lemma_cwd_of_lines(lines, i + 1);
        if first_cwd(lines, i) is None {
            assert forall|j: int|
                #![trigger lines[j]]
                i <= j < lines.len() && j < 10 && (forall|k: int|
                    i <= k <= j ==> (#[trigger] lines[k]) is Some) implies cwd_of_line(
                lines[j]->0@,
                json_of_text(lines[j]->0@),
            ) is None by {}
        }
    } else if i < lines.len() && i < 10 {
        assert(lines[i] is Some || lines[i] is None);
    }
}

/// The working directory of a session is what the first of its ten first lines says that names one
/// under `cwd`; reading stops at a line that cannot be read.
pub proof fn first_line_tells_the_directory(lines: Seq<Option<String>>)
    ensures
        match first_cwd(lines, 0) {
            Some(cwd) => exists|j: int|
                #![trigger lines[j]]
                {
                    &&& 0 <= j < lines.len()
                    &&& j < 10
                    &&& lines[j] is Some
                    &&& cwd_of_line(lines[j]->0@, json_of_text(lines[j]->0@)) == Some(cwd)
                    &&& forall|k: int|
                        0 <= k < j ==> (#[trigger] lines[k]) is Some && cwd_of_line(
                            lines[k]->0@,
                            json_of_text(lines[k]->0@),
                        ) is None
                },
            None => forall|j: int|
                #![trigger lines[j]]
                0 <= j < lines.len() && j < 10 && (forall|k: int|
                    0 <= k <= j ==> (#[trigger] lines[k]) is Some) ==> cwd_of_line(
                    lines[j]->0@,
                    json_of_text(lines[j]->0@),
                ) is None,
        },
{
    lemma_cwd_of_lines(lines, 0);
}

/// A line that says something as JSON names the text under its key `cwd`, and nothing where that is
/// missing or no text.
pub proof fn line_names_its_cwd(line: Seq<char>, v: JsonView, cwd: Seq<char>)
    requires
        trimmed(line).len() > 0,
    ensures
        cwd_of_line(line, Some(v)) == Some(cwd) <==> field(v, "cwd"@) == Some(JsonView::Text(cwd)),
        cwd_of_line(line, None) is None,
{
}

/// The path of a project is the working directory that the first of its sessions names that names
/// one, and the name of its directory where none does.
pub proof fn first_session_tells_the_path(files: Seq<DirFile>)
    ensures
        match cwd_of_files(files) {
            Some(cwd) => exists|i: int|
                #![trigger files[i]]
                {
                    &&& 0 <= i < files.len()
                    &&& first_cwd(files[i].lines@, 0) == Some(cwd)
                    &&& forall|k: int| 0 <= k < i ==> first_cwd((#[trigger] files[k]).lines@, 0) is None
                },
            None => forall|k: int|
                0 <= k < files.len() ==> first_cwd((#[trigger] files[k]).lines@, 0) is None,
        },
        forall|v: Vec<DirFile>, name: Seq<char>|
            session_files(v@) == files ==> (#[trigger] scan_of(Some(v), name)).0 == (match cwd_of_files(
                files,
            ) {
                Some(cwd) => cwd,
                None => name,
            }),
    decreases files.len(),
{
    if files.len() > 0 {
        let d = files.drop_last();
        first_session_tells_the_path(d);
        assert forall|k: int| 0 <= k < d.len() implies #[trigger] files[k] == d[k] by {}
        assert(files.last() == files[files.len() - 1]);
        if let Some(cwd) = cwd_of_files(d) {
            let i = choose|i: int|
                #![trigger d[i]]
                {
                    &&& 0 <= i < d.len()
                    &&& first_cwd(d[i].lines@, 0) == Some(cwd)
                    &&& forall|k: int| 0 <= k < i ==> first_cwd((#[trigger] d[k]).lines@, 0) is None
                };
            assert(first_cwd(files[i].lines@, 0) == Some(cwd));
        }
    }
}

proof fn lemma_project_dir_kept(dirs: Seq<ProjectDir>, d: ProjectDir)
    ensures
        project_dirs(dirs).contains(d) <==> dirs.contains(d) && d.is_dir && d.name@.len() > 0
            && d.name@[0] != '.',
    decreases dirs.len(),
{
    let q = project_dirs(dirs);
    if dirs.len() > 0 {
        let e = dirs.drop_last();
        let p = project_dirs(e);
        lemma_project_dir_kept(e, d);
        if q.contains(d) {
            let k = choose|k: int| 0 <= k < q.len() && q[k] == d;
            if k < p.len() {
                assert(p[k] == d);
                let i = choose|i: int| 0 <= i < e.len() && e[i] == d;
                assert(dirs[i] == d);
            } else {
                assert(dirs[dirs.len() - 1] == d);
            }
        }
        if dirs.contains(d) && d.is_dir && d.name@.len() > 0 && d.name@[0] != '.' {
            let i = choose|i: int| 0 <= i < dirs.len() && dirs[i] == d;
            if i < e.len() {
                assert(e[i] == d);
                let k = choose|k: int| 0 <= k < p.len() && p[k] == d;
                assert(q[k] == d);
            } else {
                assert(q[q.len() - 1] == d);
            }
        }
    }
}

/// Whether one of the entries is a directory of the name that is not hidden.
pub open spec fn has_open_dir(dirs: Seq<ProjectDir>, name: String) -> bool {
    exists|d: ProjectDir|
        #[trigger] dirs.contains(d) && d.is_dir && d.name@.len() > 0 && d.name@[0] != '.' && d.name
            == name
}

/// The listing of projects holds every directory that is not hidden, and nothing else, each under the
/// name of its directory; and the projects that were active last come first.
pub proof fn projects_are_listed_by_activity(
    style: PathStyle,
    dirs: Seq<ProjectDir>,
    infos: Seq<ProjectInfo>,
    sorted: Seq<ProjectInfo>,
)
    requires
        are_infos_of(style, infos, dirs),
        arranged(infos, sorted),
    ensures
        sorted.len() == infos.len(),
        forall|j: int, k: int|
            0 <= j < k < sorted.len() ==> no_earlier(
                (#[trigger] sorted[j]).last_active,
                (#[trigger] sorted[k]).last_active,
            ),
        forall|d: ProjectDir|
            #[trigger] dirs.contains(d) && d.is_dir && d.name@.len() > 0 && d.name@[0] != '.'
                ==> exists|k: int|
                0 <= k < sorted.len() && (#[trigger] sorted[k]).encoded_name == d.name
                    && sorted[k].session_count == scan_of(d.files, d.name@).1
                    && sorted[k].last_active == scan_of(d.files, d.name@).2,
        forall|k: int|
            0 <= k < sorted.len() ==> has_open_dir(dirs, (#[trigger] sorted[k]).encoded_name),
{
    let places = choose|places: Seq<int>| #[trigger]
        is_ranking(infos, places) && sorted == places.map_values(|p: int| infos[p]);
    let all = project_dirs(dirs);
    assert forall|j: int, k: int| 0 <= j < k < sorted.len() implies no_earlier(
        (#[trigger] sorted[j]).last_active,
        (#[trigger] sorted[k]).last_active,
    ) by {
        assert(sorted[j] == infos[places[j]] && sorted[k] == infos[places[k]]);
    }
    assert forall|d: ProjectDir|
        #[trigger] dirs.contains(d) && d.is_dir && d.name@.len() > 0 && d.name@[0] != '.' implies exists|
        k: int,
    |
        0 <= k < sorted.len() && (#[trigger] sorted[k]).encoded_name == d.name
            && sorted[k].session_count == scan_of(d.files, d.name@).1 && sorted[k].last_active
            == scan_of(d.files, d.name@).2 by {
        lemma_project_dir_kept(dirs, d);
        let i = choose|i: int| 0 <= i < all.len() && all[i] == d;
        arranging_keeps_all(infos, sorted, i);
        let k = choose|k: int| 0 <= k < sorted.len() && sorted[k] == infos[i];
        assert(sorted[k].encoded_name == d.name);
    }
    assert forall|k: int| 0 <= k < sorted.len() implies has_open_dir(
        dirs,
        (#[trigger] sorted[k]).encoded_name,
    ) by {
        let i = places[k];
        assert(sorted[k] == infos[i]);
        lemma_project_dir_kept(dirs, all[i]);
        assert(all.contains(all[i]));
        assert(dirs.contains(all[i]));
    }
}

proof fn lemma_wanted_kept(
    sessions: Seq<SessionMeta>,
    project_path: Option<Seq<char>>,
    agents: bool,
    s: SessionMeta,
)
    ensures
        wanted(sessions, project_path, agents).contains(s) <==> sessions.contains(s) && is_wanted(
            s,
            project_path,
            agents,
        ),
    decreases sessions.len(),
{
    let q = wanted(sessions, project_path, agents);
    if sessions.len() > 0 {
        let e = sessions.drop_last();
        let p = wanted(e, project_path, agents);
        lemma_wanted_kept(e, project_path, agents, s);
        if q.contains(s) {
            let k = choose|k: int| 0 <= k < q.len() && q[k] == s;
            if k < p.len() {
                assert(p[k] == s);
                let i = choose|i: int| 0 <= i < e.len() && e[i] == s;
                assert(sessions[i] == s);
            } else {
                assert(sessions[sessions.len() - 1] == s);
            }
        }
        if sessions.contains(s) && is_wanted(s, project_path, agents) {
            let i = choose|i: int| 0 <= i < sessions.len() && sessions[i] == s;
            if i < e.len() {
                assert(e[i] == s);
                let k = choose|k: int| 0 <= k < p.len() && p[k] == s;
                assert(q[k] == s);
            } else {
                assert(q[q.len() - 1] == s);
            }
        }
    }
}

/// A listing of sessions holds those of the project asked for, or of every project where none is, and
/// agents' sessions only on request; nothing else; and those modified last come first.
pub proof fn sessions_are_listed_by_time(
    sessions: Seq<SessionMeta>,
    project_path: Option<Seq<char>>,
    agents: bool,
    r: Seq<SessionMeta>,
)
    requires
        arranged(wanted(sessions, project_path, agents), r),
    ensures
        forall|s: SessionMeta| #[trigger]
            r.contains(s) <==> {
                &&& sessions.contains(s)
                &&& agents || !begins_with(s.id@, "agent-"@)
                &&& project_path is None || s.project_path@ == project_path->0
            },
        forall|j: int, k: int|
            0 <= j < k < r.len() ==> no_earlier(
                (#[trigger] r[j]).file_mtime,
                (#[trigger] r[k]).file_mtime,
            ),
{
    let items = wanted(sessions, project_path, agents);
    let places = choose|places: Seq<int>| #[trigger]
        is_ranking(items, places) && r == places.map_values(|p: int| items[p]);
    assert forall|j: int, k: int| 0 <= j < k < r.len() implies no_earlier(
        (#[trigger] r[j]).file_mtime,
        (#[trigger] r[k]).file_mtime,
    ) by {
        assert(r[j] == items[places[j]] && r[k] == items[places[k]]);
    }
    assert forall|s: SessionMeta| #[trigger] r.contains(s) <==> items.contains(s) by {
        if r.contains(s) {
            let k = choose|k: int| 0 <= k < r.len() && r[k] == s;
            assert(items[places[k]] == s);
        }
        if items.contains(s) {
            let i = choose|i: int| 0 <= i < items.len() && items[i] == s;
            arranging_keeps_all(items, r, i);
        }
    }
    assert forall|s: SessionMeta| #[trigger] r.contains(s) <==> {
        &&& sessions.contains(s)
        &&& agents || !begins_with(s.id@, "agent-"@)
        &&& project_path is None || s.project_path@ == project_path->0
    } by {
        lemma_wanted_kept(sessions, project_path, agents, s);
    }
}

/// The latest session of a project is one of its sessions that no other of them was modified after,
/// and it is found unless it is older than asked for.
pub proof fn latest_session_is_the_last_modified(
    sessions: Seq<SessionMeta>,
    project_path: Seq<char>,
    sorted: Seq<SessionMeta>,
    within_seconds: Option<u64>,
    now: u64,
    r: Option<SessionMeta>,
)
    requires
        arranged(wanted(sessions, Some(project_path), false), sorted),
        r == (if sorted.len() > 0 && is_recent(sorted[0], within_seconds, now) {
            Some(sorted[0])
        } else {
            None
        }),
    ensures
        match r {
            Some(s) => {
                &&& sessions.contains(s)
                &&& s.project_path@ == project_path
                &&& !begins_with(s.id@, "agent-"@)
                &&& forall|o: SessionMeta| #[trigger]
                    sessions.contains(o) && o.project_path@ == project_path && !begins_with(
                        o.id@,
                        "agent-"@,
                    ) ==> no_earlier(s.file_mtime, o.file_mtime)
                &&& within_seconds is Some && s.file_mtime is Some ==> now <= s.file_mtime->0
                    + within_seconds->0 * 1000
            },
            None => forall|o: SessionMeta| #[trigger]
                sessions.contains(o) && o.project_path@ == project_path && !begins_with(
                    o.id@,
                    "agent-"@,
                ) ==> within_seconds is Some && (o.file_mtime is Some ==> now > o.file_mtime->0
                    + within_seconds->0 * 1000),
        },
{
    sessions_are_listed_by_time(sessions, Some(project_path), false, sorted);
    assert forall|o: SessionMeta| #[trigger]
        sessions.contains(o) && o.project_path@ == project_path && !begins_with(
            o.id@,
            "agent-"@,
        ) implies sorted.len() > 0 && no_earlier(sorted[0].file_mtime, o.file_mtime) by {
        assert(sorted.contains(o));
        let k = choose|k: int| 0 <= k < sorted.len() && sorted[k] == o;
        if k > 0 {
            assert(no_earlier(sorted[0].file_mtime, sorted[k].file_mtime));
        }
    }
    if sorted.len() > 0 {
        assert(sorted.contains(sorted[0]));
    }
}

/// A session file is looked for in the directories in order, hidden ones left out: the one found holds
/// it, no earlier one does, and none is found exactly where none holds it.
pub proof fn first_holder_holds(dirs: Seq<DirProbe>)
    ensures
        match first_holder(dirs) {
            Some(name) => exists|i: int|
                #![trigger dirs[i]]
                {
                    &&& 0 <= i < dirs.len()
                    &&& dirs[i].name@ == name
                    &&& dirs[i].is_dir && dirs[i].holds_file && !begins_with(dirs[i].name@, "."@)
                    &&& forall|k: int|
                        0 <= k < i ==> !((#[trigger] dirs[k]).is_dir && dirs[k].holds_file
                            && !begins_with(dirs[k].name@, "."@))
                },
            None => forall|k: int|
                0 <= k < dirs.len() ==> !((#[trigger] dirs[k]).is_dir && dirs[k].holds_file
                    && !begins_with(dirs[k].name@, "."@)),
        },
    decreases dirs.len(),
{
    if dirs.len() > 0 {
        let e = dirs.drop_first();
        first_holder_holds(e);
        assert forall|k: int| 0 < k < dirs.len() implies #[trigger] dirs[k] == e[k - 1] by {}
        if !(dirs[0].is_dir && dirs[0].holds_file && !begins_with(dirs[0].name@, "."@)) {
            if let Some(name) = first_holder(e) {
                let i = choose|i: int|
                    #![trigger e[i]]
                    {
                        &&& 0 <= i < e.len()
                        &&& e[i].name@ == name
                        &&& e[i].is_dir && e[i].holds_file && !begins_with(e[i].name@, "."@)
                        &&& forall|k: int|
                            0 <= k < i ==> !((#[trigger] e[k]).is_dir && e[k].holds_file
                                && !begins_with(e[k].name@, "."@))
                    };
                assert(dirs[i + 1] == e[i]);
            }
        }
    }
}

/// The last activity of a directory is the latest time of its session files, not of the first or of
/// any other file, and is unknown only where no session file has a time; the sessions are as many as
/// there are session files.
pub proof fn directory_is_as_young_as_its_youngest_session(
    files: &Option<Vec<DirFile>>,
    name: &str,
    r: (String, usize, Option<u64>),
)
    requires
        call_ensures(scan_project_dir, (files, name), r),
    ensures
        files is None ==> r.2 is None && r.1 == 0 && r.0@ == name@,
        files is Some ==> {
            let all = files->0@;
            &&& r.1 == all.filter(|f: DirFile| is_session_file(f)).len()
            &&& r.2 is None <==> forall|i: int|
                0 <= i < all.len() && is_session_file(#[trigger] all[i]) ==> all[i].mtime is None
            &&& r.2 is Some ==> exists|i: int|
                0 <= i < all.len() && is_session_file(#[trigger] all[i]) && all[i].mtime == r.2
            &&& forall|i: int|
                r.2 is Some && 0 <= i < all.len() && is_session_file(#[trigger] all[i])
                    && all[i].mtime is Some ==> all[i].mtime->0 <= r.2->0
        },
{
}

/// One session file more makes a directory no older, and as young as itself where it is the youngest.
pub proof fn new_session_makes_a_directory_younger(
    before: &Option<Vec<DirFile>>,
    after: &Option<Vec<DirFile>>,
    f: DirFile,
    t: u64,
    name: &str,
    a: (String, usize, Option<u64>),
    b: (String, usize, Option<u64>),
)
    requires
        call_ensures(scan_project_dir, (before, name), a),
        call_ensures(scan_project_dir, (after, name), b),
        before is Some && after is Some && after->0@ == before->0@.push(f),
        is_session_file(f),
        f.mtime == Some(t),
    ensures
        b.1 == a.1 + 1,
        b.2 is Some && b.2->0 >= t,
        a.2 is Some ==> b.2->0 == (if a.2->0 >= t {
            a.2->0
        } else {
            t
        }),
        a.2 is None ==> b.2->0 == t,
{
    reveal(Seq::filter);
    let all = before->0@;
    let more = after->0@;
    assert(more.drop_last() =~= all);
    assert(more[all.len() as int] == f);
    if a.2 is Some {
        let i = choose|i: int|
            0 <= i < all.len() && is_session_file(#[trigger] all[i]) && all[i].mtime == a.2;
        assert(more[i] == all[i]);
    }
    let k = choose|k: int|
        0 <= k < more.len() && is_session_file(#[trigger] more[k]) && more[k].mtime == b.2;
    if k < all.len() {
        assert(more[k] == all[k]);
    }
}

/// The sessions that are listed: those of the project that is asked for, without the agents' own unless
/// they are asked for, the last modified first.
pub proof fn listed_sessions_are_the_wanted_ones(
    reader: &mut SessionReader,
    sessions: Vec<SessionMeta>,
    project: Option<&str>,
    agents: bool,
    r: Vec<SessionMeta>,
    s: SessionMeta,
)
    requires
        call_ensures(SessionReader::list_sessions, (reader, Some(sessions), project, agents), r),
    ensures
        r@.contains(s) <==> {
            &&& sessions@.contains(s)
            &&& agents || !begins_with(s.id@, "agent-"@)
            &&& project is None || s.project_path@ == project->0@
        },
        forall|j: int, k: int|
            0 <= j < k < r@.len() ==> no_earlier(
                (#[trigger] r@[j]).file_mtime,
                (#[trigger] r@[k]).file_mtime,
            ),
{
    sessions_are_listed_by_time(sessions@, crate::reader::opt_str_view(project), agents, r@);
}

/// The latest session of a project is one of its sessions and no agent's, and none of them was modified
/// later; where a limit is set it is not older than that.
pub proof fn latest_session_is_none_earlier(
    reader: &mut SessionReader,
    sessions: Vec<SessionMeta>,
    project: &str,
    within: Option<u64>,
    now: u64,
    r: Option<SessionMeta>,
    s: SessionMeta,
)
    requires
        call_ensures(
            SessionReader::find_latest_session,
            (reader, Some(sessions), project, within, now),
            r,
        ),
        sessions@.contains(s),
        s.project_path@ == project@,
        !begins_with(s.id@, "agent-"@),
    ensures
        r is Some ==> {
            &&& sessions@.contains(r->0)
            &&& r->0.project_path@ == project@
            &&& !begins_with(r->0.id@, "agent-"@)
            &&& no_earlier(r->0.file_mtime, s.file_mtime)
        },
        within is None ==> r is Some,
{
    let sorted = choose|sorted: Seq<SessionMeta>|
        {
            &&& #[trigger] arranged(wanted(sessions@, Some(project@), false), sorted)
            &&& r == (if sorted.len() > 0 && is_recent(sorted[0], within, now) {
                Some(sorted[0])
            } else {
                None
            })
        };
    sessions_are_listed_by_time(sessions@, Some(project@), false, sorted);
    assert(sorted.contains(s));
    let k = choose|k: int| 0 <= k < sorted.len() && sorted[k] == s;
    assert(sorted.contains(sorted[0]));
    if k > 0 {
        assert(no_earlier(sorted[0].file_mtime, sorted[k].file_mtime));
    }
}

/// The place of a session is the first directory that holds its file; there is none where no directory
/// holds it.
pub proof fn session_is_where_its_file_is(
    reader: &SessionReader,
    id: &str,
    dirs: &Vec<DirProbe>,
    r: Option<String>,
)
    requires
        call_ensures(SessionReader::get_session_path, (reader, id, dirs), r),
    ensures
        r is None <==> forall|k: int|
            0 <= k < dirs@.len() ==> !((#[trigger] dirs@[k]).is_dir && dirs@[k].holds_file
                && !begins_with(dirs@[k].name@, "."@)),
{
    first_holder_holds(dirs@);
}

/// A directory that is known is told without looking again, and looking changes nothing.
pub proof fn known_directory_is_told(
    reader: &mut SessionReader,
    path: &str,
    dirs: &Vec<ProjectDir>,
    r: Option<String>,
)
    requires
        call_ensures(SessionReader::get_encoded_dir_name, (reader, path, dirs), r),
        lookup(old(reader).encoded_dir_cache@, path@) is Some,
    ensures
        r is Some && r->0@ == lookup(old(reader).encoded_dir_cache@, path@)->0,
        *final(reader) == *old(reader),
{
}

proof fn lemma_told_by_sessions(sessions: Seq<SessionMeta>, i: int)
    requires
        0 <= i < sessions.len(),
        sessions[i].encoded_dir_name is Some,
        forall|k: int|
            i < k < sessions.len() ==> (#[trigger] sessions[k]).project_path@
                != sessions[i].project_path@ || sessions[k].encoded_dir_name is None,
    ensures
        told_by_sessions(sessions, sessions[i].project_path@) == Some(
            sessions[i].encoded_dir_name->0@,
        ),
    decreases sessions.len(),
{
    if i < sessions.len() - 1 {
        let d = sessions.drop_last();
        assert(sessions.last() == sessions[sessions.len() - 1]);
        assert(d[i] == sessions[i]);
        assert forall|k: int| i < k < d.len() implies (#[trigger] d[k]).project_path@
            != d[i].project_path@ || d[k].encoded_dir_name is None by {
            assert(d[k] == sessions[k]);
        }
        lemma_told_by_sessions(d, i);
    } else {
        assert(sessions.last() == sessions[i]);
    }
}

proof fn lemma_untold(sessions: Seq<SessionMeta>, path: Seq<char>)
    requires
        forall|k: int|
            0 <= k < sessions.len() ==> (#[trigger] sessions[k]).project_path@ != path
                || sessions[k].encoded_dir_name is None,
    ensures
        told_by_sessions(sessions, path) is None,
    decreases sessions.len(),
{
    if sessions.len() > 0 {
        let d = sessions.drop_last();
        assert(sessions.last() == sessions[sessions.len() - 1]);
        assert forall|k: int| 0 <= k < d.len() implies (#[trigger] d[k]).project_path@ != path
            || d[k].encoded_dir_name is None by {
            assert(d[k] == sessions[k]);
        }
        lemma_untold(d, path);
    }
}

/// Listing sessions teaches the reader where projects lie: the last session that tells it for a project
/// is believed, and a project that no session tells of stays as it was known.
pub proof fn listing_teaches_where_projects_lie(
    reader: &mut SessionReader,
    sessions: Vec<SessionMeta>,
    project: Option<&str>,
    agents: bool,
    r: Vec<SessionMeta>,
    i: int,
    path: Seq<char>,
)
    requires
        call_ensures(SessionReader::list_sessions, (reader, Some(sessions), project, agents), r),
    ensures
        0 <= i < sessions@.len() && sessions@[i].encoded_dir_name is Some && (forall|k: int|
            i < k < sessions@.len() ==> (#[trigger] sessions@[k]).project_path@
                != sessions@[i].project_path@ || sessions@[k].encoded_dir_name is None) ==> lookup(
            final(reader).encoded_dir_cache@,
            sessions@[i].project_path@,
        ) == Some(sessions@[i].encoded_dir_name->0@),
        (forall|k: int|
            0 <= k < sessions@.len() ==> (#[trigger] sessions@[k]).project_path@ != path
                || sessions@[k].encoded_dir_name is None) ==> lookup(
            final(reader).encoded_dir_cache@,
            path,
        ) == lookup(old(reader).encoded_dir_cache@, path),
{
    if 0 <= i < sessions@.len() && sessions@[i].encoded_dir_name is Some && (forall|k: int|
        i < k < sessions@.len() ==> (#[trigger] sessions@[k]).project_path@
            != sessions@[i].project_path@ || sessions@[k].encoded_dir_name is None) {
        lemma_told_by_sessions(sessions@, i);
        let key = sessions@[i].project_path@;
        assert(lookup(final(reader).encoded_dir_cache@, key) == Some(
            sessions@[i].encoded_dir_name->0@,
        ));
    }
    if forall|k: int|
        0 <= k < sessions@.len() ==> (#[trigger] sessions@[k]).project_path@ != path
            || sessions@[k].encoded_dir_name is None {
        lemma_untold(sessions@, path);
        assert(lookup(final(reader).encoded_dir_cache@, path) == lookup(
            old(reader).encoded_dir_cache@,
            path,
        ));
    }
}

/// What is kept of a project's place is what was last put there, under its own path alone.
pub proof fn last_place_is_known(pairs: Seq<(String, String)>, key: String, place: String, other: Seq<char>)
    ensures
        lookup(pairs.push((key, place)), key@) == Some(place@),
        other != key@ ==> lookup(pairs.push((key, place)), other) == lookup(pairs, other),
        lookup(Seq::empty(), other) is None,
{
    assert(pairs.push((key, place)).drop_last() =~= pairs);
}

/// The projects that are listed come with the last active first, each a directory that is not hidden, and
/// no more than asked for; without a limit every such directory is listed.
pub proof fn listed_projects_come_last_active_first(
    reader: &mut SessionReader,
    dirs: &Vec<ProjectDir>,
    limit: Option<usize>,
    r: Vec<ProjectInfo>,
)
    requires
        call_ensures(SessionReader::list_projects, (reader, dirs, limit), r),
    ensures
        limit is Some ==> r@.len() <= limit->0,
        limit is None ==> r@.len() == dirs@.filter(
            |d: ProjectDir| d.is_dir && d.name@.len() > 0 && d.name@[0] != '.',
        ).len(),
        forall|j: int, k: int|
            0 <= j < k < r@.len() ==> no_earlier(
                (#[trigger] r@[j]).last_active,
                (#[trigger] r@[k]).last_active,
            ),
{
    let style = old(reader).style;
    let (infos, sorted) = choose|infos: Seq<ProjectInfo>, sorted: Seq<ProjectInfo>|
        {
            &&& are_infos_of(style, infos, dirs@)
            &&& #[trigger] arranged(infos, sorted)
            &&& r@ == (match limit {
                Some(n) if n < sorted.len() => sorted.take(n as int),
                _ => sorted,
            })
        };
    projects_are_listed_by_activity(style, dirs@, infos, sorted);
    lemma_dirs_filtered(dirs@);
    assert forall|j: int, k: int| 0 <= j < k < r@.len() implies no_earlier(
        (#[trigger] r@[j]).last_active,
        (#[trigger] r@[k]).last_active,
    ) by {
        assert(r@[j] == sorted[j] && r@[k] == sorted[k]);
    }
}

proof fn lemma_dirs_filtered(dirs: Seq<ProjectDir>)
    ensures
        project_dirs(dirs) == dirs.filter(
            |d: ProjectDir| d.is_dir && d.name@.len() > 0 && d.name@[0] != '.',
        ),
    decreases dirs.len(),
{
    reveal(Seq::filter);
    if dirs.len() > 0 {
        lemma_dirs_filtered(dirs.drop_last());
    }
    assert(project_dirs(dirs) =~= dirs.filter(
        |d: ProjectDir| d.is_dir && d.name@.len() > 0 && d.name@[0] != '.',
    ));
}

/// The tools' projects lie in the home directory, each tool's in its own.
pub proof fn projects_lie_at_home(home: &str, tool: &str, r: SessionReader)
    requires
        call_ensures(SessionReader::in_home, (PathStyle::Unix, home, tool), r),
        home@.len() > 0,
        home@.last() != '/',
    ensures
        r.projects_path@ == home@.push('/') + ("."@ + tool@ + "/projects"@),
        r.encoded_dir_cache@.len() == 0,
{
    reveal_strlit(".");
    assert(("."@ + tool@ + "/projects"@)[0] == '.');
}

/// A project that was listed is known by the name of its directory, the last of a path first.
pub proof fn listed_project_is_known_by_its_directory(
    projects: Seq<ProjectInfo>,
    p: ProjectInfo,
    other: Seq<char>,
)
    ensures
        told_by_projects(projects.push(p), p.path@) == Some(p.encoded_name@),
        other != p.path@ ==> told_by_projects(projects.push(p), other) == told_by_projects(
            projects,
            other,
        ),
        told_by_projects(Seq::empty(), other) is None,
{
    assert(projects.push(p).drop_last() =~= projects);
}

/// What is known of a session file before it is read is its name and its path.
pub proof fn unread_session_has_a_name_and_a_path(
    path: &str,
    source: Source,
    r: SessionMeta,
)
    requires
        call_ensures(SessionReader::session_meta, (PathStyle::Unix, path, source), r),
    ensures
        r.session_path is Some && r.session_path->0@ == path@,
        r.source == source,
        r.channel is Some && r.channel->0@ == "code"@,
        r.project_path@.len() == 0,
        r.file_mtime is None && r.file_size is None && r.message_count is None && r.cwd is None
            && r.model is None && r.created_at is None && r.updated_at is None,
        r.last_message_type is None && r.last_message_preview is None && r.last_message_at is None,
        r.encoded_dir_name is None,
{
}

} // verus!

//! The tables of the store as sets of rows, what the statements of the library ask of them and leave
//! in them, and what follows for the store as a whole.
use vstd::prelude::*;
use crate::db::{
    is_merge_of, is_project_write, MessageRow, ProjectLoad, ProjectMerge, ProjectWrite,
};
use crate::order::{arranged, arranging_keeps_all, is_ranking, Ranked};
use crate::reader::{long_page_holds_all, page_of, pages_follow_on, Order};
use crate::types::Project;

verus! {

// ---- Listing messages ----

/// Whether one message comes before another where they are listed by their numbers.
pub open spec fn comes_before(a: MessageRow, b: MessageRow, desc: bool) -> bool {
    if desc {
        a.sequence > b.sequence
    } else {
        a.sequence < b.sequence
    }
}

/// Whether `listing` is what there is of a session's messages in order of their numbers, the last
/// first where `desc` holds. No two messages of the session have one number.
pub open spec fn is_listing(
    rows: Seq<MessageRow>,
    session_id: Seq<char>,
    desc: bool,
    listing: Seq<MessageRow>,
) -> bool {
    &&& forall|i: int|
        0 <= i < listing.len() ==> rows.contains(#[trigger] listing[i]) && listing[i].session_id@
            == session_id
    &&& forall|i: int|
        0 <= i < rows.len() && (#[trigger] rows[i]).session_id@ == session_id
            ==> listing.contains(rows[i])
    &&& forall|i: int, j: int|
        0 <= i < j < listing.len() ==> comes_before(
            #[trigger] listing[i],
            #[trigger] listing[j],
            desc,
        )
}

/// The first `count` pages of a listing, one behind the other.
pub open spec fn joined_pages(listing: Seq<MessageRow>, limit: int, count: nat) -> Seq<MessageRow>
    decreases count,
{
    if count == 0 {
        seq![]
    } else {
        joined_pages(listing, limit, (count - 1) as nat) + page_of(
            listing,
            limit,
            (count - 1) * limit,
            Order::Asc,
        )
    }
}

proof fn lemma_joined_pages(listing: Seq<MessageRow>, limit: int, count: nat)
    requires
        limit >= 1,
    ensures
        joined_pages(listing, limit, count) == page_of(listing, count * limit, 0, Order::Asc),
    decreases count,
{
    if count == 0 {
        assert(count * limit == 0) by (nonlinear_arith)
            requires
                count == 0,
        ;
        assert(page_of(listing, 0, 0, Order::Asc) =~= Seq::<MessageRow>::empty());
    } else {
        let before = (count - 1) as nat;
        lemma_joined_pages(listing, limit, before);
        assert(before * limit >= 0 && before * limit + limit == count * limit) by (nonlinear_arith)
            requires
                limit >= 1,
                before == count - 1,
        ;
        pages_follow_on(listing, before * limit, limit, 0, Order::Asc);
    }
}

/// A page of the messages of a session holds at most as many as it may, all of that session and in
/// order; and the pages joined give every message of the session once.
pub proof fn message_pages_hold_all(
    rows: Seq<MessageRow>,
    session_id: Seq<char>,
    desc: bool,
    listing: Seq<MessageRow>,
    limit: int,
    offset: int,
    count: nat,
)
    requires
        is_listing(rows, session_id, desc, listing),
        limit >= 1,
        offset >= 0,
        count * limit >= listing.len(),
    ensures
        ({
            let page = page_of(listing, limit, offset, Order::Asc);
            &&& page.len() <= limit
            &&& forall|k: int| 0 <= k < page.len() ==> (#[trigger] page[k]).session_id@ == session_id
            &&& forall|j: int, k: int|
                0 <= j < k < page.len() ==> comes_before(#[trigger] page[j], #[trigger] page[k], desc)
        }),
        joined_pages(listing, limit, count) == listing,
        forall|j: int, k: int|
            0 <= j < k < listing.len() ==> #[trigger] listing[j] != #[trigger] listing[k],
{
    lemma_joined_pages(listing, limit, count);
    long_page_holds_all(listing, count * limit, Order::Asc);
    let page = page_of(listing, limit, offset, Order::Asc);
    assert forall|k: int| 0 <= k < page.len() implies (#[trigger] page[k]).session_id@
        == session_id by {
        assert(page[k] == listing[offset + k]);
    }
    assert forall|j: int, k: int| 0 <= j < k < page.len() implies comes_before(
        #[trigger] page[j],
        #[trigger] page[k],
        desc,
    ) by {
        assert(page[j] == listing[offset + j] && page[k] == listing[offset + k]);
    }
}

proof fn lemma_falling_agree(p: Seq<MessageRow>, q: Seq<MessageRow>, k: int)
    requires
        0 <= k <= p.len(),
        k <= q.len(),
        forall|i: int| 0 <= i < p.len() ==> q.contains(#[trigger] p[i]),
        forall|i: int| 0 <= i < q.len() ==> p.contains(#[trigger] q[i]),
        forall|i: int, j: int|
            0 <= i < j < p.len() ==> (#[trigger] p[i]).sequence > (#[trigger] p[j]).sequence,
        forall|i: int, j: int|
            0 <= i < j < q.len() ==> (#[trigger] q[i]).sequence > (#[trigger] q[j]).sequence,
    ensures
        forall|i: int| 0 <= i < k ==> p[i] == q[i],
    decreases k,
{
    if k > 0 {
        let i = k - 1;
        lemma_falling_agree(p, q, i);
        assert(q.contains(p[i]) && p.contains(q[i]));
        let m = choose|m: int| 0 <= m < q.len() && q[m] == p[i];
        let n = choose|n: int| 0 <= n < p.len() && p[n] == q[i];
        if m < i {
            assert(p[m] == q[m]);
        }
        if n < i {
            assert(p[n] == q[n]);
        }
        if m > i && n > i {
            assert(q[i].sequence > q[m].sequence && p[i].sequence > p[n].sequence);
        }
    }
}

/// The messages of a session with the last first are those with the first first, the other way
/// round; and of a session that is not there, there are none.
pub proof fn falling_listing_is_reverse(
    rows: Seq<MessageRow>,
    session_id: Seq<char>,
    rising: Seq<MessageRow>,
    falling: Seq<MessageRow>,
)
    requires
        is_listing(rows, session_id, false, rising),
        is_listing(rows, session_id, true, falling),
    ensures
        falling == rising.reverse(),
        (forall|i: int| 0 <= i < rows.len() ==> (#[trigger] rows[i]).session_id@ != session_id)
            ==> rising.len() == 0,
{
    let r = rising.reverse();
    assert forall|i: int| 0 <= i < r.len() implies falling.contains(#[trigger] r[i]) by {
        let x = rising[rising.len() - 1 - i];
        assert(rows.contains(x));
        let k = choose|k: int| 0 <= k < rows.len() && rows[k] == x;
        assert(rows[k].session_id@ == session_id);
    }
    assert forall|i: int| 0 <= i < falling.len() implies r.contains(#[trigger] falling[i]) by {
        let x = falling[i];
        assert(rows.contains(x));
        let k = choose|k: int| 0 <= k < rows.len() && rows[k] == x;
        assert(rising.contains(rows[k]));
        let l = choose|l: int| 0 <= l < rising.len() && rising[l] == x;
        assert(r[rising.len() - 1 - l] == x);
    }
    let n = if r.len() <= falling.len() {
        r.len() as int
    } else {
        falling.len() as int
    };
    lemma_falling_agree(r, falling, n);
    if falling.len() > n {
        assert(r.contains(falling[n]));
        let m = choose|m: int| 0 <= m < r.len() && r[m] == falling[n];
        assert(falling[m] == falling[n]);
        assert(falling[m].sequence > falling[n].sequence);
    }
    if r.len() > n {
        assert(falling.contains(r[n]));
        let m = choose|m: int| 0 <= m < falling.len() && falling[m] == r[n];
        assert(r[m] == r[n]);
        assert(r[m].sequence > r[n].sequence);
    }
    assert(falling =~= r);
    if rising.len() > 0 {
        assert(rows.contains(rising[0]));
        let k = choose|k: int| 0 <= k < rows.len() && rows[k] == rising[0];
        assert(rows[k].session_id@ == session_id);
    }
}

// ---- Projects by their paths ----

/// The id of the first project of a path.
pub open spec fn id_of_path(projects: Seq<Project>, path: Seq<char>) -> Option<i64>
    decreases projects.len(),
{
    if projects.len() == 0 {
        None
    } else if projects[0].path@ == path {
        Some(projects[0].id)
    } else {
        id_of_path(projects.drop_first(), path)
    }
}

/// Whether a project has what `Create` says, under the id `fresh`.
pub open spec fn is_created(p: Project, w: ProjectWrite, fresh: i64) -> bool {
    w matches ProjectWrite::Create { name, path, source, encoded_dir_name, created_at } && p == (
    Project {
        id: fresh,
        name,
        path,
        source,
        encoded_dir_name,
        created_at,
        updated_at: created_at,
    })
}

/// Whether the projects are `after` once `w` is written to `before`, where a new project gets the
/// id `fresh`.
pub open spec fn is_written(
    before: Seq<Project>,
    w: ProjectWrite,
    fresh: i64,
    after: Seq<Project>,
) -> bool {
    match w {
        ProjectWrite::Create { .. } => {
            &&& after.len() == before.len() + 1
            &&& after.drop_last() == before
            &&& is_created(after.last(), w, fresh)
        },
        ProjectWrite::Touch { id, updated_at } => after == before.map_values(
            |p: Project|
                if p.id == id {
                    Project { updated_at, ..p }
                } else {
                    p
                },
        ),
        ProjectWrite::Rename { id, updated_at, encoded_dir_name } => after == before.map_values(
            |p: Project|
                if p.id == id {
                    Project { updated_at, encoded_dir_name: Some(encoded_dir_name), ..p }
                } else {
                    p
                },
        ),
    }
}

/// The id that is given back: that of the project which is there, or of the new one.
pub open spec fn given_id(existing: Option<i64>, fresh: i64) -> i64 {
    match existing {
        Some(id) => id,
        None => fresh,
    }
}

/// Whether no project has the id.
pub open spec fn is_unused(projects: Seq<Project>, id: i64) -> bool {
    forall|i: int| 0 <= i < projects.len() ==> (#[trigger] projects[i]).id != id
}

proof fn lemma_id_of_path(projects: Seq<Project>, path: Seq<char>)
    ensures
        match id_of_path(projects, path) {
            Some(id) => exists|i: int|
                0 <= i < projects.len() && (#[trigger] projects[i]).path@ == path && projects[i].id
                    == id,
            None => forall|i: int|
                0 <= i < projects.len() ==> (#[trigger] projects[i]).path@ != path,
        },
    decreases projects.len(),
{
    if projects.len() > 0 {
        if projects[0].path@ != path {
            let rest = projects.drop_first();
            lemma_id_of_path(rest, path);
            match id_of_path(rest, path) {
                Some(id) => {
                    let i = choose|i: int|
                        0 <= i < rest.len() && (#[trigger] rest[i]).path@ == path && rest[i].id
                            == id;
                    assert(projects[i + 1] == rest[i]);
                },
                None => {
                    assert forall|i: int| 0 <= i < projects.len() implies (
                    #[trigger] projects[i]).path@ != path by {
                        if i > 0 {
                            assert(rest[i - 1] == projects[i]);
                        }
                    }
                },
            }
        }
    }
}

/// Asking twice for the project of one path gives one project, under the name and the tool that it
/// was first asked for with; and asking for another path gives another project, even under the
/// same name.
pub proof fn path_has_one_project(
    before: Seq<Project>,
    between: Seq<Project>,
    after: Seq<Project>,
    path: Seq<char>,
    other: Seq<char>,
    first: (ProjectWrite, Seq<char>, Seq<char>, Option<Seq<char>>, i64),
    second: (ProjectWrite, Seq<char>, Seq<char>, Option<Seq<char>>, i64),
    fresh: (i64, i64, i64),
)
    requires
        id_of_path(before, path) is None,
        is_project_write(
            first.0,
            id_of_path(before, path),
            first.1,
            path,
            first.2,
            first.3,
            first.4,
        ),
        is_written(before, first.0, fresh.0, between),
        is_project_write(
            second.0,
            id_of_path(between, path),
            second.1,
            path,
            second.2,
            second.3,
            second.4,
        ),
        is_written(between, second.0, fresh.1, after),
        is_unused(before, fresh.0),
        is_unused(after, fresh.2),
        other != path,
    ensures
        given_id(id_of_path(before, path), fresh.0) == fresh.0,
        given_id(id_of_path(between, path), fresh.1) == fresh.0,
        exists|i: int|
            {
                &&& 0 <= i < after.len()
                &&& (#[trigger] after[i]).path@ == path
                &&& after[i].id == fresh.0
                &&& after[i].name@ == first.1
                &&& after[i].source@ == first.2
            },
        forall|i: int, j: int|
            0 <= i < after.len() && 0 <= j < after.len() && (#[trigger] after[i]).path@ == path && (
            #[trigger] after[j]).path@ == path ==> i == j,
        given_id(id_of_path(after, other), fresh.2) != fresh.0,
{
    lemma_id_of_path(before, path);
    lemma_id_of_path(between, path);
    let n = before.len() as int;
    assert(between[n].path@ == path && between[n].id == fresh.0);
    assert forall|i: int| 0 <= i < n implies (#[trigger] between[i]).path@ != path && between[i].id
        != fresh.0 by {
        assert(between.drop_last()[i] == before[i]);
    }
    assert(id_of_path(between, path) == Some(fresh.0));
    assert(after.len() == between.len());
    assert forall|i: int| 0 <= i < after.len() implies (#[trigger] after[i]).path
        == between[i].path && after[i].id == between[i].id && after[i].name == between[i].name
        && after[i].source == between[i].source by {}
    assert(after[n].path@ == path);
    lemma_id_of_path(after, other);
    if id_of_path(after, other) is Some {
        let k = choose|k: int|
            0 <= k < after.len() && (#[trigger] after[k]).path@ == other && after[k].id
                == id_of_path(after, other)->0;
        assert(k != n);
        assert(between[k].id != fresh.0);
    } else {
        assert(after[n].id != fresh.2);
    }
}

// ---- Making projects of one path one ----

/// The projects and the sessions of the store: the path of each project, and the project of each
/// session.
pub struct Holdings {
    pub paths: Map<i64, Seq<char>>,
    pub homes: Map<Seq<char>, i64>,
}

/// Whether the project is there and has the path.
pub open spec fn has_path(s: Holdings, id: i64, path: Seq<char>) -> bool {
    s.paths.contains_key(id) && s.paths[id] == path
}

/// The store once the sessions of each project in `gone` went over to `keep`, and that project was
/// deleted.
pub open spec fn after_merge(s: Holdings, keep: i64, gone: Seq<i64>) -> Holdings
    decreases gone.len(),
{
    if gone.len() == 0 {
        s
    } else {
        let p = after_merge(s, keep, gone.drop_last());
        Holdings {
            paths: p.paths.remove(gone.last()),
            homes: p.homes.map_values(
                |home: i64|
                    if home == gone.last() {
                        keep
                    } else {
                        home
                    },
            ),
        }
    }
}

/// Whether the merge makes the projects of the path one: it names each of them once.
pub open spec fn covers(s: Holdings, path: Seq<char>, m: ProjectMerge) -> bool {
    &&& m.merge@.no_duplicates()
    &&& !m.merge@.contains(m.keep)
    &&& forall|id: i64| #[trigger]
        has_path(s, id, path) <==> id == m.keep || m.merge@.contains(id)
}

/// Whether the loads are those of the projects of a path, each once.
pub open spec fn are_loads_of(loads: Seq<ProjectLoad>, s: Holdings, path: Seq<char>) -> bool {
    &&& forall|i: int, j: int|
        0 <= i < j < loads.len() ==> (#[trigger] loads[i]).id != (#[trigger] loads[j]).id
    &&& forall|i: int| 0 <= i < loads.len() ==> has_path(s, (#[trigger] loads[i]).id, path)
    &&& forall|id: i64| #[trigger]
        has_path(s, id, path) ==> exists|i: int| 0 <= i < loads.len() && #[trigger] loads[i].id == id
}

/// What is decided for the projects of one path names each of them once, and the project that stays
/// has at least as many sessions as each other.
pub proof fn merge_keeps_the_fullest(
    loads: Seq<ProjectLoad>,
    s: Holdings,
    path: Seq<char>,
    m: ProjectMerge,
)
    requires
        are_loads_of(loads, s, path),
        is_merge_of(m, loads),
    ensures
        covers(s, path, m),
        exists|k: int|
            {
                &&& 0 <= k < loads.len()
                &&& (#[trigger] loads[k]).id == m.keep
                &&& forall|i: int|
                    0 <= i < loads.len() ==> (#[trigger] loads[i]).sessions <= loads[k].sessions
            },
{
    let sorted = choose|sorted: Seq<ProjectLoad>|
        {
            &&& #[trigger] arranged(loads, sorted)
            &&& sorted.len() >= 2
            &&& m.keep == sorted[0].id
            &&& m.merge@ == sorted.drop_first().map_values(|p: ProjectLoad| p.id)
        };
    let places = choose|places: Seq<int>| #[trigger]
        is_ranking(loads, places) && sorted == places.map_values(|p: int| loads[p]);
    let ids = m.merge@;
    assert forall|i: int| 0 <= i < ids.len() implies #[trigger] ids[i] == loads[places[i + 1]].id by {
        assert(sorted.drop_first()[i] == sorted[i + 1]);
    }
    assert forall|j: int, k: int| 0 <= j < k < places.len() implies loads[#[trigger] places[j]].id
        != loads[#[trigger] places[k]].id by {
        if places[j] < places[k] {
            assert(loads[places[j]].id != loads[places[k]].id);
        } else {
            assert(places[k] < places[j]);
            assert(loads[places[k]].id != loads[places[j]].id);
        }
    }
    assert(m.keep == loads[places[0]].id);
    assert(ids.no_duplicates()) by {
        assert forall|j: int, k: int|
            0 <= j < ids.len() && 0 <= k < ids.len() && j != k implies ids[j] != ids[k] by {
            if j < k {
                assert(loads[places[j + 1]].id != loads[places[k + 1]].id);
            } else {
                assert(loads[places[k + 1]].id != loads[places[j + 1]].id);
            }
        }
    }
    if ids.contains(m.keep) {
        let i = choose|i: int| 0 <= i < ids.len() && ids[i] == m.keep;
        assert(loads[places[0]].id != loads[places[i + 1]].id);
    }
    assert forall|id: i64| #[trigger]
        has_path(s, id, path) <==> id == m.keep || ids.contains(id) by {
        if has_path(s, id, path) {
            let i = choose|i: int| 0 <= i < loads.len() && #[trigger] loads[i].id == id;
            arranging_keeps_all(loads, sorted, i);
            let k = choose|k: int| 0 <= k < sorted.len() && sorted[k] == loads[i];
            if k > 0 {
                assert(ids[k - 1] == id);
            }
        }
        if id == m.keep {
            assert(has_path(s, loads[places[0]].id, path));
        }
        if ids.contains(id) {
            let i = choose|i: int| 0 <= i < ids.len() && ids[i] == id;
            assert(has_path(s, loads[places[i + 1]].id, path));
        }
    }
    let k = places[0];
    assert forall|i: int| 0 <= i < loads.len() implies (#[trigger] loads[i]).sessions
        <= loads[k].sessions by {
        arranging_keeps_all(loads, sorted, i);
        let l = choose|l: int| 0 <= l < sorted.len() && sorted[l] == loads[i];
        if l > 0 {
            assert(loads[places[0]].rank_of() >= loads[places[l]].rank_of());
        }
    }
    assert(loads[k].id == m.keep);
}

/// The store once the first `n` merges were made.
pub open spec fn after_merges(s: Holdings, merges: Seq<ProjectMerge>, n: nat) -> Holdings
    decreases n,
{
    if n == 0 {
        s
    } else {
        after_merge(
            after_merges(s, merges, (n - 1) as nat),
            merges[n - 1].keep,
            merges[n - 1].merge@,
        )
    }
}

/// How many projects the first `n` merges delete.
pub open spec fn deleted_count(merges: Seq<ProjectMerge>, n: nat) -> nat
    decreases n,
{
    if n == 0 {
        0
    } else {
        deleted_count(merges, (n - 1) as nat) + merges[n - 1].merge@.len()
    }
}

/// Whether more than one project has the path.
pub open spec fn is_doubled(s: Holdings, path: Seq<char>) -> bool {
    exists|a: i64, b: i64| a != b && #[trigger] has_path(s, a, path) && #[trigger] has_path(s, b, path)
}

/// Whether there is one merge for each path that more than one project has, and for no path two.
pub open spec fn is_plan(s: Holdings, paths: Seq<Seq<char>>, merges: Seq<ProjectMerge>) -> bool {
    &&& paths.len() == merges.len()
    &&& paths.no_duplicates()
    &&& forall|k: int| 0 <= k < paths.len() ==> covers(s, #[trigger] paths[k], merges[k])
    &&& forall|path: Seq<char>| #[trigger] is_doubled(s, path) ==> paths.contains(path)
}

/// Whether one of the first `n` merges deletes the project.
pub open spec fn is_gone(merges: Seq<ProjectMerge>, n: nat, id: i64) -> bool {
    exists|k: int| 0 <= k < n && (#[trigger] merges[k]).merge@.contains(id)
}

proof fn lemma_after_merge(s: Holdings, keep: i64, gone: Seq<i64>)
    requires
        gone.no_duplicates(),
        !gone.contains(keep),
        s.paths.dom().finite(),
        forall|i: int| 0 <= i < gone.len() ==> s.paths.contains_key(#[trigger] gone[i]),
    ensures
        ({
            let t = after_merge(s, keep, gone);
            &&& t.paths.dom().finite()
            &&& t.paths.len() + gone.len() == s.paths.len()
            &&& forall|id: i64| #[trigger]
                t.paths.contains_key(id) <==> s.paths.contains_key(id) && !gone.contains(id)
            &&& forall|id: i64| #[trigger]
                t.paths.contains_key(id) ==> t.paths[id] == s.paths[id]
            &&& t.homes.dom() == s.homes.dom()
            &&& forall|x: Seq<char>| #[trigger]
                s.homes.contains_key(x) ==> t.homes[x] == if gone.contains(s.homes[x]) {
                    keep
                } else {
                    s.homes[x]
                }
        }),
    decreases gone.len(),
{
    if gone.len() > 0 {
        let d = gone.drop_last();
        let last = gone.last();
        assert(gone[gone.len() - 1] == last);
        assert forall|i: int| 0 <= i < d.len() implies s.paths.contains_key(#[trigger] d[i]) by {
            assert(d[i] == gone[i]);
        }
        assert forall|id: i64| #[trigger] gone.contains(id) <==> d.contains(id) || id == last by {
            if gone.contains(id) {
                let i = choose|i: int| 0 <= i < gone.len() && gone[i] == id;
                if i < d.len() {
                    assert(d[i] == id);
                }
            }
            if d.contains(id) {
                let i = choose|i: int| 0 <= i < d.len() && d[i] == id;
                assert(gone[i] == id);
            }
        }
        assert(!d.contains(last)) by {
            if d.contains(last) {
                let i = choose|i: int| 0 <= i < d.len() && d[i] == last;
                assert(gone[i] == gone[gone.len() - 1]);
            }
        }
        lemma_after_merge(s, keep, d);
        let p = after_merge(s, keep, d);
        let t = after_merge(s, keep, gone);
        assert(p.paths.contains_key(last));
        assert(t.paths.dom() =~= p.paths.dom().remove(last));
        assert(t.homes.dom() =~= p.homes.dom());
        assert forall|x: Seq<char>| #[trigger] s.homes.contains_key(x) implies t.homes[x]
            == if gone.contains(s.homes[x]) {
            keep
        } else {
            s.homes[x]
        } by {
            assert(p.homes.contains_key(x));
            assert(gone.contains(keep) == false);
        }
    } else {
        assert(!gone.contains(keep));
    }
}

proof fn lemma_after_merges(
    s: Holdings,
    paths: Seq<Seq<char>>,
    merges: Seq<ProjectMerge>,
    n: nat,
)
    requires
        is_plan(s, paths, merges),
        n <= merges.len(),
        s.paths.dom().finite(),
    ensures
        ({
            let t = after_merges(s, merges, n);
            &&& t.paths.dom().finite()
            &&& t.paths.len() + deleted_count(merges, n) == s.paths.len()
            &&& forall|id: i64| #[trigger]
                t.paths.contains_key(id) <==> s.paths.contains_key(id) && !is_gone(merges, n, id)
            &&& forall|id: i64| #[trigger]
                t.paths.contains_key(id) ==> t.paths[id] == s.paths[id]
            &&& t.homes.dom() == s.homes.dom()
            &&& forall|x: Seq<char>| #[trigger]
                s.homes.contains_key(x) && s.paths.contains_key(s.homes[x]) ==> has_path(
                    t,
                    t.homes[x],
                    s.paths[s.homes[x]],
                )
        }),
    decreases n,
{
    if n > 0 {
        let before = (n - 1) as nat;
        lemma_after_merges(s, paths, merges, before);
        let p = after_merges(s, merges, before);
        let t = after_merges(s, merges, n);
        let k = n - 1;
        let m = merges[k];
        let gone = m.merge@;
        assert(covers(s, paths[k], m));
        assert forall|id: i64| has_path(s, id, paths[k]) implies !is_gone(merges, before, id) by {
            if is_gone(merges, before, id) {
                let l = choose|l: int| 0 <= l < before && (#[trigger] merges[l]).merge@.contains(id);
                assert(covers(s, paths[l], merges[l]));
                assert(has_path(s, id, paths[l]));
                assert(paths[l] != paths[k]);
            }
        }
        assert forall|i: int| 0 <= i < gone.len() implies p.paths.contains_key(#[trigger] gone[i]) by {
            assert(has_path(s, gone[i], paths[k]));
        }
        lemma_after_merge(p, m.keep, gone);
        assert forall|id: i64| #[trigger]
            t.paths.contains_key(id) <==> s.paths.contains_key(id) && !is_gone(merges, n, id) by {
            if is_gone(merges, before, id) {
                let l = choose|l: int| 0 <= l < before && (#[trigger] merges[l]).merge@.contains(id);
                assert(merges[l].merge@.contains(id));
                assert(is_gone(merges, n, id));
            }
            if gone.contains(id) {
                assert(merges[k].merge@.contains(id));
                assert(is_gone(merges, n, id));
            }
            if is_gone(merges, n, id) {
                let l = choose|l: int| 0 <= l < n && (#[trigger] merges[l]).merge@.contains(id);
                if l < before {
                    assert(is_gone(merges, before, id));
                }
            }
        }
        assert(has_path(s, m.keep, paths[k]));
        assert forall|x: Seq<char>| #[trigger]
            s.homes.contains_key(x) && s.paths.contains_key(s.homes[x]) implies has_path(
            t,
            t.homes[x],
            s.paths[s.homes[x]],
        ) by {
            assert(p.homes.contains_key(x));
            let home = p.homes[x];
            assert(has_path(p, home, s.paths[s.homes[x]]));
            if gone.contains(home) {
                assert(has_path(s, home, paths[k]));
                assert(t.paths.contains_key(m.keep));
            } else {
                assert(t.paths.contains_key(home));
            }
        }
    } else {
        assert forall|x: Seq<char>| #[trigger]
            s.homes.contains_key(x) && s.paths.contains_key(s.homes[x]) implies has_path(
            s,
            s.homes[x],
            s.paths[s.homes[x]],
        ) by {}
    }
}

/// Once the projects of every path that has more than one were made one, no two projects share a
/// path, as many projects are gone as were deleted, no session is lost, each session belongs to a
/// project of the path that it had, and there is nothing to be made one any more.
pub proof fn deduplication_leaves_one(
    s: Holdings,
    paths: Seq<Seq<char>>,
    merges: Seq<ProjectMerge>,
)
    requires
        is_plan(s, paths, merges),
        s.paths.dom().finite(),
    ensures
        ({
            let t = after_merges(s, merges, merges.len());
            &&& forall|path: Seq<char>| !#[trigger] is_doubled(t, path)
            &&& t.paths.len() + deleted_count(merges, merges.len()) == s.paths.len()
            &&& t.homes.dom() == s.homes.dom()
            &&& forall|x: Seq<char>| #[trigger]
                s.homes.contains_key(x) && s.paths.contains_key(s.homes[x]) ==> has_path(
                    t,
                    t.homes[x],
                    s.paths[s.homes[x]],
                )
            &&& forall|again: Seq<Seq<char>>, more: Seq<ProjectMerge>| #[trigger]
                is_plan(t, again, more) && (forall|k: int|
                    0 <= k < more.len() ==> (#[trigger] more[k]).merge@.len() > 0) ==> more.len()
                    == 0
        }),
{
    let n = merges.len();
    let t = after_merges(s, merges, n);
    lemma_after_merges(s, paths, merges, n);
    assert forall|path: Seq<char>| !#[trigger] is_doubled(t, path) by {
        if is_doubled(t, path) {
            let (a, b) = choose|a: i64, b: i64|
                a != b && #[trigger] has_path(t, a, path) && #[trigger] has_path(t, b, path);
            assert(has_path(s, a, path) && has_path(s, b, path));
            assert(is_doubled(s, path));
            let k = choose|k: int| 0 <= k < paths.len() && paths[k] == path;
            assert(covers(s, paths[k], merges[k]));
            assert(!is_gone(merges, n, a) && !is_gone(merges, n, b));
            assert(!merges[k].merge@.contains(a) && !merges[k].merge@.contains(b));
        }
    }
    assert forall|again: Seq<Seq<char>>, more: Seq<ProjectMerge>| #[trigger]
        is_plan(t, again, more) && (forall|k: int|
            0 <= k < more.len() ==> (#[trigger] more[k]).merge@.len() > 0) implies more.len()
        == 0 by {
        if more.len() > 0 {
            let m = more[0];
            assert(covers(t, again[0], m));
            assert(m.merge@.contains(m.merge@[0]));
            assert(has_path(t, m.keep, again[0]) && has_path(t, m.merge@[0], again[0]));
            assert(is_doubled(t, again[0]));
        }
    }
}

// ---- Relations between sessions ----

/// The relations between sessions once one was written: the parent, the child, and how they are
/// related. No session is its own parent, and no relation is kept twice.
pub open spec fn after_relation(
    relations: Set<(Seq<char>, Seq<char>, Seq<char>)>,
    parent: Seq<char>,
    child: Seq<char>,
    kind: Seq<char>,
) -> Set<(Seq<char>, Seq<char>, Seq<char>)> {
    if parent == child {
        relations
    } else {
        relations.insert((parent, child, kind))
    }
}

/// Writing a relation a second time changes nothing, the relations that are there stay, and no
/// session becomes its own parent.
pub proof fn relation_is_written_once(
    relations: Set<(Seq<char>, Seq<char>, Seq<char>)>,
    parent: Seq<char>,
    child: Seq<char>,
    kind: Seq<char>,
)
    ensures
        ({
            let once = after_relation(relations, parent, child, kind);
            &&& after_relation(once, parent, child, kind) == once
            &&& relations.subset_of(once)
            &&& once.contains((parent, child, kind)) || parent == child
            &&& parent == child ==> once == relations
        }),
{
    let once = after_relation(relations, parent, child, kind);
    assert(after_relation(once, parent, child, kind) =~= once);
}

} // verus!

//! Putting what ranks highest first, and leaving equals in their order.
use vstd::prelude::*;

verus! {

/// Something with a rank.
pub trait Ranked: Sized {
    spec fn rank_of(self) -> int;

    fn ranks_above(&self, other: &Self) -> (r: bool)
        ensures
            r == (self.rank_of() > other.rank_of()),
    ;
}

/// The rank of what was last active at some time, or never: the later the higher, and never the
/// lowest.
pub open spec fn activity_rank(last: Option<u64>) -> int {
    match last {
        Some(t) => t as int,
        None => -1,
    }
}

/// Whether `a` was active later than `b`.
pub fn later(a: Option<u64>, b: Option<u64>) -> (r: bool)
    ensures
        r == (activity_rank(a) > activity_rank(b)),
{
    match (a, b) {
        (Some(x), Some(y)) => x > y,
        (Some(_), None) => true,
        _ => false,
    }
}

/// Whether `places` lists each place of `items` once, the higher ranks first and equal ranks in the
/// order in which they stand in `items`.
pub open spec fn is_ranking<T: Ranked>(items: Seq<T>, places: Seq<int>) -> bool {
    &&& places.len() == items.len()
    &&& forall|k: int| 0 <= k < places.len() ==> 0 <= #[trigger] places[k] < items.len()
    &&& forall|j: int, k: int|
        #![trigger places[j], places[k]]
        0 <= j < k < places.len() ==> {
            ||| items[places[j]].rank_of() > items[places[k]].rank_of()
            ||| (items[places[j]].rank_of() == items[places[k]].rank_of() && places[j]
                < places[k])
        }
}

/// Whether `r` holds the items of `items`, the higher ranks first and equal ranks in the order in
/// which they stand in `items`.
pub open spec fn arranged<T: Ranked>(items: Seq<T>, r: Seq<T>) -> bool {
    exists|places: Seq<int>| #[trigger]
        is_ranking(items, places) && r == places.map_values(|p: int| items[p])
}

/// The items, the higher ranks first and equal ranks in the order given.
pub fn highest_first<T: Ranked>(items: Vec<T>) -> (r: Vec<T>)
    ensures
        arranged(items@, r@),
{
    let ghost all = items@;
    let mut rest = items;
    let mut r: Vec<T> = Vec::new();
    let ghost mut places: Seq<int> = Seq::empty();
    while rest.len() > 0
        invariant
            rest@ == all.take(rest@.len() as int),
            rest@.len() <= all.len(),
            r@.len() == places.len() == all.len() - rest@.len(),
            forall|k: int|
                0 <= k < places.len() ==> rest@.len() <= #[trigger] places[k] < all.len() && r@[k]
                    == all[places[k]],
            forall|j: int, k: int|
                #![trigger places[j], places[k]]
                0 <= j < k < places.len() ==> {
                    ||| all[places[j]].rank_of() > all[places[k]].rank_of()
                    ||| (all[places[j]].rank_of() == all[places[k]].rank_of() && places[j]
                        < places[k])
                },
        decreases rest@.len(),
    {
        let ghost n = rest@.len() as int;
        match rest.pop() {
            Some(item) => {
                let mut at: usize = 0;
                while at < r.len() && r[at].ranks_above(&item)
                    invariant
                        at <= r@.len(),
                        forall|k: int|
                            0 <= k < at ==> #[trigger] r@[k].rank_of() > item.rank_of(),
                    decreases r@.len() - at,
                {
                    at += 1;
                }
                let ghost before = r@;
                let ghost old_places = places;
                r.insert(at, item);
                proof {
                    places = places.insert(at as int, n - 1);
                    assert forall|k: int| 0 <= k < places.len() implies n - 1 <= #[trigger] places[k]
                        < all.len() && r@[k] == all[places[k]] by {
                        if k < at {
                            assert(places[k] == old_places[k]);
                        } else if k > at {
                            assert(places[k] == old_places[k - 1]);
                        }
                    }
                    assert forall|j: int, k: int|
                        #![trigger places[j], places[k]]
                        0 <= j < k < places.len() implies {
                        ||| all[places[j]].rank_of() > all[places[k]].rank_of()
                        ||| (all[places[j]].rank_of() == all[places[k]].rank_of() && places[j]
                            < places[k])
                    } by {
                        if j < at {
                            assert(places[j] == old_places[j]);
                            assert(before[j] == all[old_places[j]]);
                        }
                        if k < at {
                            assert(places[k] == old_places[k]);
                        }
                        if k > at {
                            assert(places[k] == old_places[k - 1]);
                            assert(before[k - 1] == all[old_places[k - 1]]);
                        }
                        if j > at {
                            assert(places[j] == old_places[j - 1]);
                        }
                        if j == at {
                            assert(before[at as int].rank_of() <= item.rank_of());
                            if k - 1 > at {
                                assert(before[at as int] == all[old_places[at as int]]);
                            }
                        }
                    }
                }
            },
            None => {},
        }
    }
    proof {
        assert(is_ranking(all, places));
        assert(r@ =~= places.map_values(|p: int| all[p]));
    }
    r
}

proof fn lemma_ranking_covers<T: Ranked>(items: Seq<T>, places: Seq<int>, i: int)
    requires
        is_ranking(items, places),
        0 <= i < items.len(),
    ensures
        exists|k: int| 0 <= k < places.len() && #[trigger] places[k] == i,
{
    let n = items.len() as int;
    assert(places.no_duplicates()) by {
        assert forall|j: int, k: int|
            0 <= j < places.len() && 0 <= k < places.len() && j != k implies places[j]
            != places[k] by {
            if j < k {
                assert(places[j] != places[k] || places[j] < places[k]);
            } else {
                assert(places[k] != places[j] || places[k] < places[j]);
            }
        }
    }
    places.unique_seq_to_set();
    vstd::set_lib::lemma_int_range(0, n);
    let all = vstd::set_lib::set_int_range(0, n);
    assert(places.to_set().subset_of(all)) by {
        assert forall|x: int| places.to_set().contains(x) implies all.contains(x) by {
            let k = choose|k: int| 0 <= k < places.len() && places[k] == x;
            assert(0 <= places[k] < n);
        }
    }
    vstd::seq_lib::seq_to_set_is_finite(places);
    vstd::set_lib::lemma_subset_equality(places.to_set(), all);
    assert(places.to_set().contains(i));
    let k = choose|k: int| 0 <= k < places.len() && places[k] == i;
    assert(places[k] == i);
}

/// Putting items in order loses none of them.
pub proof fn arranging_keeps_all<T: Ranked>(items: Seq<T>, r: Seq<T>, i: int)
    requires
        arranged(items, r),
        0 <= i < items.len(),
    ensures
        r.len() == items.len(),
        r.contains(items[i]),
{
    let places = choose|places: Seq<int>| #[trigger]
        is_ranking(items, places) && r == places.map_values(|p: int| items[p]);
    lemma_ranking_covers(items, places, i);
    let k = choose|k: int| 0 <= k < places.len() && #[trigger] places[k] == i;
    assert(r[k] == items[i]);
}

proof fn lemma_rankings_agree<T: Ranked>(items: Seq<T>, p: Seq<int>, q: Seq<int>, k: int)
    requires
        is_ranking(items, p),
        is_ranking(items, q),
        0 <= k <= items.len(),
    ensures
        forall|i: int| 0 <= i < k ==> p[i] == q[i],
    decreases k,
{
    if k > 0 {
        let i = k - 1;
        lemma_rankings_agree(items, p, q, i);
        lemma_ranking_covers(items, q, p[i]);
        lemma_ranking_covers(items, p, q[i]);
        let m = choose|m: int| 0 <= m < q.len() && #[trigger] q[m] == p[i];
        let n = choose|n: int| 0 <= n < p.len() && #[trigger] p[n] == q[i];
        if m < i {
            assert(p[m] == p[i]);
        }
        if n < i {
            assert(q[n] == q[i]);
        }
        if m > i && n > i {
            assert(q[i] == p[n] && q[m] == p[i]);
        }
    }
}

/// There is only one way to put items in order.
pub proof fn arrangement_is_unique<T: Ranked>(items: Seq<T>, r: Seq<T>, s: Seq<T>)
    requires
        arranged(items, r),
        arranged(items, s),
    ensures
        r == s,
{
    let p = choose|p: Seq<int>| #[trigger]
        is_ranking(items, p) && r == p.map_values(|x: int| items[x]);
    let q = choose|q: Seq<int>| #[trigger]
        is_ranking(items, q) && s == q.map_values(|x: int| items[x]);
    lemma_rankings_agree(items, p, q, items.len() as int);
    assert(r =~= s);
}

} // verus!

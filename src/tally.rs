//! Counting activity records by content and keeping the most active: the
//! in-process part of the batch recomputation for comments and views.

use vstd::prelude::*;

use std::collections::HashMap;

verus! {

broadcast use vstd::std_specs::hash::group_hash_axioms;

/// A member of a ranking and its count.
#[derive(Clone, Copy, Debug, PartialEq, Eq, Structural)]
pub struct CountEntry {
    pub id: i64,
    pub count: i64,
}

/// How many times `x` occurs in `s`.
pub open spec fn occurrences(s: Seq<i64>, x: i64) -> nat
    decreases s.len(),
{
    if s.len() == 0 {
        0
    } else {
        occurrences(s.drop_last(), x) + if s.last() == x {
            1nat
        } else {
            0nat
        }
    }
}

/// Whether `a` ranks ahead of `b`: a higher count, or an equal count and a
/// smaller id.
pub open spec fn ranks_before(a: CountEntry, b: CountEntry) -> bool {
    a.count > b.count || (a.count == b.count && a.id < b.id)
}

pub open spec fn has_id(r: Seq<CountEntry>, x: i64) -> bool {
    exists|i: int| 0 <= i < r.len() && (#[trigger] r[i]).id == x
}

pub open spec fn distinct_ids(r: Seq<CountEntry>) -> bool {
    forall|i: int, j: int| 0 <= i < j < r.len() ==> (#[trigger] r[i]).id != (#[trigger] r[j]).id
}

/// `r` lists each id of `ids` once, with the number of times it occurs.
pub open spec fn is_tally(ids: Seq<i64>, r: Seq<CountEntry>) -> bool {
    &&& distinct_ids(r)
    &&& forall|i: int| 0 <= i < r.len() ==> (#[trigger] r[i]).count == occurrences(ids, r[i].id)
    &&& forall|x: i64| ids.contains(x) <==> has_id(r, x)
}

proof fn lemma_occurrences_push(s: Seq<i64>, y: i64, x: i64)
    ensures
        occurrences(s.push(y), x) == occurrences(s, x) + if y == x {
            1nat
        } else {
            0nat
        },
{
    assert(s.push(y).drop_last() =~= s);
}

proof fn lemma_occurrences_bound(s: Seq<i64>, x: i64)
    ensures
        occurrences(s, x) <= s.len(),
    decreases s.len(),
{
    if s.len() > 0 {
        lemma_occurrences_bound(s.drop_last(), x);
    }
}

/// Each distinct id of `ids` with the number of times it occurs, in the order
/// of first occurrence.
pub fn tally(ids: &Vec<i64>) -> (r: Vec<CountEntry>)
    requires
        ids@.len() <= i64::MAX,
    ensures
        is_tally(ids@, r@),
{
    let mut r: Vec<CountEntry> = Vec::new();
    let mut position: HashMap<i64, usize> = HashMap::new();
    let n = ids.len();
    let mut i: usize = 0;
    while i < n
        invariant
            i <= n,
            n == ids@.len(),
            n <= i64::MAX,
            distinct_ids(r@),
            forall|j: int| 0 <= j < r@.len() ==> (#[trigger] r@[j]).count == occurrences(
                ids@.take(i as int),
                r@[j].id,
            ),
            forall|x: i64| ids@.take(i as int).contains(x) <==> position@.contains_key(x),
            forall|x: i64| #[trigger]
                position@.contains_key(x) ==> position@[x] < r@.len() && r@[position@[x] as int].id
                    == x,
            forall|j: int| 0 <= j < r@.len() ==> position@.contains_key(#[trigger] r@[j].id),
        decreases n - i,
    {
        let x = ids[i];
        let ghost before = ids@.take(i as int);
        proof {
            assert(ids@.take(i + 1) =~= before.push(x));
            assert forall|y: i64| #[trigger] occurrences(ids@.take(i + 1), y) == occurrences(
                before,
                y,
            ) + if x == y {
                1nat
            } else {
                0nat
            } by {
                lemma_occurrences_push(before, x, y);
            }
            lemma_occurrences_bound(before, x);
        }
        match position.get(&x) {
            Some(p) => {
                let p = *p;
                let old_entry = r[p];
                let ghost old_r = r@;
                r.set(p, CountEntry { id: x, count: old_entry.count + 1 });
                proof {
                    assert forall|y: i64| ids@.take(i + 1).contains(y) <==> position@.contains_key(
                        y,
                    ) by {
                        if ids@.take(i + 1).contains(y) && y != x {
                            let next = ids@.take(i + 1);
                            let k = choose|k: int| 0 <= k < next.len() && #[trigger] next[k] == y;
                            assert(before[k] == y);
                        }
                        if y == x {
                            assert(ids@.take(i + 1)[i as int] == x);
                        }
                    }
                    assert forall|j: int| 0 <= j < r@.len() implies position@.contains_key(
                        #[trigger] r@[j].id,
                    ) by {
                        assert(old_r[j].id == r@[j].id);
                    }
                }
            },
            None => {
                let ghost old_r = r@;
                let ghost old_position = position@;
                assert(!has_id(r@, x)) by {
                    if has_id(r@, x) {
                        let j = choose|j: int| 0 <= j < r@.len() && (#[trigger] r@[j]).id == x;
                        assert(position@.contains_key(r@[j].id));
                    }
                }
                position.insert(x, r.len());
                r.push(CountEntry { id: x, count: 1 });
                proof {
                    assert(occurrences(before, x) == 0) by {
                        if occurrences(before, x) > 0 {
                            lemma_occurrences_positive(before, x);
                        }
                    }
                    assert forall|y: i64| ids@.take(i + 1).contains(y) <==> position@.contains_key(
                        y,
                    ) by {
                        if ids@.take(i + 1).contains(y) && y != x {
                            let next = ids@.take(i + 1);
                            let k = choose|k: int| 0 <= k < next.len() && #[trigger] next[k] == y;
                            assert(before[k] == y);
                        }
                        if y == x {
                            assert(ids@.take(i + 1)[i as int] == x);
                        }
                    }
                    assert forall|j: int| 0 <= j < r@.len() implies position@.contains_key(
                        #[trigger] r@[j].id,
                    ) by {
                        if j < old_r.len() {
                            assert(old_position.contains_key(old_r[j].id));
                        }
                    }
                    assert forall|a: int, b: int| 0 <= a < b < r@.len() implies (#[trigger] r@[a]).id
                        != (#[trigger] r@[b]).id by {
                        if b == old_r.len() {
                            assert(old_position.contains_key(old_r[a].id));
                        } else {
                            assert(old_r[a].id != old_r[b].id);
                        }
                    }
                }
            },
        }
        i = i + 1;
    }
    proof {
        assert(ids@.take(n as int) =~= ids@);
        assert forall|x: i64| ids@.contains(x) <==> has_id(r@, x) by {
            if position@.contains_key(x) {
                assert(r@[position@[x] as int].id == x);
            }
            if has_id(r@, x) {
                let j = choose|j: int| 0 <= j < r@.len() && (#[trigger] r@[j]).id == x;
                assert(position@.contains_key(r@[j].id));
            }
        }
    }
    r
}

proof fn lemma_occurrences_positive(s: Seq<i64>, x: i64)
    requires
        occurrences(s, x) > 0,
    ensures
        s.contains(x),
    decreases s.len(),
{
    if s.last() == x {
        assert(s[s.len() - 1] == x);
    } else {
        lemma_occurrences_positive(s.drop_last(), x);
        let t = s.drop_last();
        let k = choose|k: int| 0 <= k < t.len() && #[trigger] t[k] == x;
        assert(s[k] == x);
    }
}

/// `r` is in strict ranking order.
pub open spec fn in_rank_order(r: Seq<CountEntry>) -> bool {
    forall|i: int, j: int| 0 <= i < j < r.len() ==> ranks_before(#[trigger] r[i], #[trigger] r[j])
}

proof fn lemma_ranks_total(a: CountEntry, b: CountEntry)
    requires
        a.id != b.id,
    ensures
        ranks_before(a, b) || ranks_before(b, a),
{
}

/// The first `k` entries of `entries` in ranking order: every entry left out
/// ranks behind every entry kept, and fewer than `k` are kept only when all are.
fn rank_top(entries: &Vec<CountEntry>, k: usize) -> (r: Vec<CountEntry>)
    requires
        distinct_ids(entries@),
    ensures
        r@.len() <= k,
        in_rank_order(r@),
        forall|i: int| 0 <= i < r@.len() ==> entries@.contains(#[trigger] r@[i]),
        forall|j: int|
            0 <= j < entries@.len() && !r@.contains(#[trigger] entries@[j]) ==> r@.len() == k
                && forall|i: int| 0 <= i < r@.len() ==> ranks_before(#[trigger] r@[i], entries@[j]),
{
    let n = entries.len();
    let mut taken: Vec<bool> = Vec::new();
    while taken.len() < n
        invariant
            taken@.len() <= n,
            forall|j: int| 0 <= j < taken@.len() ==> !(#[trigger] taken@[j]),
        decreases n - taken@.len(),
    {
        taken.push(false);
    }
    let mut r: Vec<CountEntry> = Vec::new();
    let ghost mut picked: Seq<int> = Seq::empty();
    let mut exhausted = false;
    while r.len() < k && !exhausted
        invariant
            n == entries@.len(),
            distinct_ids(entries@),
            taken@.len() == n,
            r@.len() <= k,
            picked.len() == r@.len(),
            forall|i: int| 0 <= i < picked.len() ==> 0 <= #[trigger] picked[i] < n,
            forall|i: int| 0 <= i < r@.len() ==> #[trigger] r@[i] == entries@[picked[i]],
            forall|j: int| 0 <= j < n ==> (#[trigger] taken@[j] <==> picked.contains(j)),
            in_rank_order(r@),
            forall|i: int, j: int|
                0 <= i < r@.len() && 0 <= j < n && !taken@[j] ==> ranks_before(
                    #[trigger] r@[i],
                    #[trigger] entries@[j],
                ),
            exhausted ==> forall|j: int| 0 <= j < n ==> #[trigger] taken@[j],
        decreases k - r@.len() + if exhausted {
            0int
        } else {
            1int
        },
    {
        let mut best: Option<usize> = None;
        let mut j: usize = 0;
        while j < n
            invariant
                j <= n,
                n == entries@.len(),
                taken@.len() == n,
                best matches Some(b) ==> b < n && !taken@[b as int],
                best matches Some(b) ==> forall|j2: int|
                    0 <= j2 < j && !taken@[j2] ==> !ranks_before(
                        #[trigger] entries@[j2],
                        entries@[b as int],
                    ),
                best is None ==> forall|j2: int| 0 <= j2 < j ==> #[trigger] taken@[j2],
            decreases n - j,
        {
            if !taken[j] {
                match best {
                    None => {
                        best = Some(j);
                    },
                    Some(b) => {
                        let e = entries[j];
                        let f = entries[b];
                        if e.count > f.count || (e.count == f.count && e.id < f.id) {
                            best = Some(j);
                        }
                    },
                }
            }
            j = j + 1;
        }
        match best {
            None => {
                exhausted = true;
            },
            Some(b) => {
                let e = entries[b];
                let ghost old_r = r@;
                let ghost old_taken = taken@;
                let ghost old_picked = picked;
                proof {
                    assert forall|j2: int| 0 <= j2 < n && !old_taken[j2] && j2 != b implies ranks_before(
                        e,
                        #[trigger] entries@[j2],
                    ) by {
                        assert(entries@[j2].id != entries@[b as int].id);
                        lemma_ranks_total(entries@[j2], e);
                    }
                    assert(!picked.contains(b as int));
                }
                r.push(e);
                taken.set(b, true);
                proof {
                    picked = picked.push(b as int);
                    assert forall|j2: int| 0 <= j2 < n implies (#[trigger] taken@[j2]
                        <==> picked.contains(j2)) by {
                        if j2 != b {
                            assert(old_taken[j2] == taken@[j2]);
                            assert(old_taken[j2] <==> old_picked.contains(j2));
                            assert(picked.drop_last() =~= old_picked);
                            if picked.contains(j2) {
                                let i = choose|i: int| 0 <= i < picked.len() && picked[i] == j2;
                                assert(i < old_r.len());
                                assert(picked.drop_last()[i] == j2);
                            }
                            if old_taken[j2] {
                                let i = choose|i: int|
                                    0 <= i < picked.drop_last().len() && picked.drop_last()[i]
                                        == j2;
                                assert(picked[i] == j2);
                            }
                        } else {
                            assert(picked[picked.len() - 1] == j2);
                        }
                    }
                    assert forall|i1: int, i2: int| 0 <= i1 < i2 < r@.len() implies ranks_before(
                        #[trigger] r@[i1],
                        #[trigger] r@[i2],
                    ) by {
                        if i2 == old_r.len() {
                            assert(!old_taken[b as int]);
                            assert(ranks_before(old_r[i1], entries@[b as int]));
                        } else {
                            assert(ranks_before(old_r[i1], old_r[i2]));
                        }
                    }
                    assert forall|i: int, j2: int|
                        0 <= i < r@.len() && 0 <= j2 < n && !taken@[j2] implies ranks_before(
                        #[trigger] r@[i],
                        #[trigger] entries@[j2],
                    ) by {
                        assert(j2 != b);
                        assert(!old_taken[j2]);
                        if i < old_r.len() {
                            assert(ranks_before(old_r[i], entries@[j2]));
                        }
                    }
                }
            },
        }
    }
    proof {
        assert forall|j: int|
            0 <= j < entries@.len() && !r@.contains(#[trigger] entries@[j]) implies r@.len() == k
            && forall|i: int| 0 <= i < r@.len() ==> ranks_before(#[trigger] r@[i], entries@[j]) by {
            if taken@[j] {
                let i = choose|i: int| 0 <= i < picked.len() && picked[i] == j;
                assert(r@[i] == entries@[j]);
            }
        }
        assert forall|i: int| 0 <= i < r@.len() implies entries@.contains(#[trigger] r@[i]) by {
            assert(entries@[picked[i]] == r@[i]);
        }
    }
    r
}

/// The ranking of `r` by occurrence in `ids`: at most `limit` entries, each an
/// id of `ids` with its number of occurrences, in ranking order; an id left out
/// ranks behind every entry kept, and only when `limit` entries are kept.
pub open spec fn is_top_by_occurrence(ids: Seq<i64>, limit: nat, r: Seq<CountEntry>) -> bool {
    &&& r.len() <= limit
    &&& in_rank_order(r)
    &&& forall|i: int|
        0 <= i < r.len() ==> ids.contains((#[trigger] r[i]).id) && r[i].count == occurrences(
            ids,
            r[i].id,
        )
    &&& forall|x: i64|
        ids.contains(x) && !has_id(r, x) ==> r.len() == limit && forall|i: int|
            0 <= i < r.len() ==> ranks_before(
                #[trigger] r[i],
                CountEntry { id: x, count: occurrences(ids, x) as i64 },
            )
}

/// The ids of `ids` that occur most, each with its number of occurrences, most
/// first, at most `limit` of them; equal counts go by smaller id first.
pub fn rank_by_occurrence(ids: &Vec<i64>, limit: usize) -> (r: Vec<CountEntry>)
    requires
        ids@.len() <= i64::MAX,
    ensures
        is_top_by_occurrence(ids@, limit as nat, r@),
{
    let counted = tally(ids);
    let r = rank_top(&counted, limit);
    proof {
        assert forall|i: int| 0 <= i < r@.len() implies ids@.contains((#[trigger] r@[i]).id)
            && r@[i].count == occurrences(ids@, r@[i].id) by {
            let j = choose|j: int| 0 <= j < counted@.len() && counted@[j] == r@[i];
            assert(has_id(counted@, counted@[j].id));
        }
        assert forall|x: i64| ids@.contains(x) && !has_id(r@, x) implies r@.len() == limit
            && forall|i: int|
            0 <= i < r@.len() ==> ranks_before(
                #[trigger] r@[i],
                CountEntry { id: x, count: occurrences(ids@, x) as i64 },
            ) by {
            let j = choose|j: int| 0 <= j < counted@.len() && (#[trigger] counted@[j]).id == x;
            if r@.contains(counted@[j]) {
                let i = choose|i: int| 0 <= i < r@.len() && r@[i] == counted@[j];
                assert(r@[i].id == x);
            }
            assert(counted@[j] == CountEntry { id: x, count: occurrences(ids@, x) as i64 });
        }
    }
    r
}

} // verus!

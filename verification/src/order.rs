//! Ordering rows by time, as `ORDER BY created_at [ASC|DESC] LIMIT n` does:
//! rows with equal instants keep the order in which they were stored
//! (ascending) or its reverse (descending).

use vstd::prelude::*;

verus! {

/// Row `a` comes before row `b` when rows are ordered by instant `t`,
/// ties broken by storage position.
pub open spec fn before(t: Seq<i64>, desc: bool, a: int, b: int) -> bool {
    if desc {
        t[a] > t[b] || (t[a] == t[b] && a > b)
    } else {
        t[a] < t[b] || (t[a] == t[b] && a < b)
    }
}

/// `r` holds the first rows of the candidates `cand` in time order, at most
/// `limit` of them (all of them where `limit` is `None`).
pub open spec fn is_time_order_prefix(
    r: Seq<usize>,
    cand: Seq<usize>,
    t: Seq<i64>,
    desc: bool,
    limit: Option<usize>,
) -> bool {
    &&& forall|i: int| 0 <= i < r.len() ==> cand.contains(#[trigger] r[i])
    &&& forall|i: int, j: int| 0 <= i < j < r.len() ==> before(t, desc, #[trigger] r[i] as int, #[trigger] r[j] as int)
    &&& forall|c: usize|
        #[trigger] cand.contains(c) && !r.contains(c) ==> forall|i: int|
            0 <= i < r.len() ==> before(t, desc, #[trigger] r[i] as int, c as int)
    &&& match limit {
        Some(l) => r.len() <= l && (r.len() == l || forall|c: usize| #[trigger] cand.contains(c) ==> r.contains(c)),
        None => forall|c: usize| #[trigger] cand.contains(c) ==> r.contains(c),
    }
}

/// A sequence without repetition whose items all occur in `c` is no longer
/// than `c`.
pub proof fn lemma_distinct_subset_len<A>(r: Seq<A>, c: Seq<A>)
    requires
        r.no_duplicates(),
        forall|i: int| 0 <= i < r.len() ==> c.contains(#[trigger] r[i]),
    ensures
        r.len() <= c.len(),
{
    broadcast use vstd::seq_lib::seq_to_set_is_finite;
    r.unique_seq_to_set();
    c.lemma_cardinality_of_set();
    assert(r.to_set().subset_of(c.to_set())) by {
        assert forall|x: A| r.to_set().contains(x) implies c.to_set().contains(x) by {
            let i = choose|i: int| 0 <= i < r.len() && r[i] == x;
            assert(c.contains(r[i]));
        }
    }
    vstd::set_lib::lemma_len_subset(r.to_set(), c.to_set());
}

fn before_exec(t: &Vec<i64>, desc: bool, a: usize, b: usize) -> (r: bool)
    requires
        a < t.len(),
        b < t.len(),
    ensures
        r == before(t@, desc, a as int, b as int),
{
    if desc {
        t[a] > t[b] || (t[a] == t[b] && a > b)
    } else {
        t[a] < t[b] || (t[a] == t[b] && a < b)
    }
}

/// The candidates `cand` (row positions into `t`) in time order, ascending
/// or descending, cut after `limit` rows.
pub fn order_by_time(t: &Vec<i64>, cand: &Vec<usize>, desc: bool, limit: Option<usize>) -> (r: Vec<usize>)
    requires
        forall|i: int| 0 <= i < cand.len() ==> #[trigger] cand@[i] < t.len(),
    ensures
        is_time_order_prefix(r@, cand@, t@, desc, limit),
{
    let mut r: Vec<usize> = Vec::new();
    loop
        invariant
            forall|i: int| 0 <= i < cand.len() ==> #[trigger] cand@[i] < t.len(),
            r.len() <= cand.len(),
            forall|i: int| 0 <= i < r.len() ==> cand@.contains(#[trigger] r@[i]),
            forall|i: int| 0 <= i < r.len() ==> #[trigger] r@[i] < t.len(),
            forall|i: int, j: int| 0 <= i < j < r.len() ==> before(t@, desc, #[trigger] r@[i] as int, #[trigger] r@[j] as int),
            forall|c: usize|
                #[trigger] cand@.contains(c) && !r@.contains(c) ==> forall|i: int|
                    0 <= i < r.len() ==> before(t@, desc, #[trigger] r@[i] as int, c as int),
            limit matches Some(l) ==> r.len() <= l,
        ensures
            is_time_order_prefix(r@, cand@, t@, desc, limit),
        decreases cand.len() - r.len(),
    {
        if let Some(l) = limit {
            if r.len() >= l {
                break;
            }
        }
        let mut best: Option<usize> = None;
        let mut k: usize = 0;
        while k < cand.len()
            invariant
                forall|i: int| 0 <= i < cand.len() ==> #[trigger] cand@[i] < t.len(),
                k <= cand.len(),
                forall|i: int| 0 <= i < r.len() ==> #[trigger] r@[i] < t.len(),
                best matches Some(b) ==> {
                    &&& cand@.contains(b)
                    &&& (r.len() == 0 || before(t@, desc, r@[r.len() - 1] as int, b as int))
                },
                forall|m: int|
                    0 <= m < k && (r.len() == 0 || before(t@, desc, r@[r.len() - 1] as int, #[trigger] cand@[m] as int))
                        ==> (best matches Some(b) && (b == cand@[m] || before(t@, desc, b as int, cand@[m] as int))),
            decreases cand.len() - k,
        {
            let c = cand[k];
            let after_last = r.len() == 0 || before_exec(t, desc, r[r.len() - 1], c);
            if after_last {
                match best {
                    None => {
                        best = Some(c);
                    },
                    Some(b) => {
                        if before_exec(t, desc, c, b) {
                            best = Some(c);
                        }
                    },
                }
            }
            k = k + 1;
        }
        match best {
            None => {
                assert forall|c: usize| #[trigger] cand@.contains(c) implies r@.contains(c) by {
                    if !r@.contains(c) {
                        let m = choose|m: int| 0 <= m < cand.len() && cand@[m] == c;
                        if r.len() > 0 {
                            assert(before(t@, desc, r@[r.len() - 1] as int, c as int));
                        }
                    }
                }
                break;
            },
            Some(b) => {
                let ghost old_r = r@;
                assert(!old_r.contains(b)) by {
                    if old_r.contains(b) {
                        let i = choose|i: int| 0 <= i < old_r.len() && old_r[i] == b;
                        if i < old_r.len() - 1 {
                            assert(before(t@, desc, old_r[i] as int, old_r[old_r.len() - 1] as int));
                        }
                    }
                }
                r.push(b);
                assert forall|c: usize| #[trigger] cand@.contains(c) && !r@.contains(c) implies forall|i: int|
                    0 <= i < r.len() ==> before(t@, desc, #[trigger] r@[i] as int, c as int) by {
                    assert(!old_r.contains(c)) by {
                        if old_r.contains(c) {
                            let i = choose|i: int| 0 <= i < old_r.len() && old_r[i] == c;
                            assert(r@[i] == c);
                        }
                    }
                    assert(c != b) by {
                        assert(r@[r.len() - 1] == b);
                    }
                    let m = choose|m: int| 0 <= m < cand.len() && cand@[m] == c;
                    assert forall|i: int| 0 <= i < r.len() implies before(t@, desc, #[trigger] r@[i] as int, c as int) by {
                        if i < old_r.len() {
                            assert(r@[i] == old_r[i]);
                        }
                    }
                }
                assert(r@.no_duplicates()) by {
                    assert forall|i: int, j: int| 0 <= i < r.len() && 0 <= j < r.len() && i != j implies r@[i] != r@[j] by {
                        if i < j {
                            assert(before(t@, desc, r@[i] as int, r@[j] as int));
                        } else {
                            assert(before(t@, desc, r@[j] as int, r@[i] as int));
                        }
                    }
                }
                proof {
                    lemma_distinct_subset_len(r@, cand@);
                }
            },
        }
    }
    r
}

/// `r` lists, in time order, the positions below `n` that `sel` picks,
/// cut after `limit` of them.
pub open spec fn time_ordered_selection(
    r: Seq<usize>,
    n: int,
    sel: spec_fn(int) -> bool,
    t: Seq<i64>,
    desc: bool,
    limit: Option<usize>,
) -> bool {
    &&& forall|i: int| 0 <= i < r.len() ==> 0 <= #[trigger] r[i] < n && sel(r[i] as int)
    &&& forall|i: int, j: int| 0 <= i < j < r.len() ==> before(t, desc, #[trigger] r[i] as int, #[trigger] r[j] as int)
    &&& forall|c: usize|
        0 <= c < n && #[trigger] sel(c as int) && !r.contains(c) ==> forall|i: int|
            0 <= i < r.len() ==> before(t, desc, #[trigger] r[i] as int, c as int)
    &&& match limit {
        Some(l) => r.len() <= l && (r.len() == l || forall|c: usize| 0 <= c < n && #[trigger] sel(c as int) ==> r.contains(c)),
        None => forall|c: usize| 0 <= c < n && #[trigger] sel(c as int) ==> r.contains(c),
    }
}

/// Ordering the candidates that `sel` picks is a time-ordered selection.
pub proof fn lemma_selection(
    r: Seq<usize>,
    cand: Seq<usize>,
    n: int,
    sel: spec_fn(int) -> bool,
    t: Seq<i64>,
    desc: bool,
    limit: Option<usize>,
)
    requires
        is_time_order_prefix(r, cand, t, desc, limit),
        forall|c: usize| #[trigger] cand.contains(c) <==> (0 <= c < n && sel(c as int)),
    ensures
        time_ordered_selection(r, n, sel, t, desc, limit),
{
    assert forall|i: int| 0 <= i < r.len() implies 0 <= #[trigger] r[i] < n && sel(r[i] as int) by {
        assert(cand.contains(r[i]));
    }
    assert forall|c: usize|
        0 <= c < n && #[trigger] sel(c as int) && !r.contains(c) implies forall|i: int|
            0 <= i < r.len() ==> before(t, desc, #[trigger] r[i] as int, c as int) by {
        assert(cand.contains(c));
    }
    match limit {
        Some(l) => {
            if r.len() != l {
                assert forall|c: usize| 0 <= c < n && #[trigger] sel(c as int) implies r.contains(c) by {
                    assert(cand.contains(c));
                }
            }
        },
        None => {
            assert forall|c: usize| 0 <= c < n && #[trigger] sel(c as int) implies r.contains(c) by {
                assert(cand.contains(c));
            }
        },
    }
}

/// Collects the positions below `n` that pass a test, in increasing order.
pub fn push_if(cand: &mut Vec<usize>, i: usize, keep: bool)
    ensures
        final(cand)@ == if keep { old(cand)@.push(i) } else { old(cand)@ },
{
    if keep {
        cand.push(i);
    }
}

} // verus!

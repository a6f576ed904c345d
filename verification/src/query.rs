//! Queries over the `nodes` table: the filters of the server's `SELECT`
//! statements, their two row orders (storage order, and newest first with a
//! limit) and the texts read from the selected rows.

use vstd::prelude::*;
use crate::kinds::{NodeKind, node_kind_name, str_eq};
use crate::store::{Store, NodeRow, opt_is, opt_eq};
use crate::sqlike::{like, like_match};
use crate::order::{time_ordered_selection, order_by_time, push_if, lemma_selection};
use crate::text::{views, lemma_contains_push};

verus! {

/// The conditions of a `SELECT ... FROM nodes WHERE ...`. Each present
/// field adds one condition; `kinds` is the list of `kind IN (...)`.
pub struct NodeQuery {
    pub kinds: Vec<NodeKind>,
    pub project: Option<String>,
    pub live_only: bool,
    pub unexpired_at: Option<i64>,
    pub created_after: Option<i64>,
    pub content_like: Option<String>,
    pub max_read_level: Option<i64>,
    pub address: Option<String>,
}

/// Text `k` names one of the kinds listed.
pub open spec fn kind_listed(kinds: Seq<NodeKind>, k: Seq<char>) -> bool {
    exists|i: int| 0 <= i < kinds.len() && node_kind_name(#[trigger] kinds[i]) == k
}

/// Row `r` meets every condition of `q`. A missing column never equals,
/// and never matches a pattern; a missing expiry never expires.
pub open spec fn row_matches(r: NodeRow, q: NodeQuery) -> bool {
    &&& kind_listed(q.kinds@, r.kind@)
    &&& match q.project {
        Some(p) => opt_is(r.project, p@),
        None => true,
    }
    &&& (q.live_only ==> !r.stale)
    &&& match q.unexpired_at {
        Some(now) => match r.expires_at {
            Some(e) => e > now,
            None => true,
        },
        None => true,
    }
    &&& match q.created_after {
        Some(t) => r.created_at > t,
        None => true,
    }
    &&& match q.content_like {
        Some(p) => match r.content {
            Some(c) => like(p@, c@),
            None => false,
        },
        None => true,
    }
    &&& match q.max_read_level {
        Some(l) => r.read_level <= l,
        None => true,
    }
    &&& match q.address {
        Some(a) => opt_is(r.address, a@),
        None => true,
    }
}

fn kind_listed_exec(kinds: &Vec<NodeKind>, k: &str) -> (b: bool)
    ensures
        b == kind_listed(kinds@, k@),
{
    let mut i: usize = 0;
    while i < kinds.len()
        invariant
            i <= kinds@.len(),
            forall|m: int| 0 <= m < i ==> node_kind_name(#[trigger] kinds@[m]) != k@,
        decreases kinds@.len() - i,
    {
        if str_eq(kinds[i].as_str(), k) {
            assert(node_kind_name(kinds@[i as int]) == k@);
            return true;
        }
        i = i + 1;
    }
    false
}

/// Whether row `r` meets every condition of `q`.
pub fn row_matches_exec(r: &NodeRow, q: &NodeQuery) -> (b: bool)
    ensures
        b == row_matches(*r, *q),
{
    if !kind_listed_exec(&q.kinds, r.kind.as_str()) {
        return false;
    }
    let project_ok = match &q.project {
        Some(p) => opt_eq(&r.project, p.as_str()),
        None => true,
    };
    let live_ok = !q.live_only || !r.stale;
    let expiry_ok = match q.unexpired_at {
        Some(now) => match r.expires_at {
            Some(e) => e > now,
            None => true,
        },
        None => true,
    };
    let created_ok = match q.created_after {
        Some(t) => r.created_at > t,
        None => true,
    };
    let content_ok = match &q.content_like {
        Some(p) => match &r.content {
            Some(c) => like_match(p.as_str(), c.as_str()),
            None => false,
        },
        None => true,
    };
    let level_ok = match q.max_read_level {
        Some(l) => r.read_level <= l,
        None => true,
    };
    let address_ok = match &q.address {
        Some(a) => opt_eq(&r.address, a.as_str()),
        None => true,
    };
    project_ok && live_ok && expiry_ok && created_ok && content_ok && level_ok && address_ok
}

/// The creation instants of the rows.
pub open spec fn node_created(nodes: Seq<NodeRow>) -> Seq<i64> {
    nodes.map_values(|r: NodeRow| r.created_at)
}

/// `r` lists, in storage order, every position below `n` that `sel` picks.
pub open spec fn stored_selection(r: Seq<usize>, n: int, sel: spec_fn(int) -> bool) -> bool {
    &&& forall|i: int, j: int| 0 <= i < j < r.len() ==> #[trigger] r[i] < #[trigger] r[j]
    &&& forall|i: int| 0 <= i < r.len() ==> 0 <= #[trigger] r[i] < n && sel(r[i] as int)
    &&& forall|c: usize| 0 <= c < n && #[trigger] sel(c as int) ==> r.contains(c)
}

/// The positions of the rows that meet `q`, in storage order (a `SELECT`
/// without `ORDER BY`).
pub fn select_stored(store: &Store, q: &NodeQuery) -> (r: Vec<usize>)
    ensures
        stored_selection(r@, store.nodes@.len() as int, |i: int| row_matches(store.nodes@[i], *q)),
{
    let ghost sel = |i: int| row_matches(store.nodes@[i], *q);
    let mut r: Vec<usize> = Vec::new();
    for i in 0..store.nodes.len()
        invariant
            sel == (|i: int| row_matches(store.nodes@[i], *q)),
            forall|a: int, b: int| 0 <= a < b < r.len() ==> #[trigger] r@[a] < #[trigger] r@[b],
            forall|k: int| 0 <= k < r.len() ==> #[trigger] r@[k] < i && sel(r@[k] as int),
            forall|c: usize| 0 <= c < i && sel(c as int) ==> #[trigger] r@.contains(c),
    {
        if row_matches_exec(&store.nodes[i], q) {
            let ghost before = r@;
            r.push(i);
            proof {
                lemma_contains_push(before, i);
            }
        }
    }
    r
}

/// The positions of the rows that meet `q`, newest first, cut after `limit`
/// rows (`ORDER BY created_at DESC LIMIT limit`).
pub fn select_newest(store: &Store, q: &NodeQuery, limit: Option<usize>) -> (r: Vec<usize>)
    ensures
        time_ordered_selection(
            r@,
            store.nodes@.len() as int,
            |i: int| row_matches(store.nodes@[i], *q),
            node_created(store.nodes@),
            true,
            limit,
        ),
{
    let ghost sel = |i: int| row_matches(store.nodes@[i], *q);
    let mut cand: Vec<usize> = Vec::new();
    let mut times: Vec<i64> = Vec::new();
    for i in 0..store.nodes.len()
        invariant
            sel == (|i: int| row_matches(store.nodes@[i], *q)),
            times@ == node_created(store.nodes@).take(i as int),
            forall|c: usize| #[trigger] cand@.contains(c) <==> (0 <= c < i && sel(c as int)),
            forall|k: int| 0 <= k < cand.len() ==> #[trigger] cand@[k] < i,
    {
        let keep = row_matches_exec(&store.nodes[i], q);
        let ghost before = cand@;
        push_if(&mut cand, i, keep);
        times.push(store.nodes[i].created_at);
        proof {
            assert(times@ =~= node_created(store.nodes@).take(i + 1));
            if keep {
                lemma_contains_push(before, i);
            }
        }
    }
    assert(times@ =~= node_created(store.nodes@));
    let order = order_by_time(&times, &cand, true, limit);
    proof {
        lemma_selection(order@, cand@, store.nodes@.len() as int, sel, times@, true, limit);
    }
    order
}

/// The text of an optional column, empty where it is missing.
pub open spec fn opt_text(o: Option<String>) -> Seq<char> {
    match o {
        Some(x) => x@,
        None => Seq::empty(),
    }
}

/// The contents of the rows at positions `order`, in that order, skipping
/// rows without content.
pub open spec fn contents_of(nodes: Seq<NodeRow>, order: Seq<usize>) -> Seq<Seq<char>>
    decreases order.len(),
{
    if order.len() == 0 {
        Seq::empty()
    } else {
        let rest = contents_of(nodes, order.drop_last());
        match nodes[order.last() as int].content {
            Some(c) => rest.push(c@),
            None => rest,
        }
    }
}

/// The contents of the rows at positions `order` (see `contents_of`).
pub fn present_contents(store: &Store, order: &Vec<usize>) -> (r: Vec<String>)
    requires
        forall|k: int| 0 <= k < order.len() ==> #[trigger] order@[k] < store.nodes@.len(),
    ensures
        views(r@) == contents_of(store.nodes@, order@),
{
    let mut r: Vec<String> = Vec::new();
    for j in 0..order.len()
        invariant
            forall|k: int| 0 <= k < order.len() ==> #[trigger] order@[k] < store.nodes@.len(),
            views(r@) == contents_of(store.nodes@, order@.take(j as int)),
    {
        proof {
            assert(order@.take(j + 1).drop_last() =~= order@.take(j as int));
        }
        let ghost before = r@;
        match &store.nodes[order[j]].content {
            Some(c) => {
                r.push(c.clone());
                proof {
                    assert(views(r@) =~= views(before).push(c@));
                }
            },
            None => {},
        }
    }
    proof {
        assert(order@.take(order@.len() as int) =~= order@);
    }
    r
}

} // verus!

//! Subgraph extraction: breadth-first search from a root node over edges
//! taken in either direction, up to a number of hops.

use vstd::prelude::*;
use crate::kinds::{EdgeKind, edge_kind_name, is_edge_kind_name, node_kind_name, is_node_kind_name, str_eq};
use crate::types::{Node, Edge};
use crate::store::{Store, EdgeRow, node_id_used, node_index, node_read_from, get_node};

verus! {

/// Nodes `u` and `v` are joined by a stored edge, in either direction.
pub open spec fn adjacent(edges: Seq<EdgeRow>, u: Seq<char>, v: Seq<char>) -> bool {
    exists|i: int|
        0 <= i < edges.len() && ((#[trigger] edges[i]).from_id@ == u && edges[i].to_id@ == v || edges[i].to_id@ == u
            && edges[i].from_id@ == v)
}

/// The identifiers at most `k` hops from `root`.
pub open spec fn ball(edges: Seq<EdgeRow>, root: Seq<char>, k: nat) -> Set<Seq<char>>
    decreases k,
{
    if k == 0 {
        set![root]
    } else {
        let prev = ball(edges, root, (k - 1) as nat);
        prev.union(neighbourhood(edges, prev))
    }
}

/// The identifiers joined by an edge to some member of `s`.
pub open spec fn neighbourhood(edges: Seq<EdgeRow>, s: Set<Seq<char>>) -> Set<Seq<char>> {
    Set::new(|v: Seq<char>| exists|u: Seq<char>| s.contains(u) && adjacent(edges, u, v))
}

/// The texts of a sequence of strings, as a set.
pub open spec fn text_set(s: Seq<String>) -> Set<Seq<char>> {
    Set::new(|x: Seq<char>| exists|i: int| 0 <= i < s.len() && (#[trigger] s[i])@ == x)
}

/// No text occurs twice.
pub open spec fn texts_distinct(s: Seq<String>) -> bool {
    forall|i: int, j: int| 0 <= i < j < s.len() ==> (#[trigger] s[i])@ != (#[trigger] s[j])@
}

proof fn lemma_text_set_push(s: Seq<String>, x: String)
    ensures
        text_set(s.push(x)) == text_set(s).insert(x@),
{
    let t = s.push(x);
    assert forall|y: Seq<char>| text_set(t).contains(y) <==> text_set(s).insert(x@).contains(y) by {
        if text_set(t).contains(y) {
            let i = choose|i: int| 0 <= i < t.len() && (#[trigger] t[i])@ == y;
            if i < s.len() {
                assert(s[i] == t[i]);
            }
        }
        if text_set(s).contains(y) {
            let i = choose|i: int| 0 <= i < s.len() && (#[trigger] s[i])@ == y;
            assert(t[i] == s[i]);
        }
        if y == x@ {
            assert(t[s.len() as int] == x);
        }
    }
    assert(text_set(t) =~= text_set(s).insert(x@));
}

/// The neighbourhood of a union is the union of the neighbourhoods.
proof fn lemma_neighbourhood_union(edges: Seq<EdgeRow>, a: Set<Seq<char>>, b: Set<Seq<char>>)
    ensures
        neighbourhood(edges, a.union(b)) == neighbourhood(edges, a).union(neighbourhood(edges, b)),
{
    let l = neighbourhood(edges, a.union(b));
    let r = neighbourhood(edges, a).union(neighbourhood(edges, b));
    assert forall|v: Seq<char>| l.contains(v) <==> r.contains(v) by {
        if l.contains(v) {
            let u = choose|u: Seq<char>| a.union(b).contains(u) && adjacent(edges, u, v);
            if a.contains(u) {
                assert(neighbourhood(edges, a).contains(v));
            } else {
                assert(neighbourhood(edges, b).contains(v));
            }
        }
        if neighbourhood(edges, a).contains(v) {
            let u = choose|u: Seq<char>| a.contains(u) && adjacent(edges, u, v);
            assert(a.union(b).contains(u));
        }
        if neighbourhood(edges, b).contains(v) {
            let u = choose|u: Seq<char>| b.contains(u) && adjacent(edges, u, v);
            assert(a.union(b).contains(u));
        }
    }
    assert(l =~= r);
}

/// Each ball holds the previous one.
proof fn lemma_ball_grows(edges: Seq<EdgeRow>, root: Seq<char>, k: nat)
    ensures
        ball(edges, root, k).subset_of(ball(edges, root, k + 1)),
{
}

/// Balls grow with their radius.
pub proof fn lemma_ball_mono(edges: Seq<EdgeRow>, root: Seq<char>, a: nat, b: nat)
    requires
        a <= b,
    ensures
        ball(edges, root, a).subset_of(ball(edges, root, b)),
    decreases b - a,
{
    if a < b {
        lemma_ball_mono(edges, root, a, (b - 1) as nat);
        lemma_ball_grows(edges, root, (b - 1) as nat);
    }
}

/// Identifiers come nearer first: whatever ball around `root` holds an
/// identifier also holds every identifier before it.
pub open spec fn texts_nearer_first(edges: Seq<EdgeRow>, root: Seq<char>, s: Seq<String>) -> bool {
    forall|j: int, m: int, k: nat|
        #![trigger ball(edges, root, k).contains(s[m]@), s[j]]
        0 <= j < m < s.len() && ball(edges, root, k).contains(s[m]@) ==> ball(edges, root, k).contains(s[j]@)
}

/// One more hop from the `k`-ball only needs its outer layer: the
/// `(k + 1)`-ball is the `k`-ball and the neighbours of the identifiers
/// first reached at `k` hops.
proof fn lemma_ball_layer(edges: Seq<EdgeRow>, root: Seq<char>, k: nat)
    requires
        k >= 1,
    ensures
        ball(edges, root, k + 1) == ball(edges, root, k).union(
            neighbourhood(edges, ball(edges, root, k).difference(ball(edges, root, (k - 1) as nat))),
        ),
{
    let bk = ball(edges, root, k);
    let bp = ball(edges, root, (k - 1) as nat);
    let layer = bk.difference(bp);
    assert(bk =~= bp.union(layer));
    lemma_neighbourhood_union(edges, bp, layer);
    assert(neighbourhood(edges, bp).subset_of(bk));
    assert(ball(edges, root, k + 1) =~= bk.union(neighbourhood(edges, layer)));
}

/// Once a ball stops growing it stays the same for every larger radius.
proof fn lemma_ball_stable(edges: Seq<EdgeRow>, root: Seq<char>, k: nat, j: nat)
    requires
        ball(edges, root, k + 1) == ball(edges, root, k),
        k <= j,
    ensures
        ball(edges, root, j) == ball(edges, root, k),
    decreases j - k,
{
    if j > k {
        lemma_ball_stable(edges, root, k, (j - 1) as nat);
        assert(ball(edges, root, j) == ball(edges, root, (j - 1) as nat).union(
            neighbourhood(edges, ball(edges, root, (j - 1) as nat)),
        ));
    }
}

/// Whether `id` occurs among `ids`.
pub fn contains_text(ids: &Vec<String>, id: &str) -> (r: bool)
    ensures
        r == text_set(ids@).contains(id@),
{
    let mut i: usize = 0;
    while i < ids.len()
        invariant
            i <= ids.len(),
            forall|m: int| 0 <= m < i ==> (#[trigger] ids@[m])@ != id@,
        decreases ids.len() - i,
    {
        if str_eq(ids[i].as_str(), id) {
            return true;
        }
        i = i + 1;
    }
    false
}

/// The identifiers joined to `id` by a stored edge, in either direction.
pub fn neighbours(store: &Store, id: &str) -> (r: Vec<String>)
    ensures
        text_set(r@) == Set::new(|v: Seq<char>| adjacent(store.edges@, id@, v)),
{
    let mut r: Vec<String> = Vec::new();
    let ghost es = store.edges@;
    for b in 0..store.edges.len()
        invariant
            es == store.edges@,
            text_set(r@) == Set::new(
                |v: Seq<char>|
                    exists|i: int|
                        0 <= i < b && ((#[trigger] es[i]).from_id@ == id@ && es[i].to_id@ == v || es[i].to_id@ == id@
                            && es[i].from_id@ == v),
            ),
    {
        let ghost before = r@;
        let e = &store.edges[b];
        if str_eq(e.from_id.as_str(), id) {
            proof {
                lemma_text_set_push(r@, e.to_id);
            }
            r.push(e.to_id.clone());
        }
        let ghost mid = r@;
        if str_eq(e.to_id.as_str(), id) {
            proof {
                lemma_text_set_push(r@, e.from_id);
            }
            r.push(e.from_id.clone());
        }
        assert(text_set(r@) =~= Set::new(
            |v: Seq<char>|
                exists|i: int|
                    0 <= i < b + 1 && ((#[trigger] es[i]).from_id@ == id@ && es[i].to_id@ == v || es[i].to_id@ == id@
                        && es[i].from_id@ == v),
        )) by {
            assert forall|v: Seq<char>|
                (exists|i: int|
                    0 <= i < b + 1 && ((#[trigger] es[i]).from_id@ == id@ && es[i].to_id@ == v || es[i].to_id@
                        == id@ && es[i].from_id@ == v)) implies text_set(r@).contains(v) by {
                let i = choose|i: int|
                    0 <= i < b + 1 && ((#[trigger] es[i]).from_id@ == id@ && es[i].to_id@ == v || es[i].to_id@
                        == id@ && es[i].from_id@ == v);
                if i < b {
                    assert(text_set(before).contains(v));
                    assert(text_set(before).subset_of(text_set(r@)));
                }
            }
        }
    }
    assert(text_set(r@) =~= Set::new(|v: Seq<char>| adjacent(store.edges@, id@, v)));
    r
}

proof fn lemma_text_set_take(s: Seq<String>, c: int)
    requires
        0 <= c < s.len(),
    ensures
        text_set(s.take(c + 1)) == text_set(s.take(c)).insert(s[c]@),
{
    assert(s.take(c + 1) =~= s.take(c).push(s[c]));
    lemma_text_set_push(s.take(c), s[c]);
}

proof fn lemma_neighbourhood_single(edges: Seq<EdgeRow>, x: Seq<char>)
    ensures
        neighbourhood(edges, set![x]) == Set::new(|v: Seq<char>| adjacent(edges, x, v)),
{
    let l = neighbourhood(edges, set![x]);
    let r = Set::new(|v: Seq<char>| adjacent(edges, x, v));
    assert forall|v: Seq<char>| l.contains(v) <==> r.contains(v) by {
        if r.contains(v) {
            assert(set![x].contains(x));
        }
    }
    assert(l =~= r);
}

/// One round of the search: every neighbour of a frontier identifier that
/// was not yet visited is visited and put on the next frontier.
pub fn expand_round(store: &Store, visited: &mut Vec<String>, frontier: &Vec<String>) -> (next: Vec<String>)
    requires
        texts_distinct(old(visited)@),
    ensures
        texts_distinct(final(visited)@),
        final(visited)@.len() >= old(visited)@.len(),
        forall|i: int| 0 <= i < old(visited)@.len() ==> final(visited)@[i] == old(visited)@[i],
        text_set(final(visited)@) == text_set(old(visited)@).union(neighbourhood(store.edges@, text_set(frontier@))),
        text_set(next@) == neighbourhood(store.edges@, text_set(frontier@)).difference(text_set(old(visited)@)),
        forall|i: int|
            old(visited)@.len() <= i < final(visited)@.len() ==> !text_set(old(visited)@).contains(
                (#[trigger] final(visited)@[i])@,
            ),
{
    let ghost v0 = text_set(visited@);
    let ghost es = store.edges@;
    let mut next: Vec<String> = Vec::new();
    assert(frontier@.take(0) =~= Seq::<String>::empty());
    assert(text_set(frontier@.take(0)) =~= Set::<Seq<char>>::empty());
    assert(neighbourhood(es, Set::<Seq<char>>::empty()) =~= Set::<Seq<char>>::empty());
    assert(text_set(next@) =~= Set::<Seq<char>>::empty());
    assert(text_set(visited@) =~= v0.union(neighbourhood(es, text_set(frontier@.take(0)))));
    let ghost vs0 = visited@;
    for a in 0..frontier.len()
        invariant
            es == store.edges@,
            texts_distinct(visited@),
            visited@.len() >= vs0.len(),
            forall|i: int| 0 <= i < vs0.len() ==> visited@[i] == vs0[i],
            forall|i: int| vs0.len() <= i < visited@.len() ==> !v0.contains((#[trigger] visited@[i])@),
            text_set(visited@) == v0.union(neighbourhood(es, text_set(frontier@.take(a as int)))),
            text_set(next@) == neighbourhood(es, text_set(frontier@.take(a as int))).difference(v0),
    {
        let ghost va = text_set(visited@);
        let ghost xa = text_set(next@);
        let nb = neighbours(store, frontier[a].as_str());
        assert(nb@.take(0) =~= Seq::<String>::empty());
        assert(text_set(nb@.take(0)) =~= Set::<Seq<char>>::empty());
        assert(text_set(visited@) =~= va.union(text_set(nb@.take(0))));
        assert(text_set(next@) =~= xa.union(text_set(nb@.take(0)).difference(va)));
        for c in 0..nb.len()
            invariant
                texts_distinct(visited@),
                visited@.len() >= vs0.len(),
                forall|i: int| 0 <= i < vs0.len() ==> visited@[i] == vs0[i],
                forall|i: int| vs0.len() <= i < visited@.len() ==> !v0.contains((#[trigger] visited@[i])@),
                va.subset_of(text_set(visited@)),
                v0.subset_of(va),
                text_set(visited@) == va.union(text_set(nb@.take(c as int))),
                text_set(next@) == xa.union(text_set(nb@.take(c as int)).difference(va)),
        {
            proof {
                lemma_text_set_take(nb@, c as int);
            }
            if !contains_text(visited, nb[c].as_str()) {
                let ghost before = visited@;
                proof {
                    lemma_text_set_push(visited@, nb@[c as int]);
                    lemma_text_set_push(next@, nb@[c as int]);
                }
                visited.push(nb[c].clone());
                next.push(nb[c].clone());
                assert forall|i: int| vs0.len() <= i < visited@.len() implies !v0.contains(
                    (#[trigger] visited@[i])@,
                ) by {
                    if i < before.len() {
                        assert(visited@[i] == before[i]);
                    }
                }
                assert forall|i: int, j: int| 0 <= i < j < visited@.len() implies (#[trigger] visited@[i])@
                    != (#[trigger] visited@[j])@ by {
                    if j == before.len() {
                        assert(before[i] == visited@[i]);
                        assert(text_set(before).contains(before[i]@));
                    }
                }
                assert(text_set(visited@) =~= va.union(text_set(nb@.take(c + 1))));
                assert(text_set(next@) =~= xa.union(text_set(nb@.take(c + 1)).difference(va)));
            } else {
                assert(text_set(visited@) =~= va.union(text_set(nb@.take(c + 1))));
                assert(text_set(next@) =~= xa.union(text_set(nb@.take(c + 1)).difference(va)));
            }
        }
        proof {
            assert(nb@.take(nb.len() as int) =~= nb@);
            lemma_text_set_take(frontier@, a as int);
            lemma_neighbourhood_union(es, text_set(frontier@.take(a as int)), set![frontier@[a as int]@]);
            assert(text_set(frontier@.take(a as int)).insert(frontier@[a as int]@) =~= text_set(
                frontier@.take(a as int),
            ).union(set![frontier@[a as int]@]));
            lemma_neighbourhood_single(es, frontier@[a as int]@);
            assert(text_set(visited@) =~= v0.union(neighbourhood(es, text_set(frontier@.take(a + 1)))));
            assert(text_set(next@) =~= neighbourhood(es, text_set(frontier@.take(a + 1))).difference(v0));
        }
    }
    assert(frontier@.take(frontier.len() as int) =~= frontier@);
    next
}

/// The layer of the `k`-ball reached last: the whole ball at `k == 0`,
/// otherwise what is not in the `(k - 1)`-ball.
pub open spec fn layer(edges: Seq<EdgeRow>, root: Seq<char>, k: nat) -> Set<Seq<char>> {
    if k == 0 {
        ball(edges, root, 0)
    } else {
        ball(edges, root, k).difference(ball(edges, root, (k - 1) as nat))
    }
}

/// The identifiers at most `depth` hops from `root`, root first, each once.
pub fn reachable_ids(store: &Store, root: &str, depth: u32) -> (visited: Vec<String>)
    ensures
        texts_distinct(visited@),
        visited@.len() > 0,
        visited@[0]@ == root@,
        text_set(visited@) == ball(store.edges@, root@, depth as nat),
        texts_nearer_first(store.edges@, root@, visited@),
{
    let ghost es = store.edges@;
    let mut visited: Vec<String> = Vec::new();
    visited.push(String::from_str(root));
    let mut frontier: Vec<String> = Vec::new();
    frontier.push(String::from_str(root));
    proof {
        lemma_text_set_push(Seq::<String>::empty(), visited@[0]);
        assert(visited@ =~= Seq::<String>::empty().push(visited@[0]));
        assert(frontier@ =~= Seq::<String>::empty().push(frontier@[0]));
        lemma_text_set_push(Seq::<String>::empty(), frontier@[0]);
        assert(text_set(Seq::<String>::empty()) =~= Set::<Seq<char>>::empty());
        assert(text_set(visited@) =~= ball(es, root@, 0));
        assert(text_set(frontier@) =~= ball(es, root@, 0));
    }
    let mut round: u32 = 0;
    while round < depth
        invariant
            es == store.edges@,
            round <= depth,
            texts_distinct(visited@),
            visited@.len() > 0,
            visited@[0]@ == root@,
            text_set(visited@) == ball(es, root@, round as nat),
            text_set(frontier@) == layer(es, root@, round as nat),
            texts_nearer_first(es, root@, visited@),
        ensures
            texts_distinct(visited@),
            visited@.len() > 0,
            visited@[0]@ == root@,
            text_set(visited@) == ball(es, root@, depth as nat),
            texts_nearer_first(es, root@, visited@),
        decreases depth - round,
    {
        if frontier.len() == 0 {
            proof {
                assert(round >= 1) by {
                    if round == 0 {
                        assert(text_set(frontier@).contains(root@));
                    }
                }
                let r1 = (round - 1) as nat;
                assert forall|x: Seq<char>| ball(es, root@, round as nat).contains(x) implies ball(es, root@, r1).contains(x) by {
                    if !ball(es, root@, r1).contains(x) {
                        assert(layer(es, root@, round as nat).contains(x));
                    }
                }
                lemma_ball_grows(es, root@, r1);
                assert(ball(es, root@, r1 + 1) =~= ball(es, root@, r1));
                lemma_ball_stable(es, root@, r1, depth as nat);
                lemma_ball_stable(es, root@, r1, round as nat);
            }
            break;
        }
        let ghost before = visited@;
        let next = expand_round(store, &mut visited, &frontier);
        proof {
            let r = round as nat;
            assert(text_set(visited@) == ball(es, root@, r + 1)) by {
                if r == 0 {
                    assert(ball(es, root@, r + 1) == ball(es, root@, r).union(neighbourhood(es, ball(es, root@, r))));
                } else {
                    lemma_ball_layer(es, root@, r);
                }
            }
            assert forall|j: int, m: int, k: nat|
                #![trigger ball(es, root@, k).contains(visited@[m]@), visited@[j]]
                0 <= j < m < visited@.len() && ball(es, root@, k).contains(visited@[m]@) implies ball(
                    es,
                    root@,
                    k,
                ).contains(visited@[j]@) by {
                if m < before.len() {
                    assert(visited@[m] == before[m]);
                    assert(visited@[j] == before[j]);
                } else {
                    assert(text_set(visited@).contains(visited@[m]@));
                    assert(!ball(es, root@, r).contains(visited@[m]@));
                    if k <= r {
                        lemma_ball_mono(es, root@, k, r);
                    }
                    assert(k >= r + 1);
                    assert(text_set(visited@).contains(visited@[j]@));
                    assert(ball(es, root@, r + 1).contains(visited@[j]@));
                    lemma_ball_mono(es, root@, r + 1, k);
                }
            }
            if r == 0 {
                assert(ball(es, root@, r + 1) == ball(es, root@, r).union(neighbourhood(es, ball(es, root@, r))));
            } else {
                lemma_ball_layer(es, root@, r);
            }
            assert(text_set(next@) =~= layer(es, root@, r + 1));
        }
        frontier = next;
        round = round + 1;
    }
    visited
}

/// Identifier `id` belongs to a live row of the `nodes` table (a node or a
/// key/value entry that is not stale).
pub open spec fn live_id(store: Store, id: Seq<char>) -> bool {
    (exists|k: int| 0 <= k < store.nodes@.len() && (#[trigger] store.nodes@[k]).id@ == id && !store.nodes@[k].stale)
        || (exists|k: int| 0 <= k < store.kv@.len() && (#[trigger] store.kv@[k]).id@ == id && !store.kv@[k].stale)
}

/// Whether `id` belongs to a live row of the `nodes` table.
pub fn is_live_id(store: &Store, id: &str) -> (r: bool)
    ensures
        r == live_id(*store, id@),
{
    let mut k: usize = 0;
    while k < store.nodes.len()
        invariant
            k <= store.nodes@.len(),
            forall|m: int| 0 <= m < k ==> !((#[trigger] store.nodes@[m]).id@ == id@ && !store.nodes@[m].stale),
        decreases store.nodes@.len() - k,
    {
        if !store.nodes[k].stale && str_eq(store.nodes[k].id.as_str(), id) {
            return true;
        }
        k = k + 1;
    }
    let mut k: usize = 0;
    while k < store.kv.len()
        invariant
            k <= store.kv@.len(),
            forall|m: int| 0 <= m < store.nodes@.len() ==> !((#[trigger] store.nodes@[m]).id@ == id@ && !store.nodes@[m].stale),
            forall|m: int| 0 <= m < k ==> !((#[trigger] store.kv@[m]).id@ == id@ && !store.kv@[m].stale),
        decreases store.kv@.len() - k,
    {
        if !store.kv[k].stale && str_eq(store.kv[k].id.as_str(), id) {
            return true;
        }
        k = k + 1;
    }
    false
}

/// Edge row `i` goes into a subgraph: it starts at a live row and its kind
/// can be read back.
pub open spec fn edge_kept(store: Store, i: int) -> bool {
    live_id(store, store.edges@[i].from_id@) && is_edge_kind_name(store.edges@[i].kind@)
}

/// Edge `e` is what row `r` reads back as.
pub open spec fn edge_read_from(e: Edge, r: EdgeRow) -> bool {
    &&& e.from_id@ == r.from_id@
    &&& e.to_id@ == r.to_id@
    &&& edge_kind_name(e.kind) == r.kind@
    &&& e.weight == r.weight
    &&& e.created_at == r.created_at
}

/// `out` reads back, in table order, exactly the edge rows among the first
/// `n` that are kept, through the positions `idx`.
pub open spec fn edges_listed(store: Store, out: Seq<Edge>, idx: Seq<int>, n: int) -> bool {
    &&& out.len() == idx.len()
    &&& forall|j: int| 0 <= j < idx.len() ==> 0 <= #[trigger] idx[j] < n && edge_kept(store, idx[j])
    &&& forall|j: int| 0 <= j < idx.len() ==> edge_read_from(#[trigger] out[j], store.edges@[idx[j]])
    &&& forall|j: int, m: int| 0 <= j < m < idx.len() ==> #[trigger] idx[j] < #[trigger] idx[m]
    &&& forall|i: int| 0 <= i < n && edge_kept(store, i) ==> #[trigger] idx.contains(i)
}

/// Node `n` belongs to the subgraph of `root` within `depth` hops.
pub open spec fn in_subgraph(store: Store, root: Seq<char>, depth: nat, n: Node) -> bool {
    &&& ball(store.edges@, root, depth).contains(n.id@)
    &&& node_id_used(store.nodes@, n.id@)
    &&& node_read_from(n, store.nodes@[node_index(store.nodes@, n.id@)], n.kind)
    &&& node_kind_name(n.kind) == store.nodes@[node_index(store.nodes@, n.id@)].kind@
}

/// Nodes come nearer first: whatever ball around `root` holds a node's
/// identifier also holds the identifiers of every node before it.
pub open spec fn nodes_nearer_first(edges: Seq<EdgeRow>, root: Seq<char>, s: Seq<Node>) -> bool {
    forall|j: int, m: int, k: nat|
        #![trigger ball(edges, root, k).contains(s[m].id@), s[j]]
        0 <= j < m < s.len() && ball(edges, root, k).contains(s[m].id@) ==> ball(edges, root, k).contains(s[j].id@)
}

/// The subgraph around `root`: the nodes at most `depth` hops away over
/// edges taken in either direction (each once, those whose rows exist and
/// read back) in breadth-first order, so nearer first and the root, when
/// it reads back, at the front; and every edge that starts at a live row,
/// in table order.
pub fn get_subgraph(store: &Store, root_id: &str, depth: u32) -> (r: (Vec<Node>, Vec<Edge>))
    requires
        store.wf(),
    ensures
        forall|j: int| 0 <= j < r.0@.len() ==> in_subgraph(*store, root_id@, depth as nat, #[trigger] r.0@[j]),
        forall|j: int, m: int| 0 <= j < m < r.0@.len() ==> (#[trigger] r.0@[j]).id@ != (#[trigger] r.0@[m]).id@,
        forall|v: Seq<char>|
            #[trigger] ball(store.edges@, root_id@, depth as nat).contains(v) && node_id_used(store.nodes@, v)
                && is_node_kind_name(store.nodes@[node_index(store.nodes@, v)].kind@) ==> exists|j: int|
                0 <= j < r.0@.len() && (#[trigger] r.0@[j]).id@ == v,
        nodes_nearer_first(store.edges@, root_id@, r.0@),
        node_id_used(store.nodes@, root_id@) && is_node_kind_name(
            store.nodes@[node_index(store.nodes@, root_id@)].kind@,
        ) ==> r.0@.len() > 0 && r.0@[0].id@ == root_id@,
        exists|idx: Seq<int>| edges_listed(*store, r.1@, idx, store.edges@.len() as int),
{
    let visited = reachable_ids(store, root_id, depth);
    let ghost b = ball(store.edges@, root_id@, depth as nat);
    let mut nodes: Vec<Node> = Vec::new();
    let ghost mut pos: Seq<int> = Seq::empty();
    for i in 0..visited.len()
        invariant
            store.wf(),
            texts_distinct(visited@),
            texts_nearer_first(store.edges@, root_id@, visited@),
            pos.len() == nodes@.len(),
            forall|j: int| 0 <= j < pos.len() ==> 0 <= #[trigger] pos[j] < i && nodes@[j].id@ == visited@[pos[j]]@,
            forall|j: int, m: int| 0 <= j < m < pos.len() ==> #[trigger] pos[j] < #[trigger] pos[m],
            text_set(visited@) == b,
            b == ball(store.edges@, root_id@, depth as nat),
            forall|j: int| 0 <= j < nodes@.len() ==> in_subgraph(*store, root_id@, depth as nat, #[trigger] nodes@[j]),
            forall|j: int| 0 <= j < nodes@.len() ==> text_set(visited@.take(i as int)).contains(#[trigger] nodes@[j].id@),
            forall|j: int, m: int| 0 <= j < m < nodes@.len() ==> (#[trigger] nodes@[j]).id@ != (#[trigger] nodes@[m]).id@,
            forall|k: int|
                0 <= k < i && node_id_used(store.nodes@, #[trigger] visited@[k]@) && is_node_kind_name(
                    store.nodes@[node_index(store.nodes@, visited@[k]@)].kind@,
                ) ==> exists|j: int| 0 <= j < nodes@.len() && (#[trigger] nodes@[j]).id@ == visited@[k]@,
    {
        proof {
            lemma_text_set_take(visited@, i as int);
            assert(text_set(visited@).contains(visited@[i as int]@));
        }
        let ghost before = nodes@;
        match get_node(store, visited[i].as_str()) {
            Ok(n) => {
                assert(!text_set(visited@.take(i as int)).contains(n.id@)) by {
                    if text_set(visited@.take(i as int)).contains(n.id@) {
                        let k = choose|k: int| 0 <= k < i && (#[trigger] visited@.take(i as int)[k])@ == n.id@;
                        assert(visited@[k]@ == visited@[i as int]@);
                    }
                }
                nodes.push(n);
                proof {
                    pos = pos.push(i as int);
                }
                assert forall|j: int, m: int| 0 <= j < m < nodes@.len() implies (#[trigger] nodes@[j]).id@
                    != (#[trigger] nodes@[m]).id@ by {
                    if m == before.len() {
                        assert(nodes@[j] == before[j]);
                    }
                }
                assert forall|j: int| 0 <= j < nodes@.len() implies text_set(visited@.take(i + 1)).contains(
                    #[trigger] nodes@[j].id@,
                ) by {
                    if j < before.len() {
                        assert(nodes@[j] == before[j]);
                    }
                }
                assert forall|k: int|
                    0 <= k < i + 1 && node_id_used(store.nodes@, #[trigger] visited@[k]@) && is_node_kind_name(
                        store.nodes@[node_index(store.nodes@, visited@[k]@)].kind@,
                    ) implies exists|j: int| 0 <= j < nodes@.len() && (#[trigger] nodes@[j]).id@ == visited@[k]@ by {
                    if k < i {
                        let j = choose|j: int| 0 <= j < before.len() && (#[trigger] before[j]).id@ == visited@[k]@;
                        assert(nodes@[j] == before[j]);
                    } else {
                        assert(nodes@[before.len() as int].id@ == visited@[k]@);
                    }
                }
            },
            Err(_) => {
                assert forall|k: int|
                    0 <= k < i + 1 && node_id_used(store.nodes@, #[trigger] visited@[k]@) && is_node_kind_name(
                        store.nodes@[node_index(store.nodes@, visited@[k]@)].kind@,
                    ) implies exists|j: int| 0 <= j < nodes@.len() && (#[trigger] nodes@[j]).id@ == visited@[k]@ by {
                    if k == i {
                        let kk = choose|kk: crate::kinds::NodeKind| node_kind_name(kk) == store.nodes@[node_index(store.nodes@, visited@[k]@)].kind@;
                    }
                }
            },
        }
    }
    assert forall|v: Seq<char>|
        #[trigger] b.contains(v) && node_id_used(store.nodes@, v) && is_node_kind_name(
            store.nodes@[node_index(store.nodes@, v)].kind@,
        ) implies exists|j: int| 0 <= j < nodes@.len() && (#[trigger] nodes@[j]).id@ == v by {
        let k = choose|k: int| 0 <= k < visited@.len() && (#[trigger] visited@[k])@ == v;
        assert(node_id_used(store.nodes@, visited@[k]@));
    }
    assert forall|j: int, m: int, k: nat|
        #![trigger ball(store.edges@, root_id@, k).contains(nodes@[m].id@), nodes@[j]]
        0 <= j < m < nodes@.len() && ball(store.edges@, root_id@, k).contains(nodes@[m].id@) implies ball(
            store.edges@,
            root_id@,
            k,
        ).contains(nodes@[j].id@) by {
        assert(pos[j] < pos[m]);
        assert(ball(store.edges@, root_id@, k).contains(visited@[pos[m]]@));
    }
    proof {
        if node_id_used(store.nodes@, root_id@) && is_node_kind_name(
            store.nodes@[node_index(store.nodes@, root_id@)].kind@,
        ) {
            lemma_ball_mono(store.edges@, root_id@, 0, depth as nat);
            assert(ball(store.edges@, root_id@, 0).contains(root_id@));
            assert(b.contains(root_id@));
            let j = choose|j: int| 0 <= j < nodes@.len() && (#[trigger] nodes@[j]).id@ == root_id@;
            if j > 0 {
                assert(ball(store.edges@, root_id@, 0).contains(nodes@[j].id@));
                assert(ball(store.edges@, root_id@, 0).contains(nodes@[0].id@));
                assert(nodes@[0].id@ == root_id@);
            }
        }
    }
    let mut edges: Vec<Edge> = Vec::new();
    let ghost mut idx: Seq<int> = Seq::empty();
    for i in 0..store.edges.len()
        invariant
            edges_listed(*store, edges@, idx, i as int),
    {
        let row = &store.edges[i];
        if is_live_id(store, row.from_id.as_str()) {
            match EdgeKind::parse(row.kind.as_str()) {
                Ok(k) => {
                    edges.push(
                        Edge {
                            from_id: row.from_id.clone(),
                            to_id: row.to_id.clone(),
                            kind: k,
                            weight: row.weight,
                            created_at: row.created_at,
                        },
                    );
                    proof {
                        let old_idx = idx;
                        idx = idx.push(i as int);
                        assert forall|m: int| 0 <= m < i + 1 && edge_kept(*store, m) implies #[trigger] idx.contains(m) by {
                            if m < i {
                                assert(old_idx.contains(m));
                                let j = choose|j: int| 0 <= j < old_idx.len() && old_idx[j] == m;
                                assert(idx[j] == old_idx[j]);
                                assert(idx[j] == m);
                            } else {
                                assert(idx[old_idx.len() as int] == m);
                            }
                        }
                    }
                },
                Err(_) => {},
            }
        }
    }
    let r = (nodes, edges);
    assert(edges_listed(*store, r.1@, idx, store.edges@.len() as int));
    r
}

} // verus!

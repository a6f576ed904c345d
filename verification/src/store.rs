//! The graph database: the `nodes`, `edges` and `governance_assessments`
//! tables and the key/value entries, and the row-level operations on them.
//!
//! Instants are microseconds since the Unix epoch.

use vstd::prelude::*;
use crate::kinds::{NodeKind, node_kind_name, edge_kind_name, str_eq};
use crate::types::{Node, Edge, copy_opt};
use crate::json::{Json, top_level_wf};

verus! {

/// A row of the `nodes` table.
pub struct NodeRow {
    pub id: String,
    pub kind: String,
    pub address: Option<String>,
    pub project: Option<String>,
    pub component: Option<String>,
    pub title: Option<String>,
    pub content: Option<String>,
    pub created_at: i64,
    pub updated_at: i64,
    pub stale: bool,
    pub expires_at: Option<i64>,
    pub read_level: i64,
}

/// A row of the `edges` table; `weight` is the bit pattern of the weight.
pub struct EdgeRow {
    pub from_id: String,
    pub to_id: String,
    pub kind: String,
    pub weight: u64,
    pub created_at: i64,
}

/// A row of the `governance_assessments` table.
pub struct AssessmentRow {
    pub id: String,
    pub node_id: String,
    pub status: String,
    pub reversibility: Option<String>,
    pub impact: Option<String>,
    pub routing: Option<String>,
    pub notes: Option<String>,
    pub created_at: i64,
    pub updated_at: i64,
}

/// A key/value entry: a node of kind `KV` whose title is the entry's path
/// and whose content is its JSON value.
pub struct KvRecord {
    pub id: String,
    pub path: String,
    pub value: Json,
    pub expires_at: Option<i64>,
    pub created_at: i64,
    pub updated_at: i64,
    pub stale: bool,
}

/// The whole database.
pub struct Store {
    pub nodes: Vec<NodeRow>,
    pub edges: Vec<EdgeRow>,
    pub assessments: Vec<AssessmentRow>,
    pub kv: Vec<KvRecord>,
}

/// Errors of the database operations.
#[derive(Debug)]
pub enum StoreError {
    /// No row has the identifier asked for.
    NotFound,
    /// A row with the identifier already exists (primary key).
    DuplicateId,
    /// An edge names a node that does not exist (foreign key).
    MissingNode,
    /// A stored kind cannot be read back; the message names it.
    UnknownKind(String),
    /// A stored row lacks a value the query needs.
    MissingContent,
    /// An expiry instant does not fit the instant range.
    TtlOutOfRange,
}

/// Some node row has identifier `id`.
pub open spec fn node_id_used(nodes: Seq<NodeRow>, id: Seq<char>) -> bool {
    exists|i: int| 0 <= i < nodes.len() && (#[trigger] nodes[i]).id@ == id
}

/// Some key/value entry has identifier `id`.
pub open spec fn kv_id_used(kv: Seq<KvRecord>, id: Seq<char>) -> bool {
    exists|i: int| 0 <= i < kv.len() && (#[trigger] kv[i]).id@ == id
}

/// Some assessment row has identifier `id`.
pub open spec fn assessment_id_used(a: Seq<AssessmentRow>, id: Seq<char>) -> bool {
    exists|i: int| 0 <= i < a.len() && (#[trigger] a[i]).id@ == id
}

/// The two edges have the same primary key `(from_id, to_id, kind)`.
pub open spec fn same_edge_key(a: EdgeRow, b: EdgeRow) -> bool {
    a.from_id@ == b.from_id@ && a.to_id@ == b.to_id@ && a.kind@ == b.kind@
}

impl Store {
    /// Identifier `id` is taken in the `nodes` table (by a node or a
    /// key/value entry).
    pub open spec fn id_used(&self, id: Seq<char>) -> bool {
        node_id_used(self.nodes@, id) || kv_id_used(self.kv@, id)
    }

    /// Both ends of every edge are stored rows.
    pub open spec fn ends_stored(&self) -> bool {
        forall|i: int|
            0 <= i < self.edges@.len() ==> self.id_used((#[trigger] self.edges@[i]).from_id@) && self.id_used(
                self.edges@[i].to_id@,
            )
    }

    /// The table constraints hold: primary keys are unique, both ends of
    /// every edge are stored (foreign keys), stored key/value objects have
    /// distinct keys, and no two live key/value entries share a path.
    pub open spec fn wf(&self) -> bool {
        &&& self.ends_stored()
        &&& forall|i: int, j: int|
            0 <= i < j < self.nodes@.len() ==> (#[trigger] self.nodes@[i]).id@ != (#[trigger] self.nodes@[j]).id@
        &&& forall|i: int, j: int|
            0 <= i < j < self.kv@.len() ==> (#[trigger] self.kv@[i]).id@ != (#[trigger] self.kv@[j]).id@
        &&& forall|i: int, j: int|
            0 <= i < self.nodes@.len() && 0 <= j < self.kv@.len() ==> (#[trigger] self.nodes@[i]).id@
                != (#[trigger] self.kv@[j]).id@
        &&& forall|i: int, j: int|
            0 <= i < j < self.edges@.len() ==> !same_edge_key(#[trigger] self.edges@[i], #[trigger] self.edges@[j])
        &&& forall|i: int, j: int|
            0 <= i < j < self.assessments@.len() ==> (#[trigger] self.assessments@[i]).id@
                != (#[trigger] self.assessments@[j]).id@
        &&& forall|i: int| 0 <= i < self.kv@.len() ==> top_level_wf(#[trigger] self.kv@[i].value)
        &&& forall|i: int, j: int|
            0 <= i < j < self.kv@.len() && !self.kv@[i].stale && !self.kv@[j].stale ==> (#[trigger] self.kv@[i]).path@
                != (#[trigger] self.kv@[j]).path@
    }

    /// An empty database.
    pub fn new() -> (s: Store)
        ensures
            s.wf(),
            s.nodes@.len() == 0,
            s.edges@.len() == 0,
            s.assessments@.len() == 0,
            s.kv@.len() == 0,
    {
        Store { nodes: Vec::new(), edges: Vec::new(), assessments: Vec::new(), kv: Vec::new() }
    }
}

/// The position of the node row with identifier `id`, if any.
pub fn find_node(store: &Store, id: &str) -> (r: Option<usize>)
    ensures
        match r {
            Some(i) => i < store.nodes@.len() && store.nodes@[i as int].id@ == id@,
            None => !node_id_used(store.nodes@, id@),
        },
{
    let mut i: usize = 0;
    while i < store.nodes.len()
        invariant
            i <= store.nodes@.len(),
            forall|m: int| 0 <= m < i ==> (#[trigger] store.nodes@[m]).id@ != id@,
        decreases store.nodes@.len() - i,
    {
        if str_eq(store.nodes[i].id.as_str(), id) {
            return Some(i);
        }
        i = i + 1;
    }
    None
}

/// The position of the key/value entry with identifier `id`, if any.
pub fn find_kv_id(store: &Store, id: &str) -> (r: Option<usize>)
    ensures
        match r {
            Some(i) => i < store.kv@.len() && store.kv@[i as int].id@ == id@,
            None => !kv_id_used(store.kv@, id@),
        },
{
    let mut i: usize = 0;
    while i < store.kv.len()
        invariant
            i <= store.kv@.len(),
            forall|m: int| 0 <= m < i ==> (#[trigger] store.kv@[m]).id@ != id@,
        decreases store.kv@.len() - i,
    {
        if str_eq(store.kv[i].id.as_str(), id) {
            return Some(i);
        }
        i = i + 1;
    }
    None
}

/// Whether identifier `id` is taken in the `nodes` table.
pub fn id_in_use(store: &Store, id: &str) -> (r: bool)
    ensures
        r == store.id_used(id@),
{
    find_node(store, id).is_some() || find_kv_id(store, id).is_some()
}

/// Rows that keep their identifiers keep the edges' ends stored: where
/// `s1` has the edges of `s0` and keeps (at the same positions) every node
/// and key/value identifier of `s0`, both ends of every edge are stored in
/// `s1` as they were in `s0`.
pub proof fn lemma_ends_kept(s0: Store, s1: Store)
    requires
        s0.ends_stored(),
        s1.edges@ == s0.edges@,
        s1.nodes@.len() >= s0.nodes@.len(),
        forall|i: int| 0 <= i < s0.nodes@.len() ==> (#[trigger] s1.nodes@[i]).id@ == s0.nodes@[i].id@,
        s1.kv@.len() >= s0.kv@.len(),
        forall|i: int| 0 <= i < s0.kv@.len() ==> (#[trigger] s1.kv@[i]).id@ == s0.kv@[i].id@,
    ensures
        s1.ends_stored(),
        forall|id: Seq<char>| #[trigger] s0.id_used(id) ==> s1.id_used(id),
{
    assert forall|id: Seq<char>| #[trigger] s0.id_used(id) implies s1.id_used(id) by {
        if node_id_used(s0.nodes@, id) {
            let i = choose|i: int| 0 <= i < s0.nodes@.len() && (#[trigger] s0.nodes@[i]).id@ == id;
            assert(s1.nodes@[i].id@ == id);
        } else {
            let i = choose|i: int| 0 <= i < s0.kv@.len() && (#[trigger] s0.kv@[i]).id@ == id;
            assert(s1.kv@[i].id@ == id);
        }
    }
    assert forall|i: int| 0 <= i < s1.edges@.len() implies s1.id_used((#[trigger] s1.edges@[i]).from_id@)
        && s1.id_used(s1.edges@[i].to_id@) by {
        assert(s0.edges@[i] == s1.edges@[i]);
        assert(s0.id_used(s0.edges@[i].from_id@));
        assert(s0.id_used(s0.edges@[i].to_id@));
    }
}

/// Row `r` stores node `n` as `insert_node` writes it.
pub open spec fn row_holds_node(r: NodeRow, n: Node) -> bool {
    &&& r.id@ == n.id@
    &&& r.kind@ == node_kind_name(n.kind)
    &&& r.address == n.address
    &&& r.project == n.project
    &&& r.component == n.component
    &&& r.title == n.title
    &&& r.content == n.content
    &&& r.created_at == n.created_at
    &&& r.updated_at == n.updated_at
    &&& r.stale == n.stale
    &&& r.expires_at is None
    &&& r.read_level == 0
}

/// Node `n` is what row `r` reads back as, its kind being `k`.
pub open spec fn node_read_from(n: Node, r: NodeRow, k: NodeKind) -> bool {
    &&& n.id@ == r.id@
    &&& n.kind == k
    &&& n.address == r.address
    &&& n.project == r.project
    &&& n.component == r.component
    &&& n.title == r.title
    &&& n.content == r.content
    &&& n.created_at == r.created_at
    &&& n.updated_at == r.updated_at
    &&& n.stale == r.stale
}

/// The row that `insert_node` writes for `n`.
pub fn node_row(n: &Node) -> (r: NodeRow)
    ensures
        row_holds_node(r, *n),
{
    NodeRow {
        id: n.id.clone(),
        kind: String::from_str(n.kind.as_str()),
        address: copy_opt(&n.address),
        project: copy_opt(&n.project),
        component: copy_opt(&n.component),
        title: copy_opt(&n.title),
        content: copy_opt(&n.content),
        created_at: n.created_at,
        updated_at: n.updated_at,
        stale: n.stale,
        expires_at: None,
        read_level: 0,
    }
}

proof fn lemma_push_node_wf(s0: Store, s1: Store, r: NodeRow)
    requires
        s0.wf(),
        !s0.id_used(r.id@),
        s1.nodes@ == s0.nodes@.push(r),
        s1.edges@ == s0.edges@,
        s1.assessments@ == s0.assessments@,
        s1.kv@ == s0.kv@,
    ensures
        s1.wf(),
        forall|id: Seq<char>| #[trigger] s1.id_used(id) <==> (s0.id_used(id) || id == r.id@),
{
    assert forall|i: int, j: int| 0 <= i < j < s1.nodes@.len() implies (#[trigger] s1.nodes@[i]).id@
        != (#[trigger] s1.nodes@[j]).id@ by {
        if j == s0.nodes@.len() {
            assert(node_id_used(s0.nodes@, s1.nodes@[i].id@) ==> s1.nodes@[i].id@ != r.id@);
            assert(s0.nodes@[i] == s1.nodes@[i]);
        }
    }
    assert forall|i: int, j: int| 0 <= i < s1.nodes@.len() && 0 <= j < s1.kv@.len() implies (
    #[trigger] s1.nodes@[i]).id@ != (#[trigger] s1.kv@[j]).id@ by {
        if i == s0.nodes@.len() {
            assert(s0.kv@[j].id@ != r.id@);
        } else {
            assert(s0.nodes@[i] == s1.nodes@[i]);
        }
    }
    assert forall|id: Seq<char>| #[trigger] s1.id_used(id) <==> (s0.id_used(id) || id == r.id@) by {
        if node_id_used(s1.nodes@, id) {
            let i = choose|i: int| 0 <= i < s1.nodes@.len() && (#[trigger] s1.nodes@[i]).id@ == id;
            if i < s0.nodes@.len() {
                assert(s0.nodes@[i] == s1.nodes@[i]);
            }
        }
        if node_id_used(s0.nodes@, id) {
            let i = choose|i: int| 0 <= i < s0.nodes@.len() && (#[trigger] s0.nodes@[i]).id@ == id;
            assert(s1.nodes@[i] == s0.nodes@[i]);
        }
        if id == r.id@ {
            assert(s1.nodes@[s0.nodes@.len() as int] == r);
        }
    }
}

/// Inserts a node row. The insert is refused where the identifier is taken.
pub fn insert_node(store: &mut Store, node: &Node) -> (r: Result<(), StoreError>)
    requires
        old(store).wf(),
    ensures
        final(store).wf(),
        match r {
            Ok(()) => {
                &&& !old(store).id_used(node.id@)
                &&& final(store).nodes@.len() == old(store).nodes@.len() + 1
                &&& final(store).nodes@.drop_last() == old(store).nodes@
                &&& row_holds_node(final(store).nodes@.last(), *node)
            },
            Err(e) => {
                &&& e is DuplicateId
                &&& old(store).id_used(node.id@)
                &&& *final(store) == *old(store)
            },
        },
        final(store).edges@ == old(store).edges@,
        final(store).assessments@ == old(store).assessments@,
        final(store).kv@ == old(store).kv@,
{
    if id_in_use(store, node.id.as_str()) {
        return Err(StoreError::DuplicateId);
    }
    let row = node_row(node);
    let ghost s0 = *store;
    store.nodes.push(row);
    proof {
        lemma_push_node_wf(s0, *store, row);
        assert(store.nodes@.drop_last() =~= s0.nodes@);
    }
    Ok(())
}

/// The position of the node row with identifier `id`.
pub open spec fn node_index(nodes: Seq<NodeRow>, id: Seq<char>) -> int {
    choose|i: int| 0 <= i < nodes.len() && (#[trigger] nodes[i]).id@ == id
}

/// In a well-formed store, a row holding identifier `id` is the one at
/// `node_index`.
pub proof fn lemma_node_index(s: Store, i: int)
    requires
        s.wf(),
        0 <= i < s.nodes@.len(),
    ensures
        node_index(s.nodes@, s.nodes@[i].id@) == i,
{
    let id = s.nodes@[i].id@;
    let j = node_index(s.nodes@, id);
    assert(s.nodes@[j].id@ == id);
    if i < j {
        assert(s.nodes@[i].id@ != s.nodes@[j].id@);
    } else if j < i {
        assert(s.nodes@[j].id@ != s.nodes@[i].id@);
    }
}

/// Reads a node row back as a node.
pub fn node_from_row(row: &NodeRow) -> (r: Result<Node, StoreError>)
    ensures
        match r {
            Ok(n) => node_read_from(n, *row, n.kind) && node_kind_name(n.kind) == row.kind@,
            Err(e) => e matches StoreError::UnknownKind(m) && !crate::kinds::is_node_kind_name(row.kind@)
                && m@ == "unknown NodeKind: "@ + row.kind@,
        },
{
    match NodeKind::parse(row.kind.as_str()) {
        Ok(k) => Ok(
            Node {
                id: row.id.clone(),
                kind: k,
                address: copy_opt(&row.address),
                project: copy_opt(&row.project),
                component: copy_opt(&row.component),
                title: copy_opt(&row.title),
                content: copy_opt(&row.content),
                created_at: row.created_at,
                updated_at: row.updated_at,
                stale: row.stale,
            },
        ),
        Err(m) => Err(StoreError::UnknownKind(m)),
    }
}

/// Fetches the node with identifier `id`. Where no row has it the result
/// is `NotFound`; where its stored kind is not a node kind (a key/value
/// entry is stored under kind `KV`) the result is `UnknownKind`.
pub fn get_node(store: &Store, id: &str) -> (r: Result<Node, StoreError>)
    requires
        store.wf(),
    ensures
        match r {
            Ok(n) => node_id_used(store.nodes@, id@) && node_read_from(
                n,
                store.nodes@[node_index(store.nodes@, id@)],
                n.kind,
            ) && node_kind_name(n.kind) == store.nodes@[node_index(store.nodes@, id@)].kind@,
            Err(StoreError::NotFound) => !store.id_used(id@),
            Err(StoreError::UnknownKind(m)) => if node_id_used(store.nodes@, id@) {
                &&& !crate::kinds::is_node_kind_name(store.nodes@[node_index(store.nodes@, id@)].kind@)
                &&& m@ == "unknown NodeKind: "@ + store.nodes@[node_index(store.nodes@, id@)].kind@
            } else {
                kv_id_used(store.kv@, id@) && m@ == "unknown NodeKind: KV"@
            },
            Err(_) => false,
        },
{
    match find_node(store, id) {
        None => {
            if find_kv_id(store, id).is_some() {
                Err(StoreError::UnknownKind(String::from_str("unknown NodeKind: KV")))
            } else {
                Err(StoreError::NotFound)
            }
        },
        Some(i) => {
            proof {
                lemma_node_index(*store, i as int);
            }
            node_from_row(&store.nodes[i])
        },
    }
}

/// Marks the row with identifier `id` stale (`UPDATE nodes SET stale = 1
/// WHERE id = ?`); nothing changes where no row has it.
pub fn mark_stale(store: &mut Store, id: &str)
    requires
        old(store).wf(),
    ensures
        final(store).wf(),
        final(store).nodes@.len() == old(store).nodes@.len(),
        forall|i: int| 0 <= i < old(store).nodes@.len() ==> {
            let a = #[trigger] old(store).nodes@[i];
            let b = final(store).nodes@[i];
            if a.id@ == id@ {
                b == NodeRow { stale: true, ..a }
            } else {
                b == a
            }
        },
        final(store).kv@.len() == old(store).kv@.len(),
        forall|i: int| 0 <= i < old(store).kv@.len() ==> {
            let a = #[trigger] old(store).kv@[i];
            let b = final(store).kv@[i];
            if a.id@ == id@ {
                b == KvRecord { stale: true, ..a }
            } else {
                b == a
            }
        },
        final(store).edges@ == old(store).edges@,
        final(store).assessments@ == old(store).assessments@,
{
    let ghost s0 = *store;
    if let Some(i) = find_node(store, id) {
        store.nodes[i].stale = true;
    }
    if let Some(i) = find_kv_id(store, id) {
        store.kv[i].stale = true;
    }
    proof {
        lemma_ends_kept(s0, *store);
    }
}

/// Row `r` stores edge `e`.
pub open spec fn row_holds_edge(r: EdgeRow, e: Edge) -> bool {
    &&& r.from_id@ == e.from_id@
    &&& r.to_id@ == e.to_id@
    &&& r.kind@ == edge_kind_name(e.kind)
    &&& r.weight == e.weight
    &&& r.created_at == e.created_at
}

/// Some stored edge has the key `(from, to, kind)`.
pub open spec fn edge_key_used(edges: Seq<EdgeRow>, from: Seq<char>, to: Seq<char>, kind: Seq<char>) -> bool {
    exists|i: int|
        0 <= i < edges.len() && (#[trigger] edges[i]).from_id@ == from && edges[i].to_id@ == to && edges[i].kind@
            == kind
}

/// Whether an edge with key `(from, to, kind)` is stored.
pub fn has_edge_key(store: &Store, from: &str, to: &str, kind: &str) -> (r: bool)
    ensures
        r == edge_key_used(store.edges@, from@, to@, kind@),
{
    let mut i: usize = 0;
    while i < store.edges.len()
        invariant
            i <= store.edges@.len(),
            forall|m: int| 0 <= m < i ==> !((#[trigger] store.edges@[m]).from_id@ == from@ && store.edges@[m].to_id@ == to@
                && store.edges@[m].kind@ == kind@),
        decreases store.edges@.len() - i,
    {
        let e = &store.edges[i];
        if str_eq(e.from_id.as_str(), from) && str_eq(e.to_id.as_str(), to) && str_eq(e.kind.as_str(), kind) {
            return true;
        }
        i = i + 1;
    }
    false
}

/// Inserts an edge, as `INSERT OR IGNORE` does with the foreign keys
/// enforced: both ends must be stored nodes, and an edge whose key
/// `(from_id, to_id, kind)` is already stored leaves the table unchanged
/// (its ends are stored, so such an insert succeeds).
pub fn insert_edge(store: &mut Store, edge: &Edge) -> (r: Result<(), StoreError>)
    requires
        old(store).wf(),
    ensures
        final(store).wf(),
        match r {
            Ok(()) => {
                &&& old(store).id_used(edge.from_id@)
                &&& old(store).id_used(edge.to_id@)
                &&& if edge_key_used(old(store).edges@, edge.from_id@, edge.to_id@, edge_kind_name(edge.kind)) {
                    final(store).edges@ == old(store).edges@
                } else {
                    &&& final(store).edges@.len() == old(store).edges@.len() + 1
                    &&& final(store).edges@.drop_last() == old(store).edges@
                    &&& row_holds_edge(final(store).edges@.last(), *edge)
                }
            },
            Err(e) => {
                &&& e is MissingNode
                &&& !(old(store).id_used(edge.from_id@) && old(store).id_used(edge.to_id@))
                &&& final(store).edges@ == old(store).edges@
            },
        },
        final(store).nodes@ == old(store).nodes@,
        final(store).assessments@ == old(store).assessments@,
        final(store).kv@ == old(store).kv@,
        edge_key_used(old(store).edges@, edge.from_id@, edge.to_id@, edge_kind_name(edge.kind)) ==> r is Ok
            && final(store).edges@ == old(store).edges@,
{
    proof {
        if edge_key_used(store.edges@, edge.from_id@, edge.to_id@, edge_kind_name(edge.kind)) {
            let j = choose|j: int|
                0 <= j < store.edges@.len() && (#[trigger] store.edges@[j]).from_id@ == edge.from_id@
                    && store.edges@[j].to_id@ == edge.to_id@ && store.edges@[j].kind@ == edge_kind_name(edge.kind);
            assert(store.id_used(store.edges@[j].from_id@));
        }
    }
    if !id_in_use(store, edge.from_id.as_str()) || !id_in_use(store, edge.to_id.as_str()) {
        return Err(StoreError::MissingNode);
    }
    let kind = edge.kind.as_str();
    if has_edge_key(store, edge.from_id.as_str(), edge.to_id.as_str(), kind) {
        return Ok(());
    }
    let row = EdgeRow {
        from_id: edge.from_id.clone(),
        to_id: edge.to_id.clone(),
        kind: String::from_str(kind),
        weight: edge.weight,
        created_at: edge.created_at,
    };
    let ghost e0 = store.edges@;
    store.edges.push(row);
    assert(store.edges@.drop_last() =~= e0);
    assert forall|i: int, j: int| 0 <= i < j < store.edges@.len() implies !same_edge_key(
        #[trigger] store.edges@[i],
        #[trigger] store.edges@[j],
    ) by {
        if j == e0.len() {
            assert(store.edges@[i] == e0[i]);
        }
    }
    Ok(())
}

/// Whether the optional text `o` is present and equal to `t`.
pub open spec fn opt_is(o: Option<String>, t: Seq<char>) -> bool {
    o matches Some(x) && x@ == t
}

/// Whether optional text `o` is present and equal to `t`.
pub fn opt_eq(o: &Option<String>, t: &str) -> (r: bool)
    ensures
        r == opt_is(*o, t@),
{
    match o {
        Some(x) => str_eq(x.as_str(), t),
        None => false,
    }
}

/// Row `r` is the component record of `project`/`component`.
pub open spec fn is_component_row(r: NodeRow, project: Seq<char>, component: Seq<char>) -> bool {
    r.kind@ == "ComponentLayer"@ && opt_is(r.project, project) && opt_is(r.component, component)
}

/// Some row is the component record of `project`/`component`.
pub open spec fn has_component_row(nodes: Seq<NodeRow>, project: Seq<char>, component: Seq<char>) -> bool {
    exists|i: int| 0 <= i < nodes.len() && is_component_row(#[trigger] nodes[i], project, component)
}

/// The first row that is the component record of `project`/`component`.
pub open spec fn first_component_row(nodes: Seq<NodeRow>, project: Seq<char>, component: Seq<char>) -> int {
    choose|i: int|
        0 <= i < nodes.len() && is_component_row(#[trigger] nodes[i], project, component) && forall|m: int|
            0 <= m < i ==> !is_component_row(#[trigger] nodes[m], project, component)
}

/// Row `r` is a live node of kind `kind` created at `now` under identifier
/// `id`, with the given project, component, title and content, no address,
/// no expiry and read level `level`.
pub open spec fn is_new_row(
    r: NodeRow,
    id: Seq<char>,
    kind: Seq<char>,
    project: Option<Seq<char>>,
    component: Option<Seq<char>>,
    address: Option<Seq<char>>,
    title: Option<Seq<char>>,
    content: Seq<char>,
    level: i64,
    now: i64,
) -> bool {
    &&& r.id@ == id
    &&& r.kind@ == kind
    &&& match project { Some(p) => opt_is(r.project, p), None => r.project is None }
    &&& match component { Some(c) => opt_is(r.component, c), None => r.component is None }
    &&& match address { Some(a) => opt_is(r.address, a), None => r.address is None }
    &&& match title { Some(t) => opt_is(r.title, t), None => r.title is None }
    &&& opt_is(r.content, content)
    &&& r.created_at == now
    &&& r.updated_at == now
    &&& !r.stale
    &&& r.expires_at is None
    &&& r.read_level == level
}

/// The effect of `upsert_component_todo` at instant `now` with the fresh
/// identifier `fresh`: the first component record of `project`/`component`
/// (live or stale) gets `content`, is made live and touched; where there is
/// none a new `ComponentLayer` node is inserted under `fresh`.
pub open spec fn component_todo_upserted(
    s0: Store,
    s1: Store,
    project: Seq<char>,
    component: Seq<char>,
    content: Seq<char>,
    now: i64,
    fresh: Seq<char>,
    r: Result<String, StoreError>,
) -> bool {
    &&& s1.edges@ == s0.edges@
    &&& s1.assessments@ == s0.assessments@
    &&& s1.kv@ == s0.kv@
    &&& if has_component_row(s0.nodes@, project, component) {
        let i = first_component_row(s0.nodes@, project, component);
        &&& r matches Ok(id) && id@ == s0.nodes@[i].id@
        &&& s1.nodes@.len() == s0.nodes@.len()
        &&& opt_is(s1.nodes@[i].content, content)
        &&& s1.nodes@[i] == NodeRow {
            content: s1.nodes@[i].content,
            updated_at: now,
            stale: false,
            ..s0.nodes@[i]
        }
        &&& forall|m: int| 0 <= m < s0.nodes@.len() && m != i ==> s1.nodes@[m] == s0.nodes@[m]
    } else if s0.id_used(fresh) {
        &&& r matches Err(e) && e is DuplicateId
        &&& s1.nodes@ == s0.nodes@
    } else {
        &&& r matches Ok(id) && id@ == fresh
        &&& s1.nodes@.len() == s0.nodes@.len() + 1
        &&& s1.nodes@.drop_last() == s0.nodes@
        &&& is_new_row(
            s1.nodes@.last(),
            fresh,
            "ComponentLayer"@,
            Some(project),
            Some(component),
            None,
            None,
            content,
            0,
            now,
        )
    }
}

/// `upsert_component_todo` at instant `now`, inserting under `fresh_id`
/// where a new node is needed.
pub fn upsert_component_todo_at(
    store: &mut Store,
    project: &str,
    component: &str,
    content: &str,
    now: i64,
    fresh_id: String,
) -> (r: Result<String, StoreError>)
    requires
        old(store).wf(),
    ensures
        final(store).wf(),
        component_todo_upserted(*old(store), *final(store), project@, component@, content@, now, fresh_id@, r),
{
    let mut i: usize = 0;
    while i < store.nodes.len()
        invariant
            i <= store.nodes@.len(),
            store.wf(),
            *store == *old(store),
            forall|m: int| 0 <= m < i ==> !is_component_row(#[trigger] store.nodes@[m], project@, component@),
        decreases store.nodes@.len() - i,
    {
        let row = &store.nodes[i];
        if str_eq(row.kind.as_str(), "ComponentLayer") && opt_eq(&row.project, project) && opt_eq(
            &row.component,
            component,
        ) {
            let ghost s0 = *store;
            assert(has_component_row(s0.nodes@, project@, component@));
            assert(first_component_row(s0.nodes@, project@, component@) == i);
            let id = store.nodes[i].id.clone();
            store.nodes[i].content = Some(String::from_str(content));
            store.nodes[i].updated_at = now;
            store.nodes[i].stale = false;
            assert(store.nodes@[i as int] == NodeRow {
                content: store.nodes@[i as int].content,
                updated_at: now,
                stale: false,
                ..s0.nodes@[i as int]
            });
            assert forall|m: int| 0 <= m < s0.nodes@.len() && m != i implies store.nodes@[m] == s0.nodes@[m] by {}
            return Ok(id);
        }
        i = i + 1;
    }
    let mut node = Node::new_at(
        NodeKind::ComponentLayer,
        Some(String::from_str(project)),
        Some(String::from_str(content)),
        fresh_id,
        now,
    );
    node.component = Some(String::from_str(component));
    let id = node.id.clone();
    match insert_node(store, &node) {
        Ok(()) => Ok(id),
        Err(e) => Err(e),
    }
}

/// Creates or updates the TODO record of a component: the first
/// `ComponentLayer` node of `project`/`component` gets the new content and
/// is made live again; where there is none a new node is inserted. Returns
/// the record's identifier.
pub fn upsert_component_todo(store: &mut Store, project: &str, component: &str, content: &str) -> (r: Result<
    String,
    StoreError,
>)
    requires
        old(store).wf(),
    ensures
        final(store).wf(),
        exists|now: i64, fresh: Seq<char>|
            now >= 0 && crate::clock::is_uuid_v4(fresh) && component_todo_upserted(
                *old(store),
                *final(store),
                project@,
                component@,
                content@,
                now,
                fresh,
                r,
            ),
{
    let now = crate::clock::now_micros();
    let fresh = crate::clock::new_node_id();
    let ghost f = fresh@;
    let r = upsert_component_todo_at(store, project, component, content, now, fresh);
    assert(component_todo_upserted(*old(store), *store, project@, component@, content@, now, f, r));
    r
}

} // verus!

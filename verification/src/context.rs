//! The context graph: role-scoped knowledge nodes (codebase references,
//! architecture summaries, design rationale) addressed by hierarchical paths
//! such as `[gardian][codebase]`. Each node carries the lowest role level
//! that may read it.

use vstd::prelude::*;
use crate::kinds::{NodeKind, node_kind_name, str_eq};
use crate::types::{Node, copy_opt};
use crate::store::{Store, NodeRow, StoreError, opt_is, opt_eq, insert_node, is_new_row, node_read_from};
use crate::query::{NodeQuery, row_matches, select_stored, stored_selection};

verus! {

/// Row `r` is the live context node at `path`.
pub open spec fn is_context_at(r: NodeRow, path: Seq<char>) -> bool {
    r.kind@ == node_kind_name(NodeKind::ContextNode) && opt_is(r.address, path) && !r.stale
}

/// Some row is a live context node at `path`.
pub open spec fn has_context_at(nodes: Seq<NodeRow>, path: Seq<char>) -> bool {
    exists|i: int| 0 <= i < nodes.len() && is_context_at(#[trigger] nodes[i], path)
}

/// Position `i` holds the first live context node at `path`.
pub open spec fn first_context_at(nodes: Seq<NodeRow>, path: Seq<char>, i: int) -> bool {
    &&& 0 <= i < nodes.len()
    &&& is_context_at(nodes[i], path)
    &&& forall|m: int| 0 <= m < i ==> !is_context_at(#[trigger] nodes[m], path)
}

/// The position of the first live context node at `path`.
pub open spec fn first_context_index(nodes: Seq<NodeRow>, path: Seq<char>) -> int {
    choose|i: int| first_context_at(nodes, path, i)
}

/// In any sequence of rows, the first live context node at a path is
/// unique.
pub proof fn lemma_first_context_unique(nodes: Seq<NodeRow>, path: Seq<char>, i: int, j: int)
    requires
        first_context_at(nodes, path, i),
        first_context_at(nodes, path, j),
    ensures
        i == j,
{
    if i < j {
        assert(!is_context_at(nodes[i], path));
    } else if j < i {
        assert(!is_context_at(nodes[j], path));
    }
}

/// The position of the first live context node at `path`, if any.
pub fn find_context_at(store: &Store, path: &str) -> (r: Option<usize>)
    ensures
        match r {
            Some(i) => first_context_at(store.nodes@, path@, i as int),
            None => !has_context_at(store.nodes@, path@),
        },
{
    let mut i: usize = 0;
    while i < store.nodes.len()
        invariant
            i <= store.nodes@.len(),
            forall|m: int| 0 <= m < i ==> !is_context_at(#[trigger] store.nodes@[m], path@),
        decreases store.nodes@.len() - i,
    {
        let row = &store.nodes[i];
        if str_eq(row.kind.as_str(), "ContextNode") && opt_eq(&row.address, path) && !row.stale {
            return Some(i);
        }
        i = i + 1;
    }
    None
}

/// Optional text `o` read as `Option<Seq<char>>`.
pub open spec fn opt_view(o: Option<String>) -> Option<Seq<char>> {
    match o {
        Some(x) => Some(x@),
        None => None,
    }
}

/// Row `r` holds the given context node fields: type as title, content,
/// read level, project and component.
pub open spec fn holds_context(
    r: NodeRow,
    node_type: Seq<char>,
    content: Seq<char>,
    level: i64,
    project: Seq<char>,
    component: Option<Seq<char>>,
) -> bool {
    &&& opt_is(r.title, node_type)
    &&& opt_is(r.content, content)
    &&& r.read_level == level
    &&& opt_is(r.project, project)
    &&& opt_view(r.component) == component
}

/// The effect of writing a context node at `path` at instant `now`: the
/// live node there gets the new fields and is touched; where there is none
/// a new `ContextNode` is inserted under `fresh`. The result is the node's
/// identifier.
pub open spec fn context_node_upserted(
    s0: Store,
    s1: Store,
    path: Seq<char>,
    node_type: Seq<char>,
    content: Seq<char>,
    level: i64,
    project: Seq<char>,
    component: Option<Seq<char>>,
    now: i64,
    fresh: Seq<char>,
    r: Result<String, StoreError>,
) -> bool {
    &&& s1.edges@ == s0.edges@
    &&& s1.assessments@ == s0.assessments@
    &&& s1.kv@ == s0.kv@
    &&& if has_context_at(s0.nodes@, path) {
        let i = first_context_index(s0.nodes@, path);
        &&& r matches Ok(id) && id@ == s0.nodes@[i].id@
        &&& s1.nodes@.len() == s0.nodes@.len()
        &&& holds_context(s1.nodes@[i], node_type, content, level, project, component)
        &&& s1.nodes@[i] == NodeRow {
            title: s1.nodes@[i].title,
            content: s1.nodes@[i].content,
            read_level: level,
            project: s1.nodes@[i].project,
            component: s1.nodes@[i].component,
            updated_at: now,
            ..s0.nodes@[i]
        }
        &&& forall|m: int| 0 <= m < s0.nodes@.len() && m != i ==> s1.nodes@[m] == s0.nodes@[m]
    } else if s0.id_used(fresh) {
        &&& r matches Err(e) && e is DuplicateId
        &&& s1.nodes@ == s0.nodes@
    } else {
        &&& r matches Ok(id) && id@ == fresh
        &&& s1.nodes@.len() == s0.nodes@.len() + 1
        &&& s1.nodes@.drop_last() == s0.nodes@
        &&& is_new_row(
            s1.nodes@.last(),
            fresh,
            node_kind_name(NodeKind::ContextNode),
            Some(project),
            component,
            Some(path),
            Some(node_type),
            content,
            level,
            now,
        )
    }
}

/// Writes the context node at `path` at instant `now` (see
/// `context_node_upserted`).
pub fn upsert_context_node_at(
    store: &mut Store,
    path: &str,
    node_type: &str,
    content: &str,
    level: i64,
    project: &str,
    component: Option<String>,
    now: i64,
    fresh_id: String,
) -> (r: Result<String, StoreError>)
    requires
        old(store).wf(),
    ensures
        final(store).wf(),
        context_node_upserted(
            *old(store),
            *final(store),
            path@,
            node_type@,
            content@,
            level,
            project@,
            opt_view(component),
            now,
            fresh_id@,
            r,
        ),
{
    match find_context_at(store, path) {
        Some(i) => {
            let ghost s0 = *store;
            let id = store.nodes[i].id.clone();
            store.nodes[i].title = Some(String::from_str(node_type));
            store.nodes[i].content = Some(String::from_str(content));
            store.nodes[i].read_level = level;
            store.nodes[i].project = Some(String::from_str(project));
            store.nodes[i].component = component;
            store.nodes[i].updated_at = now;
            assert(store.nodes@[i as int] == NodeRow {
                title: store.nodes@[i as int].title,
                content: store.nodes@[i as int].content,
                read_level: level,
                project: store.nodes@[i as int].project,
                component: store.nodes@[i as int].component,
                updated_at: now,
                ..s0.nodes@[i as int]
            });
            assert forall|m: int| 0 <= m < s0.nodes@.len() && m != i implies store.nodes@[m] == s0.nodes@[m] by {}
            assert(has_context_at(s0.nodes@, path@));
            proof {
                lemma_first_context_unique(s0.nodes@, path@, i as int, first_context_index(s0.nodes@, path@));
            }
            Ok(id)
        },
        None => {
            let mut node = Node::new_at(
                NodeKind::ContextNode,
                Some(String::from_str(project)),
                Some(String::from_str(content)),
                fresh_id,
                now,
            );
            node.address = Some(String::from_str(path));
            node.title = Some(String::from_str(node_type));
            node.component = component;
            let id = node.id.clone();
            match insert_node(store, &node) {
                Ok(()) => {
                    let last = store.nodes.len() - 1;
                    store.nodes[last].read_level = level;
                    assert(store.nodes@.drop_last() == old(store).nodes@);
                    Ok(id)
                },
                Err(e) => Err(e),
            }
        },
    }
}

/// Writes the context node at `path` now, with a fresh identifier where a
/// new node is needed (see `context_node_upserted`).
pub fn upsert_context_node(
    store: &mut Store,
    path: &str,
    node_type: &str,
    content: &str,
    level: i64,
    project: &str,
    component: Option<String>,
) -> (r: Result<String, StoreError>)
    requires
        old(store).wf(),
    ensures
        final(store).wf(),
        exists|now: i64, fresh: Seq<char>|
            now >= 0 && crate::clock::is_uuid_v4(fresh) && context_node_upserted(
                *old(store),
                *final(store),
                path@,
                node_type@,
                content@,
                level,
                project@,
                opt_view(component),
                now,
                fresh,
                r,
            ),
{
    let now = crate::clock::now_micros();
    let fresh = crate::clock::new_node_id();
    let ghost f = fresh@;
    let ghost c = opt_view(component);
    let r = upsert_context_node_at(store, path, node_type, content, level, project, component, now, fresh);
    assert(context_node_upserted(*old(store), *store, path@, node_type@, content@, level, project@, c, now, f, r));
    r
}

/// The context node that row `r` holds.
pub fn context_node_of(r: &NodeRow) -> (n: Node)
    ensures
        node_read_from(n, *r, NodeKind::ContextNode),
{
    Node {
        id: r.id.clone(),
        kind: NodeKind::ContextNode,
        address: copy_opt(&r.address),
        project: copy_opt(&r.project),
        component: copy_opt(&r.component),
        title: copy_opt(&r.title),
        content: copy_opt(&r.content),
        created_at: r.created_at,
        updated_at: r.updated_at,
        stale: r.stale,
    }
}

/// `r` is what a reader of role level `level` gets at `path`: the first
/// live context node there where its read level is at most `level`,
/// `None` where there is none or it is above `level`.
pub open spec fn context_node_found(nodes: Seq<NodeRow>, path: Seq<char>, level: i64, r: Option<Node>) -> bool {
    match r {
        Some(n) => exists|i: int|
            #![trigger nodes[i]]
            first_context_at(nodes, path, i) && nodes[i].read_level <= level && node_read_from(
                n,
                nodes[i],
                NodeKind::ContextNode,
            ),
        None => !has_context_at(nodes, path) || exists|i: int|
            #![trigger nodes[i]]
            first_context_at(nodes, path, i) && nodes[i].read_level > level,
    }
}

/// Reads the context node at `path` for a reader of role level `level`
/// (see `context_node_found`).
pub fn get_context_node(store: &Store, path: &str, level: i64) -> (r: Option<Node>)
    ensures
        context_node_found(store.nodes@, path@, level, r),
{
    match find_context_at(store, path) {
        Some(i) => {
            if store.nodes[i].read_level <= level {
                let n = context_node_of(&store.nodes[i]);
                assert(first_context_at(store.nodes@, path@, i as int));
                Some(n)
            } else {
                assert(first_context_at(store.nodes@, path@, i as int));
                None
            }
        },
        None => None,
    }
}

/// Row `r` is a live context node of `project` readable at role level
/// `level`.
pub open spec fn is_readable_context(r: NodeRow, project: Seq<char>, level: i64) -> bool {
    &&& r.kind@ == node_kind_name(NodeKind::ContextNode)
    &&& opt_is(r.project, project)
    &&& !r.stale
    &&& r.read_level <= level
}

/// `out` lists the live context nodes of `project` readable at role level
/// `level`, in storage order, from the rows at positions `order`.
pub open spec fn contexts_listed(nodes: Seq<NodeRow>, project: Seq<char>, level: i64, out: Seq<Node>, order: Seq<usize>) -> bool {
    &&& stored_selection(order, nodes.len() as int, |i: int| is_readable_context(nodes[i], project, level))
    &&& out.len() == order.len()
    &&& forall|j: int|
        0 <= j < order.len() ==> node_read_from(#[trigger] out[j], nodes[order[j] as int], NodeKind::ContextNode)
}

/// The live context nodes of `project` readable at role level `level`, in
/// storage order.
pub fn list_context_nodes(store: &Store, project: &str, level: i64) -> (r: Vec<Node>)
    ensures
        exists|order: Seq<usize>| contexts_listed(store.nodes@, project@, level, r@, order),
{
    let q = NodeQuery {
        kinds: vec![NodeKind::ContextNode],
        project: Some(String::from_str(project)),
        live_only: true,
        unexpired_at: None,
        created_after: None,
        content_like: None,
        max_read_level: Some(level),
        address: None,
    };
    proof {
        assert forall|i: int| row_matches(#[trigger] store.nodes@[i], q) == is_readable_context(
            store.nodes@[i],
            project@,
            level,
        ) by {
            if store.nodes@[i].kind@ == node_kind_name(NodeKind::ContextNode) {
                assert(node_kind_name(q.kinds@[0]) == store.nodes@[i].kind@);
            }
        }
        assert((|i: int| row_matches(store.nodes@[i], q)) =~= (|i: int|
            is_readable_context(store.nodes@[i], project@, level)));
    }
    let order = select_stored(store, &q);
    let mut out: Vec<Node> = Vec::new();
    for j in 0..order.len()
        invariant
            forall|k: int| 0 <= k < order.len() ==> 0 <= #[trigger] order@[k] < store.nodes@.len(),
            out@.len() == j,
            forall|m: int|
                0 <= m < j ==> node_read_from(#[trigger] out@[m], store.nodes@[order@[m] as int], NodeKind::ContextNode),
    {
        out.push(context_node_of(&store.nodes[order[j]]));
    }
    assert(contexts_listed(store.nodes@, project@, level, out@, order@));
    out
}

} // verus!

//! Properties that span several operations: what a read gives back after a
//! write, what a delete or a supersession hides, what an upsert keeps
//! unique, and the agreement between the tool listing and tool calls.

use vstd::prelude::*;
use crate::kinds::{NodeKind, node_kind_name, lemma_node_kind_name_injective};
use crate::types::Node;
use crate::json::{Json, jv};
use crate::store::{
    Store, NodeRow, KvRecord, StoreError, node_id_used, node_index, row_holds_node, node_read_from,
    is_component_row, has_component_row, first_component_row, component_todo_upserted, lemma_node_index, opt_is,
};
use crate::store::{edge_key_used, row_holds_edge};
use crate::types::Edge;
use crate::kinds::{edge_kind_name, EdgeKind};
use crate::context::{context_node_upserted, has_context_at, first_context_at, is_context_at, first_context_index, lemma_first_context_unique};
use crate::kv::{in_namespace, namespace_listed, kv_key, kv_namespace,
    KvRow, kv_read, kv_upserted, kv_deleted, kv_patched, expiry_for, live_at, any_live, visible, first_visible,
    any_visible, row_reads,
};
use crate::tools::{signal_written, arg_str, arg_or, ttl_hours_arg, is_searchable_signal, tool_outcome};
use crate::mcp::{tool_name, tool_list_v, object_schema_v};
use crate::json::{JsonV, is_merge, is_shallow_merge, top_level_wf, lookup, has_key, keys_distinct, first_key_index, key_index, value_at};
use crate::order::time_ordered_selection;
use crate::routes::{holds_new_node, audit_title, is_audit_row, audit_limit_for};
use crate::query::{node_created, opt_text};
use crate::sqlike::{like, like_from, like_char};
use crate::governance::{keyword_pattern, precedents_upto};
use crate::store::AssessmentRow;
use crate::tools::{
    signals_found, signal_lines, context_read, reader_level, graph_section, graph_entry, project_context_is,
    context_text,
};
use crate::text::{seq_join, decimal};
use crate::types::Artifact;
use crate::routes::{artifacts_listed, artifact_read};
use crate::context::contexts_listed;

verus! {

/// In a well-formed store, a live entry with path `p` at position `i` is
/// the only live entry with that path.
proof fn lemma_live_unique(s: Store, p: Seq<char>, i: int, j: int)
    requires
        s.wf(),
        live_at(s.kv@, p, i),
        live_at(s.kv@, p, j),
    ensures
        i == j,
{
    if i < j {
        assert(s.kv@[i].path@ != s.kv@[j].path@);
    } else if j < i {
        assert(s.kv@[j].path@ != s.kv@[i].path@);
    }
}

/// Where some item of `s` passes `p`, a first one does.
proof fn lemma_least<A>(s: Seq<A>, p: spec_fn(A) -> bool, k: int) -> (i: int)
    requires
        0 <= k < s.len(),
        p(s[k]),
    ensures
        0 <= i <= k,
        p(s[i]),
        forall|m: int| 0 <= m < i ==> !p(#[trigger] s[m]),
    decreases k,
{
    if exists|m: int| 0 <= m < k && p(#[trigger] s[m]) {
        let m = choose|m: int| 0 <= m < k && p(#[trigger] s[m]);
        lemma_least(s, p, m)
    } else {
        k
    }
}

/// Where a row is the component record of `project`/`component`, the first
/// such row is where `first_component_row` points.
proof fn lemma_first_component(nodes: Seq<NodeRow>, project: Seq<char>, component: Seq<char>)
    requires
        has_component_row(nodes, project, component),
    ensures
        0 <= first_component_row(nodes, project, component) < nodes.len(),
        is_component_row(nodes[first_component_row(nodes, project, component)], project, component),
        forall|m: int|
            0 <= m < first_component_row(nodes, project, component) ==> !is_component_row(
                #[trigger] nodes[m],
                project,
                component,
            ),
{
    let k = choose|i: int| 0 <= i < nodes.len() && is_component_row(#[trigger] nodes[i], project, component);
    let p = |r: NodeRow| is_component_row(r, project, component);
    let i = lemma_least(nodes, p, k);
    assert(0 <= i < nodes.len() && is_component_row(nodes[i], project, component) && forall|m: int|
        0 <= m < i ==> !is_component_row(#[trigger] nodes[m], project, component)) by {
        assert forall|m: int| 0 <= m < i implies !is_component_row(#[trigger] nodes[m], project, component) by {
            assert(!p(nodes[m]));
        }
    }
}

/// Where a live context node is at `path`, `first_context_index` points at
/// the first one.
proof fn lemma_first_context(nodes: Seq<NodeRow>, path: Seq<char>)
    requires
        has_context_at(nodes, path),
    ensures
        first_context_at(nodes, path, first_context_index(nodes, path)),
{
    let k = choose|i: int| 0 <= i < nodes.len() && is_context_at(#[trigger] nodes[i], path);
    let p = |r: NodeRow| is_context_at(r, path);
    let i = lemma_least(nodes, p, k);
    assert(first_context_at(nodes, path, i)) by {
        assert forall|m: int| 0 <= m < i implies !is_context_at(#[trigger] nodes[m], path) by {
            assert(!p(nodes[m]));
        }
    }
}

/// Read after write: once `upsert_kv` has stored `value` at `kv_path`, a
/// read of that path at any instant before the new expiry gives `value`
/// back, with that expiry.
pub proof fn law_kv_read_after_write(
    s0: Store,
    s1: Store,
    kv_path: Seq<char>,
    value: Json,
    ttl_seconds: Option<i64>,
    now: i64,
    fresh: Seq<char>,
    t: i64,
    row: Option<KvRow>,
)
    requires
        s0.wf(),
        s1.wf(),
        kv_upserted(s0, s1, kv_path, value, ttl_seconds, now, fresh, Ok(())),
        expiry_for(now, ttl_seconds) matches Some(exp) && (exp matches Some(e) ==> t < e),
        kv_read(s1.kv@, kv_path, t, row),
    ensures
        row matches Some(x) && jv(x.value) == jv(value) && x.expires_at == expiry_for(now, ttl_seconds)->0,
{
    let exp = expiry_for(now, ttl_seconds)->0;
    // The position of the written entry in `s1`.
    let w: int = if any_live(s0.kv@, kv_path) {
        choose|i: int| live_at(s0.kv@, kv_path, i)
    } else {
        s1.kv@.len() - 1
    };
    if any_live(s0.kv@, kv_path) {
        assert(live_at(s0.kv@, kv_path, w));
        assert(s1.kv@[w] == KvRecord { value: value, expires_at: exp, updated_at: now, ..s0.kv@[w] });
    } else {
        assert(s1.kv@[w] == s1.kv@.last());
    }
    assert(live_at(s1.kv@, kv_path, w));
    assert(visible(s1.kv@[w], t));
    match row {
        Some(x) => {
            let i = choose|i: int| first_visible(s1.kv@, kv_path, t, i) && row_reads(x, s1.kv@[i]);
            assert(live_at(s1.kv@, kv_path, i));
            lemma_live_unique(s1, kv_path, i, w);
        },
        None => {
            assert(any_visible(s1.kv@, kv_path, t));
        },
    }
}

/// Read after delete: once `delete_kv` has run on `kv_path`, a read of that
/// path at any instant finds nothing.
pub proof fn law_kv_read_after_delete(s0: Store, s1: Store, kv_path: Seq<char>, now: i64, r: bool, t: i64, row: Option<KvRow>)
    requires
        s0.wf(),
        kv_deleted(s0, s1, kv_path, now, r),
        kv_read(s1.kv@, kv_path, t, row),
    ensures
        row is None,
{
    match row {
        Some(x) => {
            let i = choose|i: int| first_visible(s1.kv@, kv_path, t, i) && row_reads(x, s1.kv@[i]);
            let a = s0.kv@[i];
            if live_at(s0.kv@, kv_path, i) {
                assert(s1.kv@[i].stale);
            } else {
                assert(s1.kv@[i] == a);
            }
        },
        None => {},
    }
}

/// A patch without merge keeps the value: where `patch_kv` only refreshed
/// the expiry of the entry visible at `now`, a later read that finds the
/// entry gives the value that a read at `now` gave before.
pub proof fn law_kv_ttl_patch_keeps_value(
    s0: Store,
    s1: Store,
    kv_path: Seq<char>,
    ttl_seconds: Option<i64>,
    now: i64,
    before: Option<KvRow>,
    t: i64,
    after: Option<KvRow>,
)
    requires
        s0.wf(),
        s1.wf(),
        kv_patched(s0, s1, kv_path, None, ttl_seconds, now, Ok(true)),
        kv_read(s0.kv@, kv_path, now, before),
        kv_read(s1.kv@, kv_path, t, after),
        after is Some,
    ensures
        before matches Some(b) && after matches Some(a) && jv(a.value) == jv(b.value),
{
    assert(any_visible(s0.kv@, kv_path, now));
    let b = before->0;
    let i = choose|i: int| first_visible(s0.kv@, kv_path, now, i) && row_reads(b, s0.kv@[i]);
    let a = after->0;
    let j = choose|j: int| first_visible(s1.kv@, kv_path, t, j) && row_reads(a, s1.kv@[j]);
    assert(live_at(s1.kv@, kv_path, i)) by {
        assert(first_visible(s0.kv@, kv_path, now, i));
    }
    assert(live_at(s1.kv@, kv_path, j));
    lemma_live_unique(s1, kv_path, i, j);
    assert(s1.kv@[i].value == s0.kv@[i].value);
}

/// An upsert leaves exactly one live entry at its path.
pub proof fn law_kv_upsert_single_live(
    s0: Store,
    s1: Store,
    kv_path: Seq<char>,
    value: Json,
    ttl_seconds: Option<i64>,
    now: i64,
    fresh: Seq<char>,
)
    requires
        s0.wf(),
        s1.wf(),
        kv_upserted(s0, s1, kv_path, value, ttl_seconds, now, fresh, Ok(())),
    ensures
        any_live(s1.kv@, kv_path),
        forall|i: int, j: int| live_at(s1.kv@, kv_path, i) && live_at(s1.kv@, kv_path, j) ==> i == j,
{
    if any_live(s0.kv@, kv_path) {
        let w = choose|i: int| live_at(s0.kv@, kv_path, i);
        assert(live_at(s1.kv@, kv_path, w));
    } else {
        assert(live_at(s1.kv@, kv_path, s1.kv@.len() - 1));
    }
    assert forall|i: int, j: int| live_at(s1.kv@, kv_path, i) && live_at(s1.kv@, kv_path, j) implies i == j by {
        lemma_live_unique(s1, kv_path, i, j);
    }
}

/// Read after insert: once `insert_node` has stored node `n`, its
/// identifier names the new row, and the node read back from that row is
/// `n`.
pub proof fn law_node_read_after_insert(s0: Store, s1: Store, n: Node, m: Node, k: NodeKind)
    requires
        s1.wf(),
        !s0.id_used(n.id@),
        s1.nodes@.drop_last() == s0.nodes@,
        s1.nodes@.len() == s0.nodes@.len() + 1,
        row_holds_node(s1.nodes@.last(), n),
        node_read_from(m, s1.nodes@[node_index(s1.nodes@, n.id@)], k),
        node_kind_name(k) == s1.nodes@[node_index(s1.nodes@, n.id@)].kind@,
    ensures
        node_id_used(s1.nodes@, n.id@),
        m.id@ == n.id@,
        m.kind == n.kind,
        m.address == n.address,
        m.project == n.project,
        m.component == n.component,
        m.title == n.title,
        m.content == n.content,
        m.created_at == n.created_at,
        m.updated_at == n.updated_at,
        m.stale == n.stale,
{
    let last = s1.nodes@.len() - 1;
    lemma_node_index(s1, last);
    assert(node_id_used(s1.nodes@, n.id@));
    lemma_node_kind_name_injective(k, n.kind);
}

/// At most one row is the component record of `project`/`component`.
pub open spec fn at_most_one_component(nodes: Seq<NodeRow>, project: Seq<char>, component: Seq<char>) -> bool {
    forall|i: int, j: int|
        0 <= i < nodes.len() && 0 <= j < nodes.len() && is_component_row(#[trigger] nodes[i], project, component)
            && is_component_row(#[trigger] nodes[j], project, component) ==> i == j
}

/// One record per component: where a component had at most one TODO record
/// before `update_component_todo`, it has exactly one after a successful
/// call, live and holding the new content, under the identifier returned.
pub proof fn law_component_todo_single_record(
    s0: Store,
    s1: Store,
    project: Seq<char>,
    component: Seq<char>,
    content: Seq<char>,
    now: i64,
    fresh: Seq<char>,
    id: String,
)
    requires
        s0.wf(),
        at_most_one_component(s0.nodes@, project, component),
        component_todo_upserted(s0, s1, project, component, content, now, fresh, Ok(id)),
    ensures
        at_most_one_component(s1.nodes@, project, component),
        exists|i: int|
            0 <= i < s1.nodes@.len() && is_component_row(#[trigger] s1.nodes@[i], project, component) && s1.nodes@[i].id@
                == id@ && opt_is(s1.nodes@[i].content, content) && !s1.nodes@[i].stale,
{
    if has_component_row(s0.nodes@, project, component) {
        let f = first_component_row(s0.nodes@, project, component);
        assert(is_component_row(s1.nodes@[f], project, component));
        assert forall|i: int, j: int|
            0 <= i < s1.nodes@.len() && 0 <= j < s1.nodes@.len() && is_component_row(
                #[trigger] s1.nodes@[i],
                project,
                component,
            ) && is_component_row(#[trigger] s1.nodes@[j], project, component) implies i == j by {
            if i != f {
                assert(s1.nodes@[i] == s0.nodes@[i]);
            }
            if j != f {
                assert(s1.nodes@[j] == s0.nodes@[j]);
            }
        }
    } else {
        let last = s1.nodes@.len() - 1;
        assert(is_component_row(s1.nodes@[last], project, component));
        assert forall|i: int, j: int|
            0 <= i < s1.nodes@.len() && 0 <= j < s1.nodes@.len() && is_component_row(
                #[trigger] s1.nodes@[i],
                project,
                component,
            ) && is_component_row(#[trigger] s1.nodes@[j], project, component) implies i == j by {
            if i < last {
                assert(s1.nodes@[i] == s0.nodes@[i]);
            }
            if j < last {
                assert(s1.nodes@[j] == s0.nodes@[j]);
            }
        }
    }
}

/// A superseded signal is no longer found: after `write_signal` superseded
/// node `old`, every row with that identifier is stale, the new signal is
/// live, a `supersedes` edge leads from the new signal to `old`, and no
/// signal search, of any project, after any instant, at any time, selects
/// a row with that identifier.
pub proof fn law_superseded_signal_not_searched(
    s0: Store,
    s1: Store,
    args: Json,
    now: i64,
    fresh: Seq<char>,
    text: Seq<char>,
    project: Seq<char>,
    since: Option<i64>,
    t: i64,
    order: Seq<usize>,
)
    requires
        s0.wf(),
        signal_written(s0, s1, args, now, fresh, Ok(text)),
        arg_str(args, "supersedes"@) is Some,
        time_ordered_selection(
            order,
            s1.nodes@.len() as int,
            |i: int| is_searchable_signal(s1.nodes@[i], project, since, t),
            node_created(s1.nodes@),
            true,
            Some(50usize),
        ),
    ensures
        forall|i: int|
            0 <= i < s1.nodes@.len() && (#[trigger] s1.nodes@[i]).id@ == arg_str(args, "supersedes"@)->0
                ==> s1.nodes@[i].stale,
        s1.nodes@.last().id@ == fresh && !s1.nodes@.last().stale,
        edge_key_used(s1.edges@, fresh, arg_str(args, "supersedes"@)->0, edge_kind_name(EdgeKind::SupersededBy)),
        forall|k: int| 0 <= k < order.len() ==> s1.nodes@[#[trigger] order[k] as int].id@ != arg_str(args, "supersedes"@)->0,
{
    let old = arg_str(args, "supersedes"@)->0;
    assert(fresh != old) by {
        assert(node_id_used(s0.nodes@, old));
        assert(!s0.id_used(fresh));
    }
    assert forall|i: int|
        0 <= i < s1.nodes@.len() && (#[trigger] s1.nodes@[i]).id@ == old implies s1.nodes@[i].stale by {
        if i < s0.nodes@.len() {
            assert(s1.nodes@[i] == crate::tools::stale_if(s0.nodes@[i], old));
        } else {
            assert(s1.nodes@[i] == s1.nodes@.last());
        }
    }
    if !edge_key_used(s0.edges@, fresh, old, edge_kind_name(EdgeKind::SupersededBy)) {
        assert(s1.edges@[s1.edges@.len() - 1] == s1.edges@.last());
    }
    assert forall|k: int| 0 <= k < order.len() implies s1.nodes@[#[trigger] order[k] as int].id@ != old by {
        let i = order[k] as int;
        assert(is_searchable_signal(s1.nodes@[i], project, since, t));
        if i < s0.nodes@.len() {
            assert(s1.nodes@[i] == crate::tools::stale_if(s0.nodes@[i], old));
        }
    }
}

/// The names of the tools that `tools/call` knows.
pub open spec fn is_known_tool(name: Seq<char>) -> bool {
    exists|i: int| 0 <= i < 9 && tool_name(i) == name
}

/// The listing and the calls agree: every tool that `tools/list`
/// advertises is one that `tools/call` knows, and a call of any other name
/// is refused with `unknown tool` and changes nothing.
pub proof fn law_tool_listing_matches_calls(
    name: Seq<char>,
    s0: Store,
    s1: Store,
    args: Json,
    now: i64,
    fresh: Seq<char>,
    r: Result<Seq<char>, Seq<char>>,
)
    ensures
        forall|i: int| 0 <= i < 9 ==> is_known_tool(#[trigger] tool_name(i)),
        !is_known_tool(name) ==> (tool_outcome(name, s0, s1, args, now, fresh, r) <==> (s1 == s0 && r == Err::<
            Seq<char>,
            Seq<char>,
        >("unknown tool: "@ + name))),
{
    assert forall|i: int| 0 <= i < 9 implies is_known_tool(#[trigger] tool_name(i)) by {}
    if !is_known_tool(name) {
        assert(tool_name(0) != name);
        assert(tool_name(1) != name);
        assert(tool_name(2) != name);
        assert(tool_name(3) != name);
        assert(tool_name(4) != name);
        assert(tool_name(5) != name);
        assert(tool_name(6) != name);
        assert(tool_name(7) != name);
        assert(tool_name(8) != name);
    }
}

/// An edge is stored once: after `insert_edge` stored `e`, inserting it
/// again (or any edge with the same ends and kind) leaves the edges as
/// they are.
pub proof fn law_edge_insert_idempotent(s1: Store, e: Edge, again: Edge)
    requires
        s1.edges@.len() > 0,
        row_holds_edge(s1.edges@.last(), e),
        again.from_id@ == e.from_id@,
        again.to_id@ == e.to_id@,
        again.kind == e.kind,
    ensures
        edge_key_used(s1.edges@, again.from_id@, again.to_id@, edge_kind_name(again.kind)),
{
    assert(s1.edges@[s1.edges@.len() - 1] == s1.edges@.last());
}

/// One record per component, across calls: a second `update_component_todo`
/// for the same project and component answers the identifier of the record
/// that the first one wrote.
pub proof fn law_component_todo_same_record(
    s0: Store,
    s1: Store,
    s2: Store,
    project: Seq<char>,
    component: Seq<char>,
    content1: Seq<char>,
    content2: Seq<char>,
    now1: i64,
    now2: i64,
    fresh1: Seq<char>,
    fresh2: Seq<char>,
    id1: String,
    r2: Result<String, StoreError>,
)
    requires
        component_todo_upserted(s0, s1, project, component, content1, now1, fresh1, Ok(id1)),
        component_todo_upserted(s1, s2, project, component, content2, now2, fresh2, r2),
    ensures
        r2 matches Ok(id2) && id2@ == id1@,
{
    if has_component_row(s0.nodes@, project, component) {
        lemma_first_component(s0.nodes@, project, component);
        let f = first_component_row(s0.nodes@, project, component);
        assert(is_component_row(s1.nodes@[f], project, component));
        assert(has_component_row(s1.nodes@, project, component));
        lemma_first_component(s1.nodes@, project, component);
        let g = first_component_row(s1.nodes@, project, component);
        if g < f {
            assert(s1.nodes@[g] == s0.nodes@[g]);
        }
        assert(!(f < g));
    } else {
        let last = s1.nodes@.len() - 1;
        assert(is_component_row(s1.nodes@[last], project, component));
        assert(has_component_row(s1.nodes@, project, component));
        lemma_first_component(s1.nodes@, project, component);
        let g = first_component_row(s1.nodes@, project, component);
        if g < last {
            assert(s1.nodes@[g] == s0.nodes@[g]);
        }
    }
}

/// One context node per path, across calls: writing a context node at a
/// path where one was just written answers that node's identifier.
pub proof fn law_context_node_same_record(
    s0: Store,
    s1: Store,
    s2: Store,
    path: Seq<char>,
    node_type1: Seq<char>,
    node_type2: Seq<char>,
    content1: Seq<char>,
    content2: Seq<char>,
    level1: i64,
    level2: i64,
    project1: Seq<char>,
    project2: Seq<char>,
    component1: Option<Seq<char>>,
    component2: Option<Seq<char>>,
    now1: i64,
    now2: i64,
    fresh1: Seq<char>,
    fresh2: Seq<char>,
    id1: String,
    r2: Result<String, StoreError>,
)
    requires
        context_node_upserted(
            s0,
            s1,
            path,
            node_type1,
            content1,
            level1,
            project1,
            component1,
            now1,
            fresh1,
            Ok(id1),
        ),
        context_node_upserted(
            s1,
            s2,
            path,
            node_type2,
            content2,
            level2,
            project2,
            component2,
            now2,
            fresh2,
            r2,
        ),
    ensures
        r2 matches Ok(id2) && id2@ == id1@,
{
    if has_context_at(s0.nodes@, path) {
        lemma_first_context(s0.nodes@, path);
        let f = first_context_index(s0.nodes@, path);
        assert(is_context_at(s1.nodes@[f], path));
        assert(first_context_at(s1.nodes@, path, f)) by {
            assert forall|m: int| 0 <= m < f implies !is_context_at(#[trigger] s1.nodes@[m], path) by {
                assert(s1.nodes@[m] == s0.nodes@[m]);
            }
        }
        assert(has_context_at(s1.nodes@, path));
        lemma_first_context(s1.nodes@, path);
        lemma_first_context_unique(s1.nodes@, path, f, first_context_index(s1.nodes@, path));
    } else {
        let last = s1.nodes@.len() - 1;
        assert(is_context_at(s1.nodes@[last], path));
        assert(first_context_at(s1.nodes@, path, last)) by {
            assert forall|m: int| 0 <= m < last implies !is_context_at(#[trigger] s1.nodes@[m], path) by {
                assert(s1.nodes@[m] == s0.nodes@[m]);
            }
        }
        assert(has_context_at(s1.nodes@, path));
        lemma_first_context(s1.nodes@, path);
        lemma_first_context_unique(s1.nodes@, path, last, first_context_index(s1.nodes@, path));
    }
}

/// A namespace listing shows what was just written under it: once
/// `upsert_kv` has stored `value` at a path whose namespace is `ns`, the
/// listing of `ns` at any instant before the new expiry has a row with
/// that value and the path's key.
pub proof fn law_kv_listed_after_write(
    s0: Store,
    s1: Store,
    ns: Seq<char>,
    kv_path: Seq<char>,
    value: Json,
    ttl_seconds: Option<i64>,
    now: i64,
    fresh: Seq<char>,
    t: i64,
    rows: Seq<KvRow>,
    order: Seq<usize>,
)
    requires
        s0.wf(),
        kv_namespace(kv_path) == ns,
        kv_upserted(s0, s1, kv_path, value, ttl_seconds, now, fresh, Ok(())),
        expiry_for(now, ttl_seconds) matches Some(exp) && (exp matches Some(e) ==> t < e),
        namespace_listed(s1.kv@, ns, t, rows, order),
    ensures
        exists|j: int| 0 <= j < rows.len() && jv((#[trigger] rows[j]).value) == jv(value) && rows[j].key@ == kv_key(kv_path),
{
    let exp = expiry_for(now, ttl_seconds)->0;
    let w: int = if any_live(s0.kv@, kv_path) {
        choose|i: int| live_at(s0.kv@, kv_path, i)
    } else {
        s1.kv@.len() - 1
    };
    if any_live(s0.kv@, kv_path) {
        assert(live_at(s0.kv@, kv_path, w));
        assert(s1.kv@[w] == KvRecord { value: value, expires_at: exp, updated_at: now, ..s0.kv@[w] });
    } else {
        assert(s1.kv@[w] == s1.kv@.last());
    }
    assert(s1.kv@[w].path@ == kv_path);
    assert(in_namespace(s1.kv@, ns, t, w));
    assert(s1.kv.len() == s1.kv@.len());
    assert(w as usize as int == w);
    let sel = |i: int| in_namespace(s1.kv@, ns, t, i);
    assert(sel(w as usize as int));
    assert(order.contains(w as usize));
    let j = choose|j: int| 0 <= j < order.len() && order[j] == w as usize;
    assert(row_reads(rows[j], s1.kv@[order[j] as int]));
}

/// A written signal is found: after `write_signal` stored a signal without
/// time-to-live for `project` at `now`, a search of that project at any
/// later instant, after an instant before `now`, selects it, unless fifty
/// other signals fill the answer.
pub proof fn law_written_signal_is_searched(
    s0: Store,
    s1: Store,
    args: Json,
    now: i64,
    fresh: Seq<char>,
    text: Seq<char>,
    since: Option<i64>,
    t: i64,
    order: Seq<usize>,
)
    requires
        s0.wf(),
        signal_written(s0, s1, args, now, fresh, Ok(text)),
        ttl_hours_arg(args) == Some(None::<i64>),
        since matches Some(x) ==> x < now,
        time_ordered_selection(
            order,
            s1.nodes@.len() as int,
            |i: int| is_searchable_signal(s1.nodes@[i], arg_or(args, "project"@, ""@), since, t),
            node_created(s1.nodes@),
            true,
            Some(50usize),
        ),
        order.len() < 50,
    ensures
        exists|k: int| 0 <= k < order.len() && s1.nodes@[#[trigger] order[k] as int].id@ == fresh,
{
    let project = arg_or(args, "project"@, ""@);
    let w = s1.nodes@.len() - 1;
    assert(s1.nodes.len() == s1.nodes@.len());
    assert(w as usize as int == w);
    assert(is_searchable_signal(s1.nodes@[w], project, since, t));
    let sel = |i: int| is_searchable_signal(s1.nodes@[i], project, since, t);
    assert(sel(w as usize as int));
    assert(order.contains(w as usize));
    let k = choose|k: int| 0 <= k < order.len() && order[k] == w as usize;
    assert(s1.nodes@[order[k] as int].id@ == fresh);
}

/// The schema `s` describes an object argument: its `type` is `object`, its
/// `properties` is an object, and every name in its `required` list, where
/// it has one, is one of those properties.
pub open spec fn schema_consistent(s: JsonV) -> bool {
    &&& s matches JsonV::Object(fs)
    &&& 2 <= fs.len() <= 3
    &&& fs[0] == ("type"@, JsonV::Str("object"@))
    &&& fs[1].0 == "properties"@
    &&& fs[1].1 matches JsonV::Object(ps)
    &&& fs.len() == 3 ==> fs[2].0 == "required"@ && (fs[2].1 matches JsonV::Array(req) && names_among(req, ps))
}

/// Every name of `names` is the name of one of `props`.
pub open spec fn names_among(names: Seq<JsonV>, props: Seq<(Seq<char>, JsonV)>) -> bool {
    forall|k: int| 0 <= k < names.len() ==> is_prop_name(props, #[trigger] names[k])
}

/// `n` is the name of one of `props`, as a JSON string.
pub open spec fn is_prop_name(props: Seq<(Seq<char>, JsonV)>, n: JsonV) -> bool {
    exists|p: int| 0 <= p < props.len() && n == JsonV::Str(#[trigger] props[p].0)
}

/// The `i`-th entry of the tool listing: the tool's name and the schema of
/// its arguments are its first and third members.
pub open spec fn listed_tool(i: int, name: Seq<char>, schema: JsonV) -> bool {
    &&& tool_list_v() matches JsonV::Object(ms)
    &&& ms[0].1 matches JsonV::Array(ts)
    &&& ts[i] matches JsonV::Object(fs)
    &&& fs.len() == 3
    &&& fs[0] == ("name"@, JsonV::Str(name))
    &&& fs[2] == ("inputSchema"@, schema)
}

/// A tool entry whose argument schema lists its required names in the
/// order of its first properties has a consistent schema.
proof fn lemma_entry_consistent(t: JsonV)
    requires
        t matches JsonV::Object(fs) && fs.len() == 3 && (fs[2].1 matches JsonV::Object(sfs) && 2 <= sfs.len() <= 3
            && sfs[0] == ("type"@, JsonV::Str("object"@)) && sfs[1].0 == "properties"@ && (sfs[1].1 matches JsonV::Object(
            ps,
        ) && (sfs.len() == 3 ==> sfs[2].0 == "required"@ && (sfs[2].1 matches JsonV::Array(req) && req.len()
            <= ps.len() && forall|k: int| 0 <= k < req.len() ==> #[trigger] req[k] == JsonV::Str(ps[k].0))))),
    ensures
        t matches JsonV::Object(fs) && schema_consistent(fs[2].1),
{
    let fs = t->Object_0;
    let sfs = fs[2].1->Object_0;
    let ps = sfs[1].1->Object_0;
    if sfs.len() == 3 {
        let req = sfs[2].1->Array_0;
        assert forall|k: int| 0 <= k < req.len() implies is_prop_name(ps, #[trigger] req[k]) by {
            assert(req[k] == JsonV::Str(ps[k].0));
        }
        assert(names_among(req, ps));
    }
}

/// Every tool of the listing describes its arguments by a consistent object
/// schema: each argument it requires is among the properties it lists.
pub proof fn law_listed_schemas_consistent(i: int)
    requires
        0 <= i < 9,
    ensures
        exists|schema: JsonV| listed_tool(i, tool_name(i), schema) && schema_consistent(schema),
{
    let ts = seq![
        crate::mcp::tool_0_v(), crate::mcp::tool_1_v(), crate::mcp::tool_2_v(), crate::mcp::tool_3_v(),
        crate::mcp::tool_4_v(), crate::mcp::tool_5_v(), crate::mcp::tool_6_v(), crate::mcp::tool_7_v(),
        crate::mcp::tool_8_v(),
    ];
    assert(tool_list_v() == JsonV::Object(seq![("tools"@, JsonV::Array(ts))]));
    let t = ts[i];
    let fs = t->Object_0;
    let schema = fs[2].1;
    assert(listed_tool(i, tool_name(i), schema));
    if i == 0 {
        lemma_entry_consistent(crate::mcp::tool_0_v());
    } else if i == 1 {
        lemma_entry_consistent(crate::mcp::tool_1_v());
    } else if i == 2 {
        lemma_entry_consistent(crate::mcp::tool_2_v());
    } else if i == 3 {
        lemma_entry_consistent(crate::mcp::tool_3_v());
    } else if i == 4 {
        lemma_entry_consistent(crate::mcp::tool_4_v());
    } else if i == 5 {
        lemma_entry_consistent(crate::mcp::tool_5_v());
    } else if i == 6 {
        lemma_entry_consistent(crate::mcp::tool_6_v());
    } else if i == 7 {
        lemma_entry_consistent(crate::mcp::tool_7_v());
    } else {
        lemma_entry_consistent(crate::mcp::tool_8_v());
    }

    assert(schema_consistent(schema));
}

/// A posted audit entry is read back: after `post_audit` stored the entry
/// with JSON text `content` as the last row, the audit listing of all
/// agents selects that row, with that text, unless newer entries fill the
/// limit.
pub proof fn law_audit_listed_after_post(
    s0: Store,
    s1: Store,
    agent: Seq<char>,
    capability: Seq<char>,
    content: Seq<char>,
    fresh: Seq<char>,
    limit: Option<i64>,
    order: Seq<usize>,
)
    requires
        s0.wf(),
        s1.nodes@.drop_last() == s0.nodes@,
        s1.nodes@.len() == s0.nodes@.len() + 1,
        s1.nodes@.last().id@ == fresh,
        holds_new_node(s1.nodes@.last(), NodeKind::AuditEntry, "system"@, Some(audit_title(agent, capability)), content),
        time_ordered_selection(
            order,
            s1.nodes@.len() as int,
            |i: int| is_audit_row(s1.nodes@[i], None),
            node_created(s1.nodes@),
            true,
            audit_limit_for(limit),
        ),
        audit_limit_for(limit) matches Some(l) ==> order.len() < l,
    ensures
        exists|k: int|
            0 <= k < order.len() && s1.nodes@[#[trigger] order[k] as int].id@ == fresh && opt_is(
                s1.nodes@[order[k] as int].content,
                content,
            ),
{
    let w = s1.nodes@.len() - 1;
    assert(s1.nodes.len() == s1.nodes@.len());
    assert(w as usize as int == w);
    assert(is_audit_row(s1.nodes@[w], None));
    let sel = |i: int| is_audit_row(s1.nodes@[i], None);
    assert(sel(w as usize as int));
    assert(order.contains(w as usize));
    let k = choose|k: int| 0 <= k < order.len() && order[k] == w as usize;
    assert(s1.nodes@[order[k] as int].id@ == fresh);
}

/// Row `r` is one a signal search of `project` at `now`, after `since`
/// where that is given, may answer: a signal row of that project, not
/// stale, not expired at `now`, created after `since`.
pub open spec fn search_candidate(r: NodeRow, project: Seq<char>, since: Option<i64>, now: i64) -> bool {
    &&& r.kind@ == node_kind_name(NodeKind::Signal)
    &&& opt_is(r.project, project)
    &&& !r.stale
    &&& (r.expires_at matches Some(e) ==> e > now)
    &&& (since matches Some(x) ==> r.created_at > x)
}

/// A signal search answers, newest first, the lines of at most fifty
/// candidate rows of its project (see `search_candidate`), and leaves a
/// candidate out only when fifty rows at least as new are answered; where
/// there is no line it answers the notice for that project.
pub proof fn law_signal_search_keeps_to_project(
    nodes: Seq<NodeRow>,
    project: Seq<char>,
    since: Option<i64>,
    now: i64,
    text: Seq<char>,
)
    requires
        signals_found(nodes, project, since, now, text),
    ensures
        exists|order: Seq<usize>|
            {
                &&& forall|k: int|
                    0 <= k < order.len() ==> 0 <= #[trigger] order[k] < nodes.len() && search_candidate(
                        nodes[order[k] as int],
                        project,
                        since,
                        now,
                    )
                &&& order.len() <= 50
                &&& forall|k: int, l: int|
                    0 <= k < l < order.len() ==> nodes[#[trigger] order[k] as int].created_at >= nodes[#[trigger] order[l] as int].created_at
                &&& forall|c: usize|
                    c < nodes.len() && search_candidate(#[trigger] nodes[c as int], project, since, now) && !order.contains(c)
                        ==> order.len() == 50 && forall|k: int|
                        0 <= k < order.len() ==> nodes[#[trigger] order[k] as int].created_at >= nodes[c as int].created_at
                &&& text == if signal_lines(nodes, order).len() == 0 {
                    "No signals found for project '"@ + project + "'"@
                } else {
                    seq_join(signal_lines(nodes, order), "\n"@)
                }
                &&& (forall|k: int| 0 <= k < order.len() ==> (#[trigger] nodes[order[k] as int]).content is Some)
                    ==> signal_lines(nodes, order) == numbered_lines(nodes, order)
            },
{
    let order = choose|order: Seq<usize>|
        time_ordered_selection(
            order,
            nodes.len() as int,
            |i: int| is_searchable_signal(nodes[i], project, since, now),
            node_created(nodes),
            true,
            Some(50usize),
        ) && text == (if signal_lines(nodes, order).len() == 0 {
            "No signals found for project '"@ + project + "'"@
        } else {
            seq_join(signal_lines(nodes, order), "\n"@)
        });
    let sel = |i: int| is_searchable_signal(nodes[i], project, since, now);
    let t = node_created(nodes);
    if forall|k: int| 0 <= k < order.len() ==> (#[trigger] nodes[order[k] as int]).content is Some {
        lemma_numbered_lines(nodes, order);
    }
    assert forall|k: int| 0 <= k < order.len() implies 0 <= #[trigger] order[k] < nodes.len() && search_candidate(
        nodes[order[k] as int],
        project,
        since,
        now,
    ) by {
        assert(sel(order[k] as int));
    }
    assert forall|k: int, l: int|
        0 <= k < l < order.len() implies nodes[#[trigger] order[k] as int].created_at >= nodes[#[trigger] order[l] as int].created_at by {
        assert(crate::order::before(t, true, order[k] as int, order[l] as int));
        assert(t[order[k] as int] == nodes[order[k] as int].created_at);
        assert(t[order[l] as int] == nodes[order[l] as int].created_at);
    }
    assert forall|c: usize|
        c < nodes.len() && search_candidate(#[trigger] nodes[c as int], project, since, now) && !order.contains(c)
            implies order.len() == 50 && forall|k: int|
            0 <= k < order.len() ==> nodes[#[trigger] order[k] as int].created_at >= nodes[c as int].created_at by {
        assert(sel(c as int));
        assert forall|k: int| 0 <= k < order.len() implies nodes[#[trigger] order[k] as int].created_at
            >= nodes[c as int].created_at by {
            assert(crate::order::before(t, true, order[k] as int, c as int));
            assert(t[order[k] as int] == nodes[order[k] as int].created_at);
            assert(t[c as int] == nodes[c as int].created_at);
        }
    }
}

/// The search lines for rows that all have content: line `k` is the rank
/// `k + 1`, a dot, the row's identifier in brackets and its content.
pub open spec fn numbered_lines(nodes: Seq<NodeRow>, order: Seq<usize>) -> Seq<Seq<char>> {
    Seq::new(
        order.len(),
        |k: int|
            decimal((k + 1) as nat) + ". ["@ + nodes[order[k] as int].id@ + "] "@ + opt_text(
                nodes[order[k] as int].content,
            ),
    )
}

proof fn lemma_numbered_lines(nodes: Seq<NodeRow>, order: Seq<usize>)
    requires
        forall|k: int| 0 <= k < order.len() ==> (#[trigger] nodes[order[k] as int]).content is Some,
    ensures
        signal_lines(nodes, order) == numbered_lines(nodes, order),
    decreases order.len(),
{
    if order.len() > 0 {
        let o = order.drop_last();
        assert forall|k: int| 0 <= k < o.len() implies (#[trigger] nodes[o[k] as int]).content is Some by {
            assert(o[k] == order[k]);
        }
        lemma_numbered_lines(nodes, o);
        let last = nodes[order.last() as int];
        assert(nodes[order[order.len() - 1] as int].content is Some);
        assert(signal_lines(nodes, order) == numbered_lines(nodes, o).push(
            crate::tools::signal_line((o.len() + 1) as nat, last.id@, opt_text(last.content)),
        ));
        assert(signal_lines(nodes, order) =~= numbered_lines(nodes, order));
    }
}

/// A search of a project that has no signal row, stale or live, answers
/// the notice for that project, whatever other projects hold.
pub proof fn law_signal_search_of_empty_project(
    nodes: Seq<NodeRow>,
    project: Seq<char>,
    since: Option<i64>,
    now: i64,
    text: Seq<char>,
)
    requires
        signals_found(nodes, project, since, now, text),
        forall|i: int|
            0 <= i < nodes.len() ==> !((#[trigger] nodes[i]).kind@ == node_kind_name(NodeKind::Signal) && opt_is(
                nodes[i].project,
                project,
            )),
    ensures
        text == "No signals found for project '"@ + project + "'"@,
{
    let order = choose|order: Seq<usize>|
        time_ordered_selection(
            order,
            nodes.len() as int,
            |i: int| is_searchable_signal(nodes[i], project, since, now),
            node_created(nodes),
            true,
            Some(50usize),
        ) && text == (if signal_lines(nodes, order).len() == 0 {
            "No signals found for project '"@ + project + "'"@
        } else {
            seq_join(signal_lines(nodes, order), "\n"@)
        });
    if order.len() > 0 {
        assert(is_searchable_signal(nodes[order[0] as int], project, since, now));
        assert(!(nodes[order[0] as int].kind@ == node_kind_name(NodeKind::Signal) && opt_is(
            nodes[order[0] as int].project,
            project,
        )));
    }
    assert(order =~= Seq::<usize>::empty());
}

/// Row `r` is a live artifact of `project`.
pub open spec fn artifact_of(r: NodeRow, project: Seq<char>) -> bool {
    r.kind@ == node_kind_name(NodeKind::Artifact) && opt_is(r.project, project) && !r.stale
}

/// The artifact listing keeps to its project: it reads back, in storage
/// order, exactly the live artifact rows of `project`, each as an artifact
/// of that project with the row's title and content.
pub proof fn law_artifacts_keep_to_project(nodes: Seq<NodeRow>, project: Seq<char>, out: Seq<Artifact>)
    requires
        exists|order: Seq<usize>| artifacts_listed(nodes, project, out, order),
    ensures
        forall|j: int| 0 <= j < out.len() ==> (#[trigger] out[j]).project@ == project,
        exists|order: Seq<usize>|
            {
                &&& order.len() == out.len()
                &&& forall|j: int, m: int| 0 <= j < m < order.len() ==> #[trigger] order[j] < #[trigger] order[m]
                &&& forall|j: int|
                    0 <= j < order.len() ==> 0 <= #[trigger] order[j] < nodes.len() && artifact_of(
                        nodes[order[j] as int],
                        project,
                    ) && out[j].project@ == project && out[j].title@ == opt_text(nodes[order[j] as int].title)
                        && out[j].content@ == opt_text(nodes[order[j] as int].content)
                &&& forall|c: usize| c < nodes.len() && artifact_of(#[trigger] nodes[c as int], project) ==> order.contains(c)
            },
{
    let order = choose|order: Seq<usize>| artifacts_listed(nodes, project, out, order);
    let sel = |x: int| crate::routes::is_project_artifact(nodes[x], project);
    assert forall|j: int| 0 <= j < out.len() implies (#[trigger] out[j]).project@ == project by {
        assert(sel(order[j] as int));
        assert(artifact_read(out[j], nodes[order[j] as int]));
    }
    assert forall|j: int| 0 <= j < order.len() implies 0 <= #[trigger] order[j] < nodes.len() && artifact_of(
        nodes[order[j] as int],
        project,
    ) && out[j].project@ == project && out[j].title@ == opt_text(nodes[order[j] as int].title)
        && out[j].content@ == opt_text(nodes[order[j] as int].content) by {
        assert(sel(order[j] as int));
        assert(artifact_read(out[j], nodes[order[j] as int]));
    }
    assert forall|c: usize| c < nodes.len() && artifact_of(#[trigger] nodes[c as int], project) implies order.contains(c) by {
        assert(sel(c as int));
    }
}

/// Reading a project's context shows its context graph: where some live
/// context node of the project is readable at the reader's level, the
/// answer ends with a graph section that lists that node, and is never the
/// "no context" notice.
pub proof fn law_read_context_shows_graph(store: Store, args: Json, r: Result<Seq<char>, Seq<char>>, i: int)
    requires
        context_read(store.nodes@, args, r),
        arg_or(args, "project"@, ""@).len() > 0,
        0 <= i < store.nodes@.len(),
        store.nodes@[i].kind@ == node_kind_name(NodeKind::ContextNode),
        opt_is(store.nodes@[i].project, arg_or(args, "project"@, ""@)),
        !store.nodes@[i].stale,
        store.nodes@[i].read_level <= reader_level(args),
    ensures
        exists|pre: Seq<char>, ns: Seq<Node>|
            r == Ok::<Seq<char>, Seq<char>>(pre + graph_section(ns)) && exists|j: int|
                0 <= j < ns.len() && (#[trigger] ns[j]).id@ == store.nodes@[i].id@,
        r != Ok::<Seq<char>, Seq<char>>("No context found for project '"@ + arg_or(args, "project"@, ""@) + "'"@),
{
    let project = arg_or(args, "project"@, ""@);
    let level = reader_level(args);
    let (ctx, ns, order) = choose|ctx: Seq<char>, ns: Seq<Node>, order: Seq<usize>|
        project_context_is(store.nodes@, project, ctx) && contexts_listed(store.nodes@, project, level, ns, order) && r
            == Ok::<Seq<char>, Seq<char>>(context_text(ctx, ns, project));
    let sel = |x: int| crate::context::is_readable_context(store.nodes@[x], project, level);
    assert(store.nodes.len() == store.nodes@.len());
    assert(i as usize as int == i);
    assert(sel(i as usize as int));
    assert(order.contains(i as usize));
    let j = choose|j: int| 0 <= j < order.len() && order[j] == i as usize;
    assert(node_read_from(ns[j], store.nodes@[i], NodeKind::ContextNode));
    assert(ns.len() > 0);
    let pre = if ctx.len() == 0 {
        Seq::<char>::empty()
    } else {
        ctx + "\n\n"@
    };
    if ctx.len() == 0 {
        assert(pre + graph_section(ns) =~= graph_section(ns));
    } else {
        assert(ctx + "\n\n"@ + graph_section(ns) =~= pre + graph_section(ns));
    }
    assert(r == Ok::<Seq<char>, Seq<char>>(pre + graph_section(ns)));
    let notice = "No context found for project '"@ + project + "'"@;
    let t = pre + graph_section(ns);
    lemma_graph_section_ends(ns);
    assert(t.last() == graph_section(ns).last());
    reveal_strlit("'");
    assert(notice.last() == '\'');
}

/// A context graph section with at least one node ends with a line break.
proof fn lemma_graph_section_ends(ns: Seq<Node>)
    requires
        ns.len() > 0,
    ensures
        graph_section(ns).len() > 0,
        graph_section(ns).last() == '\n',
{
    let e = graph_entry(ns.last());
    reveal_strlit("\n");
    assert(e.len() > 0);
    assert(e.last() == '\n');
    assert(graph_section(ns) == graph_section(ns.drop_last()) + e);
}

/// Among members with distinct keys, the first member with key `k` is the
/// member with key `k`.
proof fn lemma_first_member(es: Seq<(String, Json)>, k: Seq<char>)
    requires
        keys_distinct(es),
        has_key(es, k),
    ensures
        0 <= first_key_index(es, k) < es.len(),
        es[first_key_index(es, k)].1 == value_at(es, k),
{
    let i = key_index(es, k);
    assert(0 <= i < es.len() && es[i].0@ == k);
    assert forall|m: int| 0 <= m < i implies (#[trigger] es[m]).0@ != k by {
        assert(es[m].0@ != es[i].0@);
    }
    let j = first_key_index(es, k);
    assert(0 <= j < es.len() && es[j].0@ == k);
    if j != i {
        if j < i {
            assert(es[j].0@ != es[i].0@);
        } else {
            assert(es[i].0@ != es[j].0@);
        }
    }
}

/// What a patch does to a value: a `null` patch leaves it; any other patch
/// wins: every member of an object patch reads back with the patch's value,
/// members of an object base that the patch does not name are kept, and a
/// patch that is not an object, or a base that is not one, is replaced by
/// the patch wholesale.
pub proof fn law_merge_patch_wins(base: Json, patch: Json, r: Json)
    requires
        is_merge(base, patch, r),
        top_level_wf(base),
        top_level_wf(patch),
    ensures
        patch is Null ==> r == base,
        forall|k: Seq<char>| #[trigger] lookup(patch, k) is Some ==> lookup(r, k) == lookup(patch, k),
        !(patch is Null) && !(patch is Object) ==> r == patch,
        !(patch is Null) && !(base is Object) ==> r == patch,
        base is Object && patch is Object ==> r is Object && forall|k: Seq<char>|
            lookup(patch, k) is None ==> #[trigger] lookup(r, k) == lookup(base, k),
        base is Object && patch is Object ==> forall|k: Seq<char>|
            #[trigger] lookup(r, k) is Some ==> lookup(base, k) is Some || lookup(patch, k) is Some,
{
    match (base, patch) {
        (Json::Object(b), Json::Object(o)) => {
            let es = r->Object_0;
            assert(is_shallow_merge(es@, b@, o@));
            assert forall|k: Seq<char>| #[trigger] lookup(patch, k) is Some implies lookup(r, k) == lookup(patch, k) by {
                assert(has_key(o@, k));
                assert(has_key(es@, k));
                lemma_first_member(o@, k);
                lemma_first_member(es@, k);
            }
            assert forall|k: Seq<char>| lookup(patch, k) is None implies #[trigger] lookup(r, k) == lookup(base, k) by {
                assert(!has_key(o@, k));
                if has_key(b@, k) {
                    assert(has_key(es@, k));
                    lemma_first_member(b@, k);
                    lemma_first_member(es@, k);
                } else {
                    assert(!has_key(es@, k));
                }
            }
        },
        _ => {},
    }
}

/// `kw` occurs in `t`: at some position of `t` each character of `kw` is
/// `_` or equals the title's character up to ASCII case.
pub open spec fn mentions(t: Seq<char>, kw: Seq<char>) -> bool {
    exists|s: int| 0 <= s && #[trigger] mentions_at(t, kw, s)
}

/// `kw` occurs in `t` from position `s` on, as `LIKE` compares characters.
pub open spec fn mentions_at(t: Seq<char>, kw: Seq<char>, s: int) -> bool {
    s + kw.len() <= t.len() && forall|m: int| 0 <= m < kw.len() ==> same_letter(#[trigger] kw[m], t[s + m])
}

/// Keyword character `k` stands for title character `c`: `_` stands for
/// any character, and a letter for itself in either ASCII case.
pub open spec fn same_letter(k: char, c: char) -> bool {
    k == '_' || k == c || (65 <= (k as int) <= 90 && (k as int) + 32 == c as int) || (65 <= (c as int) <= 90
        && (c as int) + 32 == k as int)
}

proof fn lemma_same_letter(k: char, c: char)
    ensures
        like_char(k, c) <==> same_letter(k, c),
{
}

/// No character of `kw` is the `%` wildcard.
pub open spec fn no_percent(kw: Seq<char>) -> bool {
    forall|m: int| 0 <= m < kw.len() ==> kw[m] != '%'
}

proof fn lemma_like_tail(kw: Seq<char>, t: Seq<char>, j: nat)
    requires
        j <= t.len(),
    ensures
        like_from(seq!['%'] + kw + seq!['%'], t, kw.len() + 1, j),
    decreases t.len() - j,
{
    let p = seq!['%'] + kw + seq!['%'];
    assert(p.len() == kw.len() + 2);
    assert(p[kw.len() + 1int] == '%');
    let e = (kw.len() + 1) as nat;
    if j < t.len() {
        lemma_like_tail(kw, t, j + 1);
        assert(like_from(p, t, e, j + 1));
        assert(like_from(p, t, e, j));
    } else {
        assert(like_from(p, t, e + 1, j));
        assert(like_from(p, t, e, j));
    }
}

proof fn lemma_like_middle(kw: Seq<char>, t: Seq<char>, i: nat, j: nat)
    requires
        no_percent(kw),
        1 <= i <= kw.len() + 1,
        j <= t.len(),
    ensures
        like_from(seq!['%'] + kw + seq!['%'], t, i, j) <==> (j + (kw.len() + 1 - i) <= t.len() && forall|m: int|
            i - 1 <= m < kw.len() ==> like_char(#[trigger] kw[m], t[j + m - (i - 1)])),
    decreases kw.len() + 1 - i,
{
    let p = seq!['%'] + kw + seq!['%'];
    assert(p.len() == kw.len() + 2);
    if i == kw.len() + 1 {
        lemma_like_tail(kw, t, j);
    } else {
        assert(p[i as int] == kw[i - 1int]);
        if j < t.len() {
            lemma_like_middle(kw, t, i + 1, j + 1);
            if like_from(p, t, i, j) {
                assert forall|m: int| i - 1 <= m < kw.len() implies like_char(#[trigger] kw[m], t[j + m - (i - 1)]) by {
                    if m > i - 1 {
                        assert(t[(j + 1) + m - i] == t[j + m - (i - 1)]);
                    }
                }
            } else if j + (kw.len() + 1 - i) <= t.len() && forall|m: int|
                i - 1 <= m < kw.len() ==> like_char(#[trigger] kw[m], t[j + m - (i - 1)]) {
                assert(like_char(kw[i - 1], t[j + (i - 1) - (i - 1)]));
                assert forall|m: int| i <= m < kw.len() implies like_char(#[trigger] kw[m], t[(j + 1) + m - i]) by {
                    assert(t[(j + 1) + m - i] == t[j + m - (i - 1)]);
                }
            }
        }
    }
}

proof fn lemma_like_lead(kw: Seq<char>, t: Seq<char>, j: nat)
    requires
        j <= t.len(),
    ensures
        like_from(seq!['%'] + kw + seq!['%'], t, 0, j) <==> exists|s: nat|
            j <= s <= t.len() && #[trigger] like_from(seq!['%'] + kw + seq!['%'], t, 1, s),
    decreases t.len() - j,
{
    let p = seq!['%'] + kw + seq!['%'];
    assert(p.len() == kw.len() + 2);
    assert(p[0] == '%');
    if like_from(p, t, 0, j) {
        if like_from(p, t, 1, j) {
            assert(j <= j <= t.len() && like_from(p, t, 1, j));
        } else {
            assert(j < t.len() && like_from(p, t, 0, j + 1));
            lemma_like_lead(kw, t, j + 1);
            let s = choose|s: nat| j + 1 <= s <= t.len() && #[trigger] like_from(p, t, 1, s);
            assert(j <= s <= t.len() && like_from(p, t, 1, s));
        }
    }
    if exists|s: nat| j <= s <= t.len() && #[trigger] like_from(p, t, 1, s) {
        let s = choose|s: nat| j <= s <= t.len() && #[trigger] like_from(p, t, 1, s);
        if s == j {
            assert(like_from(p, t, 0, j));
        } else {
            lemma_like_lead(kw, t, j + 1);
            assert(j + 1 <= s <= t.len() && like_from(p, t, 1, s));
            assert(like_from(p, t, 0, j + 1));
            assert(like_from(p, t, 0, j));
        }
    }
}

/// `title LIKE '%' || kw || '%'` holds exactly where `kw`, without a `%`,
/// occurs in the title.
pub proof fn lemma_like_contains(kw: Seq<char>, t: Seq<char>)
    requires
        no_percent(kw),
    ensures
        like(seq!['%'] + kw + seq!['%'], t) <==> mentions(t, kw),
{
    let p = seq!['%'] + kw + seq!['%'];
    lemma_like_lead(kw, t, 0);
    if like(p, t) {
        let s = choose|s: nat| 0 <= s <= t.len() && #[trigger] like_from(p, t, 1, s);
        lemma_like_middle(kw, t, 1, s);
        assert forall|m: int| 0 <= m < kw.len() implies same_letter(#[trigger] kw[m], t[s + m]) by {
            assert(t[s + m - (1 - 1)] == t[s + m]);
            lemma_same_letter(kw[m], t[s + m]);
        }
        assert(mentions_at(t, kw, s as int));
    }
    if mentions(t, kw) {
        let s = choose|s: int| 0 <= s && #[trigger] mentions_at(t, kw, s);
        lemma_like_middle(kw, t, 1, s as nat);
        assert forall|m: int| 1 - 1 <= m < kw.len() implies like_char(#[trigger] kw[m], t[s + m - (1 - 1)]) by {
            assert(t[s + m - (1 - 1)] == t[s + m]);
            assert(same_letter(kw[m], t[s + m]));
            lemma_same_letter(kw[m], t[s + m]);
        }
        assert(like_from(p, t, 1, s as nat));
    }
}

/// Assessment `a` is a rejection of a stored node whose title mentions
/// `kw`.
pub open spec fn rejection_mentioning(nodes: Seq<NodeRow>, a: AssessmentRow, kw: Seq<char>) -> bool {
    &&& a.status@ == "rejected"@
    &&& node_id_used(nodes, a.node_id@)
    &&& nodes[node_index(nodes, a.node_id@)].title matches Some(t) && mentions(t@, kw)
}

/// How many of the first `n` assessments are rejections of nodes whose
/// title mentions `kw`.
pub open spec fn rejections_mentioning(nodes: Seq<NodeRow>, a: Seq<AssessmentRow>, kw: Seq<char>, n: nat) -> nat
    decreases n,
{
    if n == 0 {
        0
    } else {
        rejections_mentioning(nodes, a, kw, (n - 1) as nat) + if rejection_mentioning(nodes, a[n - 1], kw) {
            1nat
        } else {
            0nat
        }
    }
}

/// The precedent count is the number of rejected contributions whose title
/// holds the whole keyword text (letters compared without regard to ASCII
/// case, `_` matching any character), for keywords without `%`.
pub proof fn law_precedent_count_mentions_keywords(store: Store, keywords: Seq<char>, r: u32)
    requires
        r == precedents_upto(
            store.nodes@,
            store.assessments@,
            keyword_pattern(keywords),
            store.assessments@.len() as nat,
        ) as u32,
        no_percent(keywords),
    ensures
        r == rejections_mentioning(store.nodes@, store.assessments@, keywords, store.assessments@.len() as nat) as u32,
{
    lemma_precedents_mention(store.nodes@, store.assessments@, keywords, store.assessments@.len() as nat);
}

proof fn lemma_precedents_mention(nodes: Seq<NodeRow>, a: Seq<AssessmentRow>, kw: Seq<char>, n: nat)
    requires
        no_percent(kw),
        n <= a.len(),
    ensures
        precedents_upto(nodes, a, keyword_pattern(kw), n) == rejections_mentioning(nodes, a, kw, n),
    decreases n,
{
    if n > 0 {
        lemma_precedents_mention(nodes, a, kw, (n - 1) as nat);
        let x = a[n - 1];
        if node_id_used(nodes, x.node_id@) {
            match nodes[node_index(nodes, x.node_id@)].title {
                Some(t) => {
                    lemma_like_contains(kw, t@);
                    assert(keyword_pattern(kw) == seq!['%'] + kw + seq!['%']);
                },
                None => {},
            }
        }
    }
}

/// Row `r` is a live context node of `project` that a reader at role level
/// `level` may read.
pub open spec fn readable_context_of(r: NodeRow, project: Seq<char>, level: i64) -> bool {
    &&& r.kind@ == node_kind_name(NodeKind::ContextNode)
    &&& opt_is(r.project, project)
    &&& !r.stale
    &&& r.read_level <= level
}

/// How `read_context` puts its answer together: the project context comes
/// first where there is one; the graph section of exactly the readable
/// context nodes of the project, in storage order, comes last where there
/// is any, after a blank line when both are given; the "no context" notice
/// is answered only when both are empty.
pub proof fn law_read_context_parts(nodes: Seq<NodeRow>, args: Json, project: Seq<char>, r: Result<Seq<char>, Seq<char>>)
    requires
        context_read(nodes, args, r),
        project == arg_or(args, "project"@, ""@),
        project.len() > 0,
    ensures
        r is Ok,
        exists|ctx: Seq<char>, ns: Seq<Node>, order: Seq<usize>|
            #![trigger project_context_is(nodes, project, ctx), ns.len(), order.len()]
            {
                let t = r->Ok_0;
                &&& project_context_is(nodes, project, ctx)
                &&& ns.len() == order.len()
                &&& forall|j: int, m: int| 0 <= j < m < order.len() ==> #[trigger] order[j] < #[trigger] order[m]
                &&& forall|j: int|
                    0 <= j < order.len() ==> 0 <= #[trigger] order[j] < nodes.len() && readable_context_of(
                        nodes[order[j] as int],
                        project,
                        reader_level(args),
                    ) && node_read_from(ns[j], nodes[order[j] as int], NodeKind::ContextNode)
                &&& forall|c: usize|
                    c < nodes.len() && readable_context_of(#[trigger] nodes[c as int], project, reader_level(args))
                        ==> order.contains(c)
                &&& ctx.len() > 0 ==> ctx.len() <= t.len() && t.subrange(0, ctx.len() as int) == ctx
                &&& ns.len() > 0 ==> graph_section(ns).len() <= t.len() && t.subrange(
                    t.len() - graph_section(ns).len(),
                    t.len() as int,
                ) == graph_section(ns)
                &&& ctx.len() > 0 && ns.len() > 0 ==> t == ctx + "\n\n"@ + graph_section(ns)
                &&& ctx.len() == 0 && ns.len() == 0 ==> t == "No context found for project '"@ + project + "'"@
            },
{
    let level = reader_level(args);
    let (ctx, ns, order) = choose|ctx: Seq<char>, ns: Seq<Node>, order: Seq<usize>|
        project_context_is(nodes, project, ctx) && contexts_listed(nodes, project, level, ns, order) && r
            == Ok::<Seq<char>, Seq<char>>(context_text(ctx, ns, project));
    let t = context_text(ctx, ns, project);
    let sel = |x: int| crate::context::is_readable_context(nodes[x], project, level);
    assert forall|j: int| 0 <= j < order.len() implies 0 <= #[trigger] order[j] < nodes.len() && readable_context_of(
        nodes[order[j] as int],
        project,
        level,
    ) && node_read_from(ns[j], nodes[order[j] as int], NodeKind::ContextNode) by {
        assert(sel(order[j] as int));
    }
    assert forall|c: usize|
        c < nodes.len() && readable_context_of(#[trigger] nodes[c as int], project, level) implies order.contains(c) by {
        assert(sel(c as int));
    }
    if ctx.len() > 0 {
        if ns.len() > 0 {
            assert((ctx + "\n\n"@ + graph_section(ns)).subrange(0, ctx.len() as int) =~= ctx);
        } else {
            assert(t.subrange(0, ctx.len() as int) =~= ctx);
        }
    }
    if ns.len() > 0 {
        let g = graph_section(ns);
        if ctx.len() > 0 {
            let u = ctx + "\n\n"@;
            assert((u + g).subrange((u + g).len() - g.len(), (u + g).len() as int) =~= g);
            assert(ctx + "\n\n"@ + g == u + g);
        } else {
            assert(g.subrange(g.len() - g.len(), g.len() as int) =~= g);
        }
    }
    assert(project_context_is(nodes, project, ctx) && r == Ok::<Seq<char>, Seq<char>>(t));
    assert(ns.len() == order.len());
}

} // verus!

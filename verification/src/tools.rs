//! The MCP tools: what each tool call reads from its JSON arguments, the
//! checks it makes, what it writes to the store and the text it answers.

use vstd::prelude::*;
use crate::kinds::{NodeKind, EdgeKind, node_kind_name, edge_kind_name, str_eq};
use crate::types::{Node, Edge};
use crate::json::{Json, JsonNumber, lookup, member, member_str};
use crate::store::{
    Store, NodeRow, EdgeRow, StoreError, node_id_used, edge_key_used, is_new_row, find_node, insert_node, mark_stale,
    insert_edge,
};
use crate::kv::{fits_i64, later};
use crate::text::{cat, join, views, seq_join, decimal, u64_to_decimal, sorted_distinct, strictly_ascending, lemma_contains_push};
use crate::query::{row_matches, select_newest, node_created, contents_of, present_contents, opt_text};
use crate::order::time_ordered_selection;
use crate::routes::{kind_query, text_or_empty, artifact_written, post_artifact_at};
use crate::context::{
    contexts_listed, list_context_nodes, context_node_found, get_context_node, context_node_upserted,
    upsert_context_node_at, opt_view,
};
use crate::clock::{rfc3339_micros, parse_rfc3339_micros};
use crate::types::Artifact;
use crate::store::{opt_is, component_todo_upserted, upsert_component_todo_at};

verus! {

/// The text of the string argument `key`, if the arguments hold one.
pub open spec fn arg_str(args: Json, key: Seq<char>) -> Option<Seq<char>> {
    match lookup(args, key) {
        Some(Json::Str(t)) => Some(t@),
        _ => None,
    }
}

/// The text of the string argument `key`, or `default`.
pub open spec fn arg_or(args: Json, key: Seq<char>, default: Seq<char>) -> Seq<char> {
    match arg_str(args, key) {
        Some(t) => t,
        None => default,
    }
}

/// The string argument `key`, or `default` where the arguments hold no
/// string under that key.
pub fn arg_text(args: &Json, key: &str, default: &str) -> (s: String)
    ensures
        s@ == arg_or(*args, key@, default@),
{
    match member_str(args, key) {
        Some(t) => t,
        None => String::from_str(default),
    }
}

/// The string argument `key`, if any.
pub fn arg_opt(args: &Json, key: &str) -> (s: Option<String>)
    ensures
        match s {
            Some(t) => arg_str(*args, key@) == Some(t@),
            None => arg_str(*args, key@) is None,
        },
{
    member_str(args, key)
}

/// A result with its texts read as sequences of characters.
pub open spec fn rv(r: Result<String, String>) -> Result<Seq<char>, Seq<char>> {
    match r {
        Ok(t) => Ok(t@),
        Err(e) => Err(e@),
    }
}

/// The message of a store error.
pub open spec fn store_error_text(e: StoreError) -> Seq<char> {
    match e {
        StoreError::NotFound => "no rows returned by a query that expected to return at least one row"@,
        StoreError::DuplicateId => "UNIQUE constraint failed: nodes.id"@,
        StoreError::MissingNode => "FOREIGN KEY constraint failed"@,
        StoreError::UnknownKind(m) => m@,
        StoreError::MissingContent => "missing content"@,
        StoreError::TtlOutOfRange => "expiry out of range"@,
    }
}

/// The message of a store error (see `store_error_text`).
pub fn error_text(e: &StoreError) -> (s: String)
    ensures
        s@ == store_error_text(*e),
{
    match e {
        StoreError::NotFound => String::from_str("no rows returned by a query that expected to return at least one row"),
        StoreError::DuplicateId => String::from_str("UNIQUE constraint failed: nodes.id"),
        StoreError::MissingNode => String::from_str("FOREIGN KEY constraint failed"),
        StoreError::UnknownKind(m) => m.clone(),
        StoreError::MissingContent => String::from_str("missing content"),
        StoreError::TtlOutOfRange => String::from_str("expiry out of range"),
    }
}

/// An error message: `prefix` followed by `text`.
pub fn message(prefix: &str, text: &str) -> (s: String)
    ensures
        s@ == prefix@ + text@,
{
    cat(prefix, text)
}

/// The `ttl_hours` argument of `write_signal`: `Some(None)` where it is
/// absent or null, `Some(Some(h))` for a positive integer `h`, `None` for
/// anything else.
pub open spec fn ttl_hours_arg(args: Json) -> Option<Option<i64>> {
    match lookup(args, "ttl_hours"@) {
        None => Some(None),
        Some(Json::Null) => Some(None),
        Some(Json::Number(JsonNumber::PosInt(n))) => if 0 < n && n <= i64::MAX {
            Some(Some(n as i64))
        } else {
            None
        },
        _ => None,
    }
}

/// See `ttl_hours_arg`.
pub fn ttl_hours(args: &Json) -> (r: Option<Option<i64>>)
    ensures
        r == ttl_hours_arg(*args),
{
    match member(args, "ttl_hours") {
        None => Some(None),
        Some(Json::Null) => Some(None),
        Some(Json::Number(JsonNumber::PosInt(n))) => {
            if *n > 0 && *n <= 9223372036854775807u64 {
                Some(Some(*n as i64))
            } else {
                None
            }
        },
        _ => None,
    }
}

/// Microseconds in an hour.
pub const MICROS_PER_HOUR: i64 = 3_600_000_000i64;

/// The expiry of a signal written at `now` with time-to-live `ttl` hours:
/// none without one; `None` where the instant does not fit.
pub open spec fn signal_expiry(now: i64, ttl: Option<i64>) -> Option<Option<i64>> {
    match ttl {
        None => Some(None),
        Some(h) => if fits_i64(h * MICROS_PER_HOUR) && fits_i64(now + h * MICROS_PER_HOUR) {
            Some(Some((now + h * MICROS_PER_HOUR) as i64))
        } else {
            None
        },
    }
}

/// The bit pattern of the weight `1.0` that server-made edges carry.
pub const UNIT_WEIGHT: u64 = 0x3FF0_0000_0000_0000u64;

/// Row `r` is the signal written under `id` at `now` for `project` with
/// `content`, expiring at `expiry`.
pub open spec fn signal_row(r: NodeRow, id: Seq<char>, project: Seq<char>, content: Seq<char>, expiry: Option<i64>, now: i64) -> bool {
    &&& r.expires_at == expiry
    &&& is_new_row(
        NodeRow { expires_at: None, ..r },
        id,
        node_kind_name(NodeKind::Signal),
        Some(project),
        None,
        None,
        None,
        content,
        0,
        now,
    )
}

/// Row `r` with its stale flag set where its identifier is `id`.
pub open spec fn stale_if(r: NodeRow, id: Seq<char>) -> NodeRow {
    if r.id@ == id {
        NodeRow { stale: true, ..r }
    } else {
        r
    }
}

/// The edges after adding the `supersedes` edge `from -> to` at `now`,
/// unless an edge with that key is already stored.
pub open spec fn supersedes_edge_added(e0: Seq<EdgeRow>, e1: Seq<EdgeRow>, from: Seq<char>, to: Seq<char>, now: i64) -> bool {
    if edge_key_used(e0, from, to, edge_kind_name(EdgeKind::SupersededBy)) {
        e1 == e0
    } else {
        &&& e1.len() == e0.len() + 1
        &&& e1.drop_last() == e0
        &&& e1.last().from_id@ == from
        &&& e1.last().to_id@ == to
        &&& e1.last().kind@ == edge_kind_name(EdgeKind::SupersededBy)
        &&& e1.last().weight == UNIT_WEIGHT
        &&& e1.last().created_at == now
    }
}

/// The `write_signal` tool at instant `now` with fresh identifier `fresh`.
/// `project` and `content` are required; `ttl_hours`, where given, must be
/// a positive integer whose expiry fits; `supersedes`, where given, must
/// name a stored node. The signal is stored with its expiry; a superseded
/// node is marked stale and the edge `supersedes` from the new signal to it
/// is added. The answer names the new signal's identifier.
pub open spec fn signal_written(
    s0: Store,
    s1: Store,
    args: Json,
    now: i64,
    fresh: Seq<char>,
    r: Result<Seq<char>, Seq<char>>,
) -> bool {
    let project = arg_or(args, "project"@, ""@);
    let content = arg_or(args, "content"@, ""@);
    let ttl = ttl_hours_arg(args);
    let sup = arg_str(args, "supersedes"@);
    if project.len() == 0 {
        r == Err::<Seq<char>, Seq<char>>("project is required"@) && s1 == s0
    } else if content.len() == 0 {
        r == Err::<Seq<char>, Seq<char>>("content is required"@) && s1 == s0
    } else if ttl is None {
        r == Err::<Seq<char>, Seq<char>>("ttl_hours must be a positive integer"@) && s1 == s0
    } else if signal_expiry(now, ttl.unwrap()) is None {
        r == Err::<Seq<char>, Seq<char>>("ttl_hours is too large"@) && s1 == s0
    } else if sup is Some && !node_id_used(s0.nodes@, sup.unwrap()) {
        r == Err::<Seq<char>, Seq<char>>("unknown signal: "@ + sup.unwrap()) && s1 == s0
    } else if s0.id_used(fresh) {
        r == Err::<Seq<char>, Seq<char>>("insert failed: "@ + store_error_text(StoreError::DuplicateId)) && s1 == s0
    } else {
        &&& r == Ok::<Seq<char>, Seq<char>>("Signal written (id: "@ + fresh + ")"@)
        &&& s1.nodes@.len() == s0.nodes@.len() + 1
        &&& signal_row(s1.nodes@.last(), fresh, project, content, signal_expiry(now, ttl.unwrap()).unwrap(), now)
        &&& s1.kv@ == s0.kv@
        &&& s1.assessments@ == s0.assessments@
        &&& match sup {
            None => s1.nodes@.drop_last() == s0.nodes@ && s1.edges@ == s0.edges@,
            Some(old) => {
                &&& forall|i: int| 0 <= i < s0.nodes@.len() ==> #[trigger] s1.nodes@[i] == stale_if(s0.nodes@[i], old)
                &&& supersedes_edge_added(s0.edges@, s1.edges@, fresh, old, now)
            },
        }
    }
}

/// The `write_signal` tool (see `signal_written`).
pub fn write_signal_at(store: &mut Store, args: &Json, now: i64, fresh_id: String) -> (r: Result<String, String>)
    requires
        old(store).wf(),
    ensures
        final(store).wf(),
        signal_written(*old(store), *final(store), *args, now, fresh_id@, rv(r)),
{
    let project = arg_text(args, "project", "");
    let content = arg_text(args, "content", "");
    if project.as_str().is_empty() {
        return Err(String::from_str("project is required"));
    }
    if content.as_str().is_empty() {
        return Err(String::from_str("content is required"));
    }
    let ttl = match ttl_hours(args) {
        Some(t) => t,
        None => {
            return Err(String::from_str("ttl_hours must be a positive integer"));
        },
    };
    let expiry: Option<i64> = match ttl {
        None => None,
        Some(h) => match later(now, h, MICROS_PER_HOUR) {
            Some(t) => Some(t),
            None => {
                return Err(String::from_str("ttl_hours is too large"));
            },
        },
    };
    let sup = arg_opt(args, "supersedes");
    let mut old_idx: usize = 0;
    match &sup {
        Some(old) => match find_node(store, old.as_str()) {
            Some(i) => {
                old_idx = i;
            },
            None => {
                return Err(message("unknown signal: ", old.as_str()));
            },
        },
        None => {},
    }
    let ghost s0 = *store;
    let node = Node::new_at(NodeKind::Signal, Some(project), Some(content), fresh_id, now);
    let id = node.id.clone();
    match insert_node(store, &node) {
        Ok(()) => {},
        Err(e) => {
            return Err(message("insert failed: ", error_text(&e).as_str()));
        },
    }
    let last = store.nodes.len() - 1;
    store.nodes[last].expires_at = expiry;
    assert(store.nodes@.drop_last() == s0.nodes@);
    match &sup {
        Some(old) => {
            let ghost s1 = *store;
            mark_stale(store, old.as_str());
            proof {
                assert(store.nodes@[last as int].id@ == id@);
                assert(node_id_used(store.nodes@, id@));
                assert(store.nodes@[old_idx as int].id@ == old@);
                assert(node_id_used(store.nodes@, old@));
                assert forall|i: int| 0 <= i < s0.nodes@.len() implies #[trigger] store.nodes@[i] == stale_if(
                    s0.nodes@[i],
                    old@,
                ) by {
                    assert(s1.nodes@[i] == s0.nodes@[i]);
                }
                assert forall|j: int| 0 <= j < s1.kv@.len() implies s1.kv@[j].id@ != old@ by {
                    assert(s1.nodes@[old_idx as int].id@ != s1.kv@[j].id@);
                }
                assert(store.kv@ =~= s1.kv@);
                assert(store.nodes@.last() == s1.nodes@.last());
            }
            let edge = Edge {
                from_id: id.clone(),
                to_id: old.clone(),
                kind: EdgeKind::SupersededBy,
                weight: UNIT_WEIGHT,
                created_at: now,
            };
            match insert_edge(store, &edge) {
                Ok(()) => {},
                Err(e) => {
                    return Err(message("insert failed: ", error_text(&e).as_str()));
                },
            }
        },
        None => {},
    }
    Ok(cat(cat("Signal written (id: ", id.as_str()).as_str(), ")"))
}

/// The role level of a role name: `architect` 1, `org` 2, `human` 3, any
/// other (`component`) 0.
pub open spec fn role_level(role: Seq<char>) -> i64 {
    if role == "architect"@ {
        1
    } else if role == "org"@ {
        2
    } else if role == "human"@ {
        3
    } else {
        0
    }
}

/// See `role_level`.
pub fn role_to_level(role: &str) -> (l: i64)
    ensures
        l == role_level(role@),
{
    if str_eq(role, "architect") {
        1
    } else if str_eq(role, "org") {
        2
    } else if str_eq(role, "human") {
        3
    } else {
        0
    }
}

/// Row `r` feeds the project context of `project`: a live signal,
/// artifact or project layer of that project.
pub open spec fn is_context_source(r: NodeRow, project: Seq<char>) -> bool {
    &&& (r.kind@ == node_kind_name(NodeKind::Signal) || r.kind@ == node_kind_name(NodeKind::Artifact) || r.kind@
        == node_kind_name(NodeKind::ProjectLayer))
    &&& opt_is(r.project, project)
    &&& !r.stale
}

/// `text` is the project context of `project`: the contents of its latest
/// hundred context sources, newest first, separated by blank lines.
pub open spec fn project_context_is(nodes: Seq<NodeRow>, project: Seq<char>, text: Seq<char>) -> bool {
    exists|order: Seq<usize>|
        time_ordered_selection(
            order,
            nodes.len() as int,
            |i: int| is_context_source(nodes[i], project),
            node_created(nodes),
            true,
            Some(100usize),
        ) && text == seq_join(contents_of(nodes, order), "\n\n"@)
}

/// The project context of `project` (see `project_context_is`).
pub fn fetch_project_context(store: &Store, project: &str) -> (r: String)
    ensures
        project_context_is(store.nodes@, project@, r@),
{
    let mut q = kind_query(vec![NodeKind::Signal, NodeKind::Artifact, NodeKind::ProjectLayer]);
    q.project = Some(String::from_str(project));
    q.live_only = true;
    proof {
        assert forall|i: int| row_matches(#[trigger] store.nodes@[i], q) == is_context_source(store.nodes@[i], project@) by {
            let k = store.nodes@[i].kind@;
            if k == node_kind_name(NodeKind::Signal) {
                assert(node_kind_name(q.kinds@[0]) == k);
            } else if k == node_kind_name(NodeKind::Artifact) {
                assert(node_kind_name(q.kinds@[1]) == k);
            } else if k == node_kind_name(NodeKind::ProjectLayer) {
                assert(node_kind_name(q.kinds@[2]) == k);
            }
        }
        assert((|i: int| row_matches(store.nodes@[i], q)) =~= (|i: int| is_context_source(store.nodes@[i], project@)));
    }
    let order = select_newest(store, &q, Some(100));
    let parts = present_contents(store, &order);
    let r = join(&parts, "\n\n");
    assert(project_context_is(store.nodes@, project@, r@));
    r
}

/// The entry of a context node in the context graph section.
pub open spec fn graph_entry(n: Node) -> Seq<char> {
    "\n### "@ + opt_text(n.address) + " ("@ + opt_text(n.title) + ")\n"@ + opt_text(n.content) + "\n"@
}

/// The context graph section: a heading and one entry per node.
pub open spec fn graph_section(ns: Seq<Node>) -> Seq<char>
    decreases ns.len(),
{
    if ns.len() == 0 {
        "## Context Graph\n"@
    } else {
        graph_section(ns.drop_last()) + graph_entry(ns.last())
    }
}

/// The answer of `read_context`: the project context and the context graph
/// section, each where it is not empty, separated by a blank line; a notice
/// where both are empty.
pub open spec fn context_text(ctx: Seq<char>, ns: Seq<Node>, project: Seq<char>) -> Seq<char> {
    if ctx.len() == 0 && ns.len() == 0 {
        "No context found for project '"@ + project + "'"@
    } else if ctx.len() == 0 {
        graph_section(ns)
    } else if ns.len() == 0 {
        ctx
    } else {
        ctx + "\n\n"@ + graph_section(ns)
    }
}

/// The context graph section of `ns` (see `graph_section`).
pub fn graph_section_text(ns: &Vec<Node>) -> (r: String)
    ensures
        r@ == graph_section(ns@),
{
    let mut section = String::from_str("## Context Graph\n");
    for k in 0..ns.len()
        invariant
            section@ == graph_section(ns@.take(k as int)),
    {
        assert(ns@.take(k + 1).drop_last() =~= ns@.take(k as int));
        let n = &ns[k];
        let path = text_or_empty(&n.address);
        let ty = text_or_empty(&n.title);
        let body = text_or_empty(&n.content);
        let e1 = cat("\n### ", path.as_str());
        let e2 = cat(e1.as_str(), " (");
        let e3 = cat(e2.as_str(), ty.as_str());
        let e4 = cat(e3.as_str(), ")\n");
        let e5 = cat(e4.as_str(), body.as_str());
        let entry = cat(e5.as_str(), "\n");
        section.append(entry.as_str());
    }
    assert(ns@.take(ns@.len() as int) =~= ns@);
    section
}

/// The role level of the `role` argument of `read_context`; 0 without one.
pub open spec fn reader_level(args: Json) -> i64 {
    match arg_str(args, "role"@) {
        Some(role) => role_level(role),
        None => 0,
    }
}

/// The `read_context` tool: `project` is required; the reader's role level
/// comes from `role` (0 without one).
pub open spec fn context_read(nodes: Seq<NodeRow>, args: Json, r: Result<Seq<char>, Seq<char>>) -> bool {
    let project = arg_or(args, "project"@, ""@);
    let level = reader_level(args);
    if project.len() == 0 {
        r == Err::<Seq<char>, Seq<char>>("project is required"@)
    } else {
        exists|ctx: Seq<char>, ns: Seq<Node>, order: Seq<usize>|
            #![trigger contexts_listed(nodes, project, level, ns, order), project_context_is(nodes, project, ctx)]
            project_context_is(nodes, project, ctx) && contexts_listed(nodes, project, level, ns, order) && r
                == Ok::<Seq<char>, Seq<char>>(context_text(ctx, ns, project))
    }
}

/// The `read_context` tool (see `context_read`).
pub fn read_context_tool(store: &Store, args: &Json) -> (r: Result<String, String>)
    ensures
        context_read(store.nodes@, *args, rv(r)),
{
    let project = arg_text(args, "project", "");
    if project.as_str().is_empty() {
        return Err(String::from_str("project is required"));
    }
    let level = match arg_opt(args, "role") {
        Some(role) => role_to_level(role.as_str()),
        None => 0,
    };
    let ctx = fetch_project_context(store, project.as_str());
    let ns = list_context_nodes(store, project.as_str(), level);
    let ghost ctx_view = ctx@;
    let ghost order = choose|order: Seq<usize>| contexts_listed(store.nodes@, project@, level, ns@, order);
    let text = if ctx.as_str().is_empty() && ns.len() == 0 {
        cat(cat("No context found for project '", project.as_str()).as_str(), "'")
    } else if ctx.as_str().is_empty() {
        graph_section_text(&ns)
    } else if ns.len() == 0 {
        ctx
    } else {
        let section = graph_section_text(&ns);
        cat(cat(ctx.as_str(), "\n\n").as_str(), section.as_str())
    };
    proof {
        assert(contexts_listed(store.nodes@, project@, level, ns@, order));
        assert(project_context_is(store.nodes@, project@, ctx_view));
        assert(level == reader_level(*args));
    }
    Ok(text)
}

/// The `write_artifact` tool at `now` with fresh identifier `fresh`:
/// `project`, `title` and `content` are required; the artifact is written
/// as `post_artifact_at` writes it.
pub open spec fn artifact_tool_done(
    s0: Store,
    s1: Store,
    args: Json,
    now: i64,
    fresh: Seq<char>,
    r: Result<Seq<char>, Seq<char>>,
) -> bool {
    let project = arg_or(args, "project"@, ""@);
    let title = arg_or(args, "title"@, ""@);
    let content = arg_or(args, "content"@, ""@);
    if project.len() == 0 {
        r == Err::<Seq<char>, Seq<char>>("project is required"@) && s1 == s0
    } else if title.len() == 0 {
        r == Err::<Seq<char>, Seq<char>>("title is required"@) && s1 == s0
    } else if content.len() == 0 {
        r == Err::<Seq<char>, Seq<char>>("content is required"@) && s1 == s0
    } else {
        exists|res: Result<String, StoreError>|
            #![trigger artifact_written(s0, s1, project, title, content, fresh, now, res)]
            artifact_written(s0, s1, project, title, content, fresh, now, res) && r == (match res {
                Ok(id) => Ok::<Seq<char>, Seq<char>>("Artifact written (id: "@ + id@ + ")"@),
                Err(e) => Err::<Seq<char>, Seq<char>>("insert failed: "@ + store_error_text(e)),
            })
    }
}

/// The `write_artifact` tool (see `artifact_tool_done`).
pub fn write_artifact_tool_at(store: &mut Store, args: &Json, now: i64, fresh_id: String) -> (r: Result<
    String,
    String,
>)
    requires
        old(store).wf(),
    ensures
        final(store).wf(),
        artifact_tool_done(*old(store), *final(store), *args, now, fresh_id@, rv(r)),
{
    let project = arg_text(args, "project", "");
    let title = arg_text(args, "title", "");
    let content = arg_text(args, "content", "");
    let kind = arg_text(args, "kind", "artifact");
    if project.as_str().is_empty() {
        return Err(String::from_str("project is required"));
    }
    if title.as_str().is_empty() {
        return Err(String::from_str("title is required"));
    }
    if content.as_str().is_empty() {
        return Err(String::from_str("content is required"));
    }
    let artifact = Artifact { project, title, content, session_id: None, kind };
    let res = post_artifact_at(store, &artifact, fresh_id, now);
    match res {
        Ok(id) => Ok(cat(cat("Artifact written (id: ", id.as_str()).as_str(), ")")),
        Err(e) => Err(message("insert failed: ", error_text(&e).as_str())),
    }
}

/// Row `r` is a live, unexpired signal of `project`, created after `since`
/// where that is given.
pub open spec fn is_searchable_signal(r: NodeRow, project: Seq<char>, since: Option<i64>, now: i64) -> bool {
    &&& r.kind@ == node_kind_name(NodeKind::Signal)
    &&& opt_is(r.project, project)
    &&& !r.stale
    &&& match r.expires_at {
        Some(e) => e > now,
        None => true,
    }
    &&& match since {
        Some(t) => r.created_at > t,
        None => true,
    }
}

/// A line of the signal search answer: the rank, the identifier in
/// brackets and the content.
pub open spec fn signal_line(k: nat, id: Seq<char>, content: Seq<char>) -> Seq<char> {
    decimal(k) + ". ["@ + id + "] "@ + content
}

/// The lines for the rows at positions `order`, ranked from 1, skipping
/// rows without content.
pub open spec fn signal_lines(nodes: Seq<NodeRow>, order: Seq<usize>) -> Seq<Seq<char>>
    decreases order.len(),
{
    if order.len() == 0 {
        Seq::empty()
    } else {
        let rest = signal_lines(nodes, order.drop_last());
        let r = nodes[order.last() as int];
        match r.content {
            Some(c) => rest.push(signal_line(rest.len() + 1, r.id@, c@)),
            None => rest,
        }
    }
}

/// `text` answers a signal search: the lines of the latest fifty
/// searchable signals, newest first, one per line; a notice where there
/// are none.
pub open spec fn signals_found(nodes: Seq<NodeRow>, project: Seq<char>, since: Option<i64>, now: i64, text: Seq<char>) -> bool {
    exists|order: Seq<usize>|
        time_ordered_selection(
            order,
            nodes.len() as int,
            |i: int| is_searchable_signal(nodes[i], project, since, now),
            node_created(nodes),
            true,
            Some(50usize),
        ) && text == (if signal_lines(nodes, order).len() == 0 {
            "No signals found for project '"@ + project + "'"@
        } else {
            seq_join(signal_lines(nodes, order), "\n"@)
        })
}

/// The answer of a signal search of `project` at instant `now`, after
/// instant `since` where that is given (see `signals_found`).
pub fn search_signals_text(store: &Store, project: &str, since: Option<i64>, now: i64) -> (r: String)
    ensures
        signals_found(store.nodes@, project@, since, now, r@),
{
    let mut q = kind_query(vec![NodeKind::Signal]);
    q.project = Some(String::from_str(project));
    q.live_only = true;
    q.unexpired_at = Some(now);
    q.created_after = since;
    proof {
        assert forall|i: int| row_matches(#[trigger] store.nodes@[i], q) == is_searchable_signal(
            store.nodes@[i],
            project@,
            since,
            now,
        ) by {
            if store.nodes@[i].kind@ == node_kind_name(NodeKind::Signal) {
                assert(node_kind_name(q.kinds@[0]) == store.nodes@[i].kind@);
            }
        }
        assert((|i: int| row_matches(store.nodes@[i], q)) =~= (|i: int|
            is_searchable_signal(store.nodes@[i], project@, since, now)));
    }
    let order = select_newest(store, &q, Some(50));
    let mut lines: Vec<String> = Vec::new();
    for j in 0..order.len()
        invariant
            forall|k: int| 0 <= k < order.len() ==> 0 <= #[trigger] order@[k] < store.nodes@.len(),
            lines@.len() <= j,
            views(lines@) == signal_lines(store.nodes@, order@.take(j as int)),
    {
        proof {
            assert(order@.take(j + 1).drop_last() =~= order@.take(j as int));
        }
        let row = &store.nodes[order[j]];
        let ghost before = lines@;
        match &row.content {
            Some(c) => {
                let n: u64 = (lines.len() + 1) as u64;
                let l1 = cat(u64_to_decimal(n).as_str(), ". [");
                let l2 = cat(l1.as_str(), row.id.as_str());
                let l3 = cat(l2.as_str(), "] ");
                let line = cat(l3.as_str(), c.as_str());
                lines.push(line);
                proof {
                    assert(views(lines@) =~= views(before).push(line@));
                }
            },
            None => {},
        }
    }
    proof {
        assert(order@.take(order@.len() as int) =~= order@);
    }
    let r = if lines.len() == 0 {
        cat(cat("No signals found for project '", project).as_str(), "'")
    } else {
        join(&lines, "\n")
    };
    assert(signals_found(store.nodes@, project@, since, now, r@));
    r
}

/// The instant after which `search_signals` looks: the `since` argument as
/// chrono reads an RFC 3339 text; none where it is absent or unreadable.
pub open spec fn since_arg(args: Json) -> Option<i64> {
    match arg_str(args, "since"@) {
        Some(t) => rfc3339_micros(t),
        None => None,
    }
}

/// The `search_signals` tool at instant `now`: `project` is required.
pub open spec fn signals_searched(nodes: Seq<NodeRow>, args: Json, now: i64, r: Result<Seq<char>, Seq<char>>) -> bool {
    let project = arg_or(args, "project"@, ""@);
    if project.len() == 0 {
        r == Err::<Seq<char>, Seq<char>>("project is required"@)
    } else {
        exists|t: Seq<char>|
            #![trigger signals_found(nodes, project, since_arg(args), now, t)]
            signals_found(nodes, project, since_arg(args), now, t) && r == Ok::<Seq<char>, Seq<char>>(t)
    }
}

/// The `search_signals` tool (see `signals_searched`).
pub fn search_signals_tool_at(store: &Store, args: &Json, now: i64) -> (r: Result<String, String>)
    ensures
        signals_searched(store.nodes@, *args, now, rv(r)),
{
    let project = arg_text(args, "project", "");
    if project.as_str().is_empty() {
        return Err(String::from_str("project is required"));
    }
    let since = match arg_opt(args, "since") {
        Some(t) => parse_rfc3339_micros(t.as_str()),
        None => None,
    };
    let t = search_signals_text(store, project.as_str(), since, now);
    assert(signals_found(store.nodes@, project@, since_arg(*args), now, t@));
    Ok(t)
}

/// Some row among the first `n` has project `p`.
pub open spec fn project_among(nodes: Seq<NodeRow>, p: Seq<char>, n: int) -> bool {
    exists|m: int| 0 <= m < n && opt_is((#[trigger] nodes[m]).project, p)
}

/// `text` lists the distinct projects of all rows, ascending, one per
/// line.
pub open spec fn projects_text(nodes: Seq<NodeRow>, text: Seq<char>) -> bool {
    exists|list: Seq<Seq<char>>|
        #![trigger seq_join(list, "\n"@)]
        {
            &&& strictly_ascending(list)
            &&& forall|p: Seq<char>| #[trigger] list.contains(p) <==> project_among(nodes, p, nodes.len() as int)
            &&& text == seq_join(list, "\n"@)
        }
}

/// The `list_projects` tool (see `projects_text`).
pub fn list_projects_text(store: &Store) -> (r: String)
    ensures
        projects_text(store.nodes@, r@),
{
    let mut all: Vec<String> = Vec::new();
    for i in 0..store.nodes.len()
        invariant
            forall|p: Seq<char>| #[trigger] views(all@).contains(p) <==> project_among(store.nodes@, p, i as int),
    {
        let ghost before = all@;
        match &store.nodes[i].project {
            Some(p) => {
                all.push(p.clone());
                proof {
                    assert(views(all@) =~= views(before).push(p@));
                    lemma_contains_push(views(before), p@);
                    assert(opt_is(store.nodes@[i as int].project, p@));
                    assert forall|x: Seq<char>| #[trigger] views(all@).contains(x) <==> project_among(
                        store.nodes@,
                        x,
                        i + 1,
                    ) by {
                        if project_among(store.nodes@, x, i + 1) {
                            let m = choose|m: int| 0 <= m < i + 1 && opt_is((#[trigger] store.nodes@[m]).project, x);
                            if m < i {
                                assert(project_among(store.nodes@, x, i as int));
                            }
                        }
                        if views(before).contains(x) {
                            let m = choose|m: int| 0 <= m < i && opt_is((#[trigger] store.nodes@[m]).project, x);
                            assert(project_among(store.nodes@, x, i + 1));
                        }
                    }
                }
            },
            None => {
                proof {
                    assert forall|x: Seq<char>| #[trigger] views(all@).contains(x) <==> project_among(
                        store.nodes@,
                        x,
                        i + 1,
                    ) by {
                        if project_among(store.nodes@, x, i + 1) {
                            let m = choose|m: int| 0 <= m < i + 1 && opt_is((#[trigger] store.nodes@[m]).project, x);
                            assert(m != i);
                            assert(project_among(store.nodes@, x, i as int));
                        }
                        if views(before).contains(x) {
                            let m = choose|m: int| 0 <= m < i && opt_is((#[trigger] store.nodes@[m]).project, x);
                            assert(project_among(store.nodes@, x, i + 1));
                        }
                    }
                }
            },
        }
    }
    let sorted = sorted_distinct(&all);
    let r = join(&sorted, "\n");
    assert(projects_text(store.nodes@, r@));
    r
}

/// The `update_component_todo` tool at `now` with fresh identifier
/// `fresh`: `project`, `component` and `content` are required; the record
/// is written as `upsert_component_todo_at` writes it.
pub open spec fn todo_updated(
    s0: Store,
    s1: Store,
    args: Json,
    now: i64,
    fresh: Seq<char>,
    r: Result<Seq<char>, Seq<char>>,
) -> bool {
    let project = arg_or(args, "project"@, ""@);
    let component = arg_or(args, "component"@, ""@);
    let content = arg_or(args, "content"@, ""@);
    if project.len() == 0 {
        r == Err::<Seq<char>, Seq<char>>("project is required"@) && s1 == s0
    } else if component.len() == 0 {
        r == Err::<Seq<char>, Seq<char>>("component is required"@) && s1 == s0
    } else if content.len() == 0 {
        r == Err::<Seq<char>, Seq<char>>("content is required"@) && s1 == s0
    } else {
        exists|res: Result<String, StoreError>|
            #![trigger component_todo_upserted(s0, s1, project, component, content, now, fresh, res)]
            component_todo_upserted(s0, s1, project, component, content, now, fresh, res) && r == (match res {
                Ok(id) => Ok::<Seq<char>, Seq<char>>("Component TODO updated (id: "@ + id@ + ")"@),
                Err(e) => Err::<Seq<char>, Seq<char>>("upsert failed: "@ + store_error_text(e)),
            })
    }
}

/// The `update_component_todo` tool (see `todo_updated`).
pub fn update_component_todo_tool_at(store: &mut Store, args: &Json, now: i64, fresh_id: String) -> (r: Result<
    String,
    String,
>)
    requires
        old(store).wf(),
    ensures
        final(store).wf(),
        todo_updated(*old(store), *final(store), *args, now, fresh_id@, rv(r)),
{
    let project = arg_text(args, "project", "");
    let component = arg_text(args, "component", "");
    let content = arg_text(args, "content", "");
    if project.as_str().is_empty() {
        return Err(String::from_str("project is required"));
    }
    if component.as_str().is_empty() {
        return Err(String::from_str("component is required"));
    }
    if content.as_str().is_empty() {
        return Err(String::from_str("content is required"));
    }
    let res = upsert_component_todo_at(store, project.as_str(), component.as_str(), content.as_str(), now, fresh_id);
    match res {
        Ok(id) => Ok(cat(cat("Component TODO updated (id: ", id.as_str()).as_str(), ")")),
        Err(e) => Err(message("upsert failed: ", error_text(&e).as_str())),
    }
}

/// The role level of the `read_role` argument of `write_context_node`;
/// `component` (0) without one.
pub open spec fn read_role_level(args: Json) -> i64 {
    role_level(arg_or(args, "read_role"@, "component"@))
}

/// The `write_context_node` tool at `now` with fresh identifier `fresh`:
/// `path`, `node_type`, `content` and `project` are required; the node is
/// written as `upsert_context_node_at` writes it, readable from the level
/// of `read_role`.
pub open spec fn context_written(
    s0: Store,
    s1: Store,
    args: Json,
    now: i64,
    fresh: Seq<char>,
    r: Result<Seq<char>, Seq<char>>,
) -> bool {
    let path = arg_or(args, "path"@, ""@);
    let node_type = arg_or(args, "node_type"@, ""@);
    let content = arg_or(args, "content"@, ""@);
    let project = arg_or(args, "project"@, ""@);
    if path.len() == 0 {
        r == Err::<Seq<char>, Seq<char>>("path is required"@) && s1 == s0
    } else if node_type.len() == 0 {
        r == Err::<Seq<char>, Seq<char>>("node_type is required"@) && s1 == s0
    } else if content.len() == 0 {
        r == Err::<Seq<char>, Seq<char>>("content is required"@) && s1 == s0
    } else if project.len() == 0 {
        r == Err::<Seq<char>, Seq<char>>("project is required"@) && s1 == s0
    } else {
        exists|res: Result<String, StoreError>|
            #![trigger context_node_upserted(s0, s1, path, node_type, content, read_role_level(args), project, arg_str(args, "component"@), now, fresh, res)]
            context_node_upserted(
                s0,
                s1,
                path,
                node_type,
                content,
                read_role_level(args),
                project,
                arg_str(args, "component"@),
                now,
                fresh,
                res,
            ) && r == (match res {
                Ok(id) => Ok::<Seq<char>, Seq<char>>("Context node written (id: "@ + id@ + ", path: "@ + path + ")"@),
                Err(e) => Err::<Seq<char>, Seq<char>>("upsert failed: "@ + store_error_text(e)),
            })
    }
}

/// The `write_context_node` tool (see `context_written`).
pub fn write_context_node_tool_at(store: &mut Store, args: &Json, now: i64, fresh_id: String) -> (r: Result<
    String,
    String,
>)
    requires
        old(store).wf(),
    ensures
        final(store).wf(),
        context_written(*old(store), *final(store), *args, now, fresh_id@, rv(r)),
{
    let path = arg_text(args, "path", "");
    let node_type = arg_text(args, "node_type", "");
    let content = arg_text(args, "content", "");
    let read_role = arg_text(args, "read_role", "component");
    let project = arg_text(args, "project", "");
    let component = arg_opt(args, "component");
    if path.as_str().is_empty() {
        return Err(String::from_str("path is required"));
    }
    if node_type.as_str().is_empty() {
        return Err(String::from_str("node_type is required"));
    }
    if content.as_str().is_empty() {
        return Err(String::from_str("content is required"));
    }
    if project.as_str().is_empty() {
        return Err(String::from_str("project is required"));
    }
    let level = role_to_level(read_role.as_str());
    assert(opt_view(component) == arg_str(*args, "component"@));
    let res = upsert_context_node_at(
        store,
        path.as_str(),
        node_type.as_str(),
        content.as_str(),
        level,
        project.as_str(),
        component,
        now,
        fresh_id,
    );
    assert(context_node_upserted(
        *old(store),
        *store,
        path@,
        node_type@,
        content@,
        read_role_level(*args),
        project@,
        arg_str(*args, "component"@),
        now,
        fresh_id@,
        res,
    ));
    match res {
        Ok(id) => {
            let a = cat("Context node written (id: ", id.as_str());
            let b = cat(a.as_str(), ", path: ");
            let c = cat(b.as_str(), path.as_str());
            Ok(cat(c.as_str(), ")"))
        },
        Err(e) => Err(message("upsert failed: ", error_text(&e).as_str())),
    }
}

/// The role level of the `role` argument of the context node readers;
/// `component` (0) without one.
pub open spec fn role_arg_level(args: Json) -> i64 {
    role_level(arg_or(args, "role"@, "component"@))
}

/// The answer of `read_context_node` at `path` for what the store gave.
pub open spec fn context_node_text(path: Seq<char>, n: Option<Node>) -> Seq<char> {
    match n {
        None => "Context node not found or not accessible at path '"@ + path + "'"@,
        Some(node) => "### "@ + path + " ("@ + opt_text(node.title) + ")\n"@ + opt_text(node.content),
    }
}

/// The `read_context_node` tool: `path` is required; the node is read at
/// the level of `role`.
pub open spec fn context_node_read(nodes: Seq<NodeRow>, args: Json, r: Result<Seq<char>, Seq<char>>) -> bool {
    let path = arg_or(args, "path"@, ""@);
    if path.len() == 0 {
        r == Err::<Seq<char>, Seq<char>>("path is required"@)
    } else {
        exists|n: Option<Node>|
            #![trigger context_node_found(nodes, path, role_arg_level(args), n)]
            context_node_found(nodes, path, role_arg_level(args), n) && r == Ok::<Seq<char>, Seq<char>>(
                context_node_text(path, n),
            )
    }
}

/// The `read_context_node` tool (see `context_node_read`).
pub fn read_context_node_tool(store: &Store, args: &Json) -> (r: Result<String, String>)
    ensures
        context_node_read(store.nodes@, *args, rv(r)),
{
    let path = arg_text(args, "path", "");
    let role = arg_text(args, "role", "component");
    if path.as_str().is_empty() {
        return Err(String::from_str("path is required"));
    }
    let level = role_to_level(role.as_str());
    let found = get_context_node(store, path.as_str(), level);
    let text = match &found {
        None => cat(cat("Context node not found or not accessible at path '", path.as_str()).as_str(), "'"),
        Some(node) => {
            let ty = text_or_empty(&node.title);
            let body = text_or_empty(&node.content);
            let a = cat("### ", path.as_str());
            let b = cat(a.as_str(), " (");
            let c = cat(b.as_str(), ty.as_str());
            let d = cat(c.as_str(), ")\n");
            cat(d.as_str(), body.as_str())
        },
    };
    assert(context_node_found(store.nodes@, path@, role_arg_level(*args), found));
    Ok(text)
}

/// The line of a context node in a listing: its path and type.
pub open spec fn context_line(n: Node) -> Seq<char> {
    opt_text(n.address) + " ("@ + opt_text(n.title) + ")"@
}

/// The answer of `list_context_nodes` for the nodes listed.
pub open spec fn context_list_text(ns: Seq<Node>, project: Seq<char>, role: Seq<char>) -> Seq<char> {
    if ns.len() == 0 {
        "No context nodes found for project '"@ + project + "' at role '"@ + role + "'"@
    } else {
        seq_join(ns.map_values(|n: Node| context_line(n)), "\n"@)
    }
}

/// The `list_context_nodes` tool: `project` is required; the nodes are
/// listed at the level of `role`.
pub open spec fn context_nodes_listed(nodes: Seq<NodeRow>, args: Json, r: Result<Seq<char>, Seq<char>>) -> bool {
    let project = arg_or(args, "project"@, ""@);
    if project.len() == 0 {
        r == Err::<Seq<char>, Seq<char>>("project is required"@)
    } else {
        exists|ns: Seq<Node>, order: Seq<usize>|
            #![trigger contexts_listed(nodes, project, role_arg_level(args), ns, order)]
            contexts_listed(nodes, project, role_arg_level(args), ns, order) && r == Ok::<Seq<char>, Seq<char>>(
                context_list_text(ns, project, arg_or(args, "role"@, "component"@)),
            )
    }
}

/// The `list_context_nodes` tool (see `context_nodes_listed`).
pub fn list_context_nodes_tool(store: &Store, args: &Json) -> (r: Result<String, String>)
    ensures
        context_nodes_listed(store.nodes@, *args, rv(r)),
{
    let project = arg_text(args, "project", "");
    let role = arg_text(args, "role", "component");
    if project.as_str().is_empty() {
        return Err(String::from_str("project is required"));
    }
    let level = role_to_level(role.as_str());
    let ns = list_context_nodes(store, project.as_str(), level);
    let ghost order = choose|order: Seq<usize>| contexts_listed(store.nodes@, project@, level, ns@, order);
    let text = if ns.len() == 0 {
        let a = cat("No context nodes found for project '", project.as_str());
        let b = cat(a.as_str(), "' at role '");
        let c = cat(b.as_str(), role.as_str());
        cat(c.as_str(), "'")
    } else {
        let mut lines: Vec<String> = Vec::new();
        for k in 0..ns.len()
            invariant
                lines@.len() == k,
                forall|m: int| 0 <= m < k ==> (#[trigger] lines@[m])@ == context_line(ns@[m]),
        {
            let path = text_or_empty(&ns[k].address);
            let ty = text_or_empty(&ns[k].title);
            let a = cat(path.as_str(), " (");
            let b = cat(a.as_str(), ty.as_str());
            lines.push(cat(b.as_str(), ")"));
        }
        assert(views(lines@) =~= ns@.map_values(|n: Node| context_line(n)));
        join(&lines, "\n")
    };
    assert(contexts_listed(store.nodes@, project@, role_arg_level(*args), ns@, order));
    Ok(text)
}

/// The outcome of calling tool `name` with `args` at `now`, with fresh
/// identifier `fresh` for a node the call may create. An unknown tool is
/// refused and changes nothing.
pub open spec fn tool_outcome(
    name: Seq<char>,
    s0: Store,
    s1: Store,
    args: Json,
    now: i64,
    fresh: Seq<char>,
    r: Result<Seq<char>, Seq<char>>,
) -> bool {
    if name == "write_signal"@ {
        signal_written(s0, s1, args, now, fresh, r)
    } else if name == "read_context"@ {
        s1 == s0 && context_read(s0.nodes@, args, r)
    } else if name == "write_artifact"@ {
        artifact_tool_done(s0, s1, args, now, fresh, r)
    } else if name == "search_signals"@ {
        s1 == s0 && signals_searched(s0.nodes@, args, now, r)
    } else if name == "list_projects"@ {
        s1 == s0 && exists|t: Seq<char>| #[trigger] projects_text(s0.nodes@, t) && r == Ok::<Seq<char>, Seq<char>>(t)
    } else if name == "update_component_todo"@ {
        todo_updated(s0, s1, args, now, fresh, r)
    } else if name == "write_context_node"@ {
        context_written(s0, s1, args, now, fresh, r)
    } else if name == "read_context_node"@ {
        s1 == s0 && context_node_read(s0.nodes@, args, r)
    } else if name == "list_context_nodes"@ {
        s1 == s0 && context_nodes_listed(s0.nodes@, args, r)
    } else {
        s1 == s0 && r == Err::<Seq<char>, Seq<char>>("unknown tool: "@ + name)
    }
}

/// Calls tool `name` with `args` at `now` (see `tool_outcome`).
pub fn call_tool_at(store: &mut Store, name: &str, args: &Json, now: i64, fresh_id: String) -> (r: Result<
    String,
    String,
>)
    requires
        old(store).wf(),
    ensures
        final(store).wf(),
        tool_outcome(name@, *old(store), *final(store), *args, now, fresh_id@, rv(r)),
{
    if str_eq(name, "write_signal") {
        write_signal_at(store, args, now, fresh_id)
    } else if str_eq(name, "read_context") {
        read_context_tool(store, args)
    } else if str_eq(name, "write_artifact") {
        write_artifact_tool_at(store, args, now, fresh_id)
    } else if str_eq(name, "search_signals") {
        search_signals_tool_at(store, args, now)
    } else if str_eq(name, "list_projects") {
        let t = list_projects_text(store);
        assert(projects_text(store.nodes@, t@));
        Ok(t)
    } else if str_eq(name, "update_component_todo") {
        update_component_todo_tool_at(store, args, now, fresh_id)
    } else if str_eq(name, "write_context_node") {
        write_context_node_tool_at(store, args, now, fresh_id)
    } else if str_eq(name, "read_context_node") {
        read_context_node_tool(store, args)
    } else if str_eq(name, "list_context_nodes") {
        list_context_nodes_tool(store, args)
    } else {
        Err(message("unknown tool: ", name))
    }
}

} // verus!

//! The operations behind the REST routes: writing and reading signals,
//! artifacts and audit entries, and the key/value lookup that falls back to
//! a namespace listing.

use vstd::prelude::*;
use crate::kinds::{NodeKind, node_kind_name};
use crate::types::{Node, Signal, Artifact, AuditEntry};
use crate::store::{Store, NodeRow, StoreError, opt_is, insert_node};
use crate::query::{NodeQuery, row_matches, select_stored, select_newest, stored_selection, node_created, opt_text, contents_of, present_contents};
use crate::order::time_ordered_selection;
use crate::sqlike::like;
use crate::text::{views, cat};
use crate::kv::{KvRow, kv_read, namespace_listed, get_kv_at, list_kv_namespace_at};

verus! {

/// The body of `POST /signals`: the signals of a project.
pub struct WriteSignalsReq {
    pub project: String,
    pub signals: Vec<Signal>,
}

/// The query of `GET /signals/recent`: the project, and a time window such
/// as `24h`.
pub struct RecentQuery {
    pub project: String,
    pub since: Option<String>,
}

/// The query of `GET /audit`.
pub struct AuditQuery {
    pub agent: Option<String>,
    pub limit: Option<i64>,
}

/// The query of `GET /governance/precedent`.
pub struct PrecedentQuery {
    pub keywords: String,
}

/// The body of `POST /governance/decisions`.
pub struct GovernanceDecisionRequest {
    pub node_id: String,
    pub outcome: String,
    pub rationale: String,
}

/// A query with the kinds `kinds` and no other condition.
pub fn kind_query(kinds: Vec<NodeKind>) -> (q: NodeQuery)
    ensures
        q.kinds@ == kinds@,
        q.project is None,
        !q.live_only,
        q.unexpired_at is None,
        q.created_after is None,
        q.content_like is None,
        q.max_read_level is None,
        q.address is None,
{
    NodeQuery {
        kinds,
        project: None,
        live_only: false,
        unexpired_at: None,
        created_after: None,
        content_like: None,
        max_read_level: None,
        address: None,
    }
}

/// The text of an optional column, empty where it is missing.
pub fn text_or_empty(o: &Option<String>) -> (s: String)
    ensures
        s@ == opt_text(*o),
{
    match o {
        Some(x) => x.clone(),
        None => String::new(),
    }
}

/// Row `r` is a node freshly written by the server: kind `kind`, the given
/// project, title and content, no address, component or expiry, live, at
/// read level 0, created and updated at the same instant.
pub open spec fn holds_new_node(
    r: NodeRow,
    kind: NodeKind,
    project: Seq<char>,
    title: Option<Seq<char>>,
    content: Seq<char>,
) -> bool {
    &&& r.kind@ == node_kind_name(kind)
    &&& opt_is(r.project, project)
    &&& opt_is(r.content, content)
    &&& match title {
        Some(t) => opt_is(r.title, t),
        None => r.title is None,
    }
    &&& r.address is None
    &&& r.component is None
    &&& !r.stale
    &&& r.expires_at is None
    &&& r.read_level == 0
    &&& r.created_at == r.updated_at
}

/// The rows after the first `n0` are the signals `signals`, in order, for
/// `project`, each under a version 4 UUID and created at a non-negative
/// instant: as many of them as were written.
pub open spec fn signals_appended(nodes: Seq<NodeRow>, n0: int, project: Seq<char>, signals: Seq<Signal>) -> bool {
    &&& n0 <= nodes.len() <= n0 + signals.len()
    &&& forall|j: int|
        0 <= j < nodes.len() - n0 ==> holds_new_node(
            #[trigger] nodes[n0 + j],
            NodeKind::Signal,
            project,
            None,
            signals[j].content@,
        ) && crate::clock::is_uuid_v4(nodes[n0 + j].id@) && nodes[n0 + j].created_at >= 0
}

/// Writes each signal of the request as a `Signal` node of its project, in
/// order, and stops at the first refused insert. The rows already written
/// stay.
pub fn post_signals(store: &mut Store, req: &WriteSignalsReq) -> (r: Result<(), StoreError>)
    requires
        old(store).wf(),
    ensures
        final(store).wf(),
        final(store).nodes@.subrange(0, old(store).nodes@.len() as int) == old(store).nodes@,
        signals_appended(final(store).nodes@, old(store).nodes@.len() as int, req.project@, req.signals@),
        match r {
            Ok(()) => final(store).nodes@.len() == old(store).nodes@.len() + req.signals@.len(),
            Err(e) => e is DuplicateId && final(store).nodes@.len() < old(store).nodes@.len() + req.signals@.len(),
        },
        final(store).edges@ == old(store).edges@,
        final(store).assessments@ == old(store).assessments@,
        final(store).kv@ == old(store).kv@,
{
    let ghost n0 = store.nodes@.len() as int;
    let ghost s0 = *store;
    let mut i: usize = 0;
    while i < req.signals.len()
        invariant
            i <= req.signals@.len(),
            store.wf(),
            store.nodes@.len() == n0 + i,
            s0 == *old(store),
            n0 == s0.nodes@.len(),
            store.nodes@.subrange(0, n0) == s0.nodes@,
            signals_appended(store.nodes@, n0, req.project@, req.signals@),
            store.edges@ == s0.edges@,
            store.assessments@ == s0.assessments@,
            store.kv@ == s0.kv@,
        decreases req.signals@.len() - i,
    {
        let node = Node::new(
            NodeKind::Signal,
            Some(req.project.clone()),
            Some(req.signals[i].content.clone()),
        );
        let ghost before = store.nodes@;
        match insert_node(store, &node) {
            Ok(()) => {},
            Err(e) => {
                return Err(e);
            },
        }
        proof {
            assert(store.nodes@.subrange(0, n0) =~= before.subrange(0, n0));
            assert forall|j: int| 0 <= j < store.nodes@.len() - n0 implies holds_new_node(
                #[trigger] store.nodes@[n0 + j],
                NodeKind::Signal,
                req.project@,
                None,
                req.signals@[j].content@,
            ) && crate::clock::is_uuid_v4(store.nodes@[n0 + j].id@) && store.nodes@[n0 + j].created_at >= 0 by {
                if j < i {
                    assert(store.nodes@[n0 + j] == before[n0 + j]);
                } else {
                    assert(store.nodes@[n0 + j] == store.nodes@.last());
                }
            }
        }
        i = i + 1;
    }
    Ok(())
}

/// Row `r` is a live signal of `project` created at or after `start`
/// where a start is given.
pub open spec fn is_project_signal(r: NodeRow, project: Seq<char>, start: Option<int>) -> bool {
    &&& r.kind@ == node_kind_name(NodeKind::Signal)
    &&& opt_is(r.project, project)
    &&& !r.stale
    &&& match start {
        Some(t) => r.created_at >= t,
        None => true,
    }
}

/// Signal `s` is what the recent-signals reader gives for row `r`.
pub open spec fn signal_read(s: Signal, r: NodeRow) -> bool {
    s.project@ == opt_text(r.project) && s.content@ == opt_text(r.content) && s.source@ == "farga"@
}

/// Character `c` is a decimal digit.
pub open spec fn is_digit_char(c: char) -> bool {
    48 <= (c as int) <= 57
}

/// The number that the decimal digits `s` write.
pub open spec fn digits_value(s: Seq<char>) -> nat
    decreases s.len(),
{
    if s.len() == 0 {
        0
    } else {
        digits_value(s.drop_last()) * 10 + ((s.last() as int) - 48) as nat
    }
}

/// The hours of a time window written as decimal digits followed by `h`
/// (such as `24h`); `None` for any other text.
pub open spec fn window_hours(since: Seq<char>) -> Option<nat> {
    if since.len() >= 2 && since.last() == 'h' && forall|i: int|
        0 <= i < since.len() - 1 ==> is_digit_char(#[trigger] since[i]) {
        Some(digits_value(since.drop_last()))
    } else {
        None
    }
}

/// Microseconds in an hour.
pub const HOUR_MICROS: u64 = 3_600_000_000u64;

/// The first instant of the window `since` ending at `now`: `now` less the
/// window's hours; none where no window is given or the text is not one.
pub open spec fn window_start(now: i64, since: Option<String>) -> Option<int> {
    match since {
        Some(t) => match window_hours(t@) {
            Some(h) => Some(now - h * HOUR_MICROS),
            None => None,
        },
        None => None,
    }
}

fn char_code(c: char) -> (r: u32)
    ensures
        r as int == c as int,
{
    c as u32
}

/// Reads a window such as `24h`: `None` where the text is not a window,
/// `Some(Some(h))` for `h` hours, `Some(None)` where the hours exceed
/// `u64`.
pub fn parse_window(since: &str) -> (r: Option<Option<u64>>)
    ensures
        match window_hours(since@) {
            None => r is None,
            Some(h) => if h <= u64::MAX {
                r == Some(Some(h as u64))
            } else {
                r == Some(None::<u64>)
            },
        },
{
    let v = crate::text::chars_of(since);
    let n = v.len();
    if n < 2 || v[n - 1] != 'h' {
        return None;
    }
    let ghost d = v@.drop_last();
    let mut acc: u64 = 0;
    let mut over = false;
    let mut i: usize = 0;
    while i < n - 1
        invariant
            n == v@.len(),
            n >= 2,
            v@ == since@,
            d == v@.drop_last(),
            i <= n - 1,
            forall|m: int| 0 <= m < i ==> is_digit_char(#[trigger] v@[m]),
            !over ==> acc == digits_value(d.take(i as int)),
            over ==> digits_value(d.take(i as int)) > u64::MAX,
        decreases n - 1 - i,
    {
        let c = v[i];
        let code = char_code(c);
        if code < 48 || code > 57 {
            assert(!is_digit_char(since@[i as int]));
            return None;
        }
        let digit = (code - 48) as u64;
        let ghost prev = digits_value(d.take(i as int));
        proof {
            assert(code as int == c as int);
            assert(is_digit_char(v@[i as int]));
            assert(d.take(i + 1).drop_last() =~= d.take(i as int));
            assert(d.take(i + 1).last() == c);
            assert(digits_value(d.take(i + 1)) == prev * 10 + digit);
        }
        if !over {
            match acc.checked_mul(10) {
                Some(m) => match m.checked_add(digit) {
                    Some(x) => {
                        acc = x;
                    },
                    None => {
                        over = true;
                    },
                },
                None => {
                    over = true;
                    assert(prev * 10 + digit > u64::MAX) by (nonlinear_arith)
                        requires
                            prev * 10 > u64::MAX,
                    ;
                },
            }
        } else {
            assert(prev * 10 + digit > u64::MAX) by (nonlinear_arith)
                requires
                    prev > u64::MAX,
            ;
        }
        i = i + 1;
    }
    assert(d.take((n - 1) as int) =~= d);
    assert(forall|m: int| 0 <= m < since@.len() - 1 ==> is_digit_char(#[trigger] since@[m]));
    if over {
        Some(None)
    } else {
        Some(Some(acc))
    }
}

/// Instant `t` is above the bound `b`, where one is given.
pub open spec fn above(b: Option<i64>, t: i64) -> bool {
    match b {
        Some(x) => t > x,
        None => true,
    }
}

/// Instant `t` is at or after the start `s`, where one is given.
pub open spec fn from_start(s: Option<int>, t: i64) -> bool {
    match s {
        Some(x) => t >= x,
        None => true,
    }
}

/// The lower bound on creation instants that the window `since` sets at
/// `now`, as the bound of a strict comparison: `Some(b)` selects the
/// instants above `b`, `None` selects all.
pub fn window_bound(now: i64, since: &Option<String>) -> (r: Option<i64>)
    ensures
        forall|t: i64| #[trigger] above(r, t) == from_start(window_start(now, *since), t),
{
    let h = match since {
        Some(t) => match parse_window(t.as_str()) {
            Some(h) => h,
            None => {
                return None;
            },
        },
        None => {
            return None;
        },
    };
    match h {
        None => None,
        Some(h) => match h.checked_mul(HOUR_MICROS) {
            None => None,
            Some(m) => {
                let start: i128 = now as i128 - m as i128;
                if start > i64::MIN as i128 {
                    Some((start - 1) as i64)
                } else {
                    None
                }
            },
        },
    }
}

/// `out` lists the latest hundred live signals of `project` created from
/// `start` on (where a start is given), newest first, from the rows at
/// positions `order`.
pub open spec fn signals_listed(
    nodes: Seq<NodeRow>,
    project: Seq<char>,
    start: Option<int>,
    out: Seq<Signal>,
    order: Seq<usize>,
) -> bool {
    &&& time_ordered_selection(
        order,
        nodes.len() as int,
        |i: int| is_project_signal(nodes[i], project, start),
        node_created(nodes),
        true,
        Some(100usize),
    )
    &&& out.len() == order.len()
    &&& forall|j: int| 0 <= j < order.len() ==> signal_read(#[trigger] out[j], nodes[order[j] as int])
}

/// The latest hundred live signals of the queried project within the
/// queried window (such as `24h`) ending at `now`, newest first, each with
/// source `farga`. Without a window, or with a text that is not one, all
/// live signals of the project are candidates.
pub fn get_recent_signals_at(store: &Store, q: &RecentQuery, now: i64) -> (r: Vec<Signal>)
    ensures
        exists|order: Seq<usize>| signals_listed(store.nodes@, q.project@, window_start(now, q.since), r@, order),
{
    let project = q.project.as_str();
    let ghost start = window_start(now, q.since);
    let mut sel = kind_query(vec![NodeKind::Signal]);
    sel.project = Some(String::from_str(project));
    sel.live_only = true;
    sel.created_after = window_bound(now, &q.since);
    proof {
        assert forall|i: int| row_matches(#[trigger] store.nodes@[i], sel) == is_project_signal(
            store.nodes@[i],
            project@,
            start,
        ) by {
            if store.nodes@[i].kind@ == node_kind_name(NodeKind::Signal) {
                assert(node_kind_name(sel.kinds@[0]) == store.nodes@[i].kind@);
            }
            assert(above(sel.created_after, store.nodes@[i].created_at) == from_start(start, store.nodes@[i].created_at));
        }
        assert((|i: int| row_matches(store.nodes@[i], sel)) =~= (|i: int|
            is_project_signal(store.nodes@[i], project@, start)));
    }
    let order = select_newest(store, &sel, Some(100));
    let mut out: Vec<Signal> = Vec::new();
    for j in 0..order.len()
        invariant
            forall|k: int| 0 <= k < order.len() ==> 0 <= #[trigger] order@[k] < store.nodes@.len(),
            out@.len() == j,
            forall|m: int| 0 <= m < j ==> signal_read(#[trigger] out@[m], store.nodes@[order@[m] as int]),
    {
        let row = &store.nodes[order[j]];
        out.push(
            Signal {
                project: text_or_empty(&row.project),
                content: text_or_empty(&row.content),
                source: String::from_str("farga"),
            },
        );
    }
    assert(signals_listed(store.nodes@, project@, start, out@, order@));
    out
}

/// The recent signals of the queried project now (see
/// `get_recent_signals_at`).
pub fn get_recent_signals(store: &Store, q: &RecentQuery) -> (r: Vec<Signal>)
    ensures
        exists|now: i64, order: Seq<usize>|
            now >= 0 && signals_listed(store.nodes@, q.project@, window_start(now, q.since), r@, order),
{
    let now = crate::clock::now_micros();
    let r = get_recent_signals_at(store, q, now);
    let ghost order = choose|order: Seq<usize>| signals_listed(store.nodes@, q.project@, window_start(now, q.since), r@, order);
    assert(signals_listed(store.nodes@, q.project@, window_start(now, q.since), r@, order));
    r
}

/// The effect of writing an artifact of `project` titled `title` with
/// `content` under `fresh` at `now`: a new `Artifact` node, or, where the
/// identifier is taken, nothing. The result is the new node's identifier.
pub open spec fn artifact_written(
    s0: Store,
    s1: Store,
    project: Seq<char>,
    title: Seq<char>,
    content: Seq<char>,
    fresh: Seq<char>,
    now: i64,
    r: Result<String, StoreError>,
) -> bool {
    &&& s1.edges@ == s0.edges@
    &&& s1.assessments@ == s0.assessments@
    &&& s1.kv@ == s0.kv@
    &&& match r {
        Ok(id) => {
            &&& id@ == fresh
            &&& !s0.id_used(fresh)
            &&& s1.nodes@.drop_last() == s0.nodes@
            &&& s1.nodes@.len() == s0.nodes@.len() + 1
            &&& s1.nodes@.last().id@ == fresh
            &&& s1.nodes@.last().created_at == now
            &&& holds_new_node(s1.nodes@.last(), NodeKind::Artifact, project, Some(title), content)
        },
        Err(e) => e is DuplicateId && s0.id_used(fresh) && s1 == s0,
    }
}

/// Writes an artifact as an `Artifact` node titled with its title, under
/// `fresh_id` at `now` (see `artifact_written`).
pub fn post_artifact_at(store: &mut Store, artifact: &Artifact, fresh_id: String, now: i64) -> (r: Result<
    String,
    StoreError,
>)
    requires
        old(store).wf(),
    ensures
        final(store).wf(),
        artifact_written(
            *old(store),
            *final(store),
            artifact.project@,
            artifact.title@,
            artifact.content@,
            fresh_id@,
            now,
            r,
        ),
{
    let mut node = Node::new_at(
        NodeKind::Artifact,
        Some(artifact.project.clone()),
        Some(artifact.content.clone()),
        fresh_id,
        now,
    );
    node.title = Some(artifact.title.clone());
    let id = node.id.clone();
    match insert_node(store, &node) {
        Ok(()) => Ok(id),
        Err(e) => Err(e),
    }
}

/// Writes an artifact with a fresh identifier, now (see `post_artifact_at`).
pub fn post_artifact(store: &mut Store, artifact: &Artifact) -> (r: Result<String, StoreError>)
    requires
        old(store).wf(),
    ensures
        final(store).wf(),
        match r {
            Ok(id) => {
                &&& final(store).nodes@.drop_last() == old(store).nodes@
                &&& final(store).nodes@.len() == old(store).nodes@.len() + 1
                &&& final(store).nodes@.last().id@ == id@
                &&& crate::clock::is_uuid_v4(id@)
                &&& final(store).nodes@.last().created_at >= 0
                &&& holds_new_node(
                    final(store).nodes@.last(),
                    NodeKind::Artifact,
                    artifact.project@,
                    Some(artifact.title@),
                    artifact.content@,
                )
            },
            Err(e) => e is DuplicateId && *final(store) == *old(store),
        },
        final(store).edges@ == old(store).edges@,
        final(store).assessments@ == old(store).assessments@,
        final(store).kv@ == old(store).kv@,
{
    let fresh = crate::clock::new_node_id();
    let now = crate::clock::now_micros();
    post_artifact_at(store, artifact, fresh, now)
}

/// Row `r` is a live artifact of `project`.
pub open spec fn is_project_artifact(r: NodeRow, project: Seq<char>) -> bool {
    r.kind@ == node_kind_name(NodeKind::Artifact) && opt_is(r.project, project) && !r.stale
}

/// Artifact `a` is what the artifact reader gives for row `r`.
pub open spec fn artifact_read(a: Artifact, r: NodeRow) -> bool {
    &&& a.project@ == opt_text(r.project)
    &&& a.title@ == opt_text(r.title)
    &&& a.content@ == opt_text(r.content)
    &&& a.session_id is None
    &&& a.kind@ == "artifact"@
}

/// `out` lists the live artifacts of `project` in storage order, from the
/// rows at positions `order`.
pub open spec fn artifacts_listed(nodes: Seq<NodeRow>, project: Seq<char>, out: Seq<Artifact>, order: Seq<usize>) -> bool {
    &&& stored_selection(order, nodes.len() as int, |i: int| is_project_artifact(nodes[i], project))
    &&& out.len() == order.len()
    &&& forall|j: int| 0 <= j < order.len() ==> artifact_read(#[trigger] out[j], nodes[order[j] as int])
}

/// The live artifacts of `project`, in storage order, each of kind
/// `artifact` and without session.
pub fn get_artifacts(store: &Store, project: &str) -> (r: Vec<Artifact>)
    ensures
        exists|order: Seq<usize>| artifacts_listed(store.nodes@, project@, r@, order),
{
    let mut sel = kind_query(vec![NodeKind::Artifact]);
    sel.project = Some(String::from_str(project));
    sel.live_only = true;
    proof {
        assert forall|i: int| row_matches(#[trigger] store.nodes@[i], sel) == is_project_artifact(store.nodes@[i], project@) by {
            if store.nodes@[i].kind@ == node_kind_name(NodeKind::Artifact) {
                assert(node_kind_name(sel.kinds@[0]) == store.nodes@[i].kind@);
            }
        }
        assert((|i: int| row_matches(store.nodes@[i], sel)) =~= (|i: int| is_project_artifact(store.nodes@[i], project@)));
    }
    let order = select_stored(store, &sel);
    let mut out: Vec<Artifact> = Vec::new();
    for j in 0..order.len()
        invariant
            forall|k: int| 0 <= k < order.len() ==> 0 <= #[trigger] order@[k] < store.nodes@.len(),
            out@.len() == j,
            forall|m: int| 0 <= m < j ==> artifact_read(#[trigger] out@[m], store.nodes@[order@[m] as int]),
    {
        let row = &store.nodes[order[j]];
        out.push(
            Artifact {
                project: text_or_empty(&row.project),
                title: text_or_empty(&row.title),
                content: text_or_empty(&row.content),
                session_id: None,
                kind: String::from_str("artifact"),
            },
        );
    }
    assert(artifacts_listed(store.nodes@, project@, out@, order@));
    out
}

/// The title of an audit node: the agent, a spaced em dash and the
/// capability.
pub open spec fn audit_title(agent: Seq<char>, capability: Seq<char>) -> Seq<char> {
    agent + " — "@ + capability
}

/// Records an audit entry as an `AuditEntry` node of project `system`,
/// titled by `audit_title`, whose content is `content`, the entry's JSON
/// text.
pub fn post_audit_at(store: &mut Store, entry: &AuditEntry, content: String, fresh_id: String, now: i64) -> (r:
    Result<(), StoreError>)
    requires
        old(store).wf(),
    ensures
        final(store).wf(),
        match r {
            Ok(()) => {
                &&& !old(store).id_used(fresh_id@)
                &&& final(store).nodes@.drop_last() == old(store).nodes@
                &&& final(store).nodes@.len() == old(store).nodes@.len() + 1
                &&& final(store).nodes@.last().id@ == fresh_id@
                &&& final(store).nodes@.last().created_at == now
                &&& holds_new_node(
                    final(store).nodes@.last(),
                    NodeKind::AuditEntry,
                    "system"@,
                    Some(audit_title(entry.agent@, entry.capability@)),
                    content@,
                )
            },
            Err(e) => e is DuplicateId && old(store).id_used(fresh_id@) && *final(store) == *old(store),
        },
        final(store).edges@ == old(store).edges@,
        final(store).assessments@ == old(store).assessments@,
        final(store).kv@ == old(store).kv@,
{
    let mut node = Node::new_at(NodeKind::AuditEntry, Some(String::from_str("system")), Some(content), fresh_id, now);
    let title = cat(cat(entry.agent.as_str(), " — ").as_str(), entry.capability.as_str());
    node.title = Some(title);
    insert_node(store, &node)
}

/// Records an audit entry with a fresh identifier, now (see
/// `post_audit_at`).
pub fn post_audit(store: &mut Store, entry: &AuditEntry, content: String) -> (r: Result<(), StoreError>)
    requires
        old(store).wf(),
    ensures
        final(store).wf(),
        match r {
            Ok(()) => {
                &&& final(store).nodes@.drop_last() == old(store).nodes@
                &&& final(store).nodes@.len() == old(store).nodes@.len() + 1
                &&& crate::clock::is_uuid_v4(final(store).nodes@.last().id@)
                &&& final(store).nodes@.last().created_at >= 0
                &&& holds_new_node(
                    final(store).nodes@.last(),
                    NodeKind::AuditEntry,
                    "system"@,
                    Some(audit_title(entry.agent@, entry.capability@)),
                    content@,
                )
            },
            Err(e) => e is DuplicateId && *final(store) == *old(store),
        },
        final(store).edges@ == old(store).edges@,
        final(store).assessments@ == old(store).assessments@,
        final(store).kv@ == old(store).kv@,
{
    let fresh = crate::clock::new_node_id();
    let now = crate::clock::now_micros();
    post_audit_at(store, entry, content, fresh, now)
}

/// The number of audit rows a query returns at most: the limit asked for
/// (100 by default) capped at 500; a negative limit means no limit.
pub open spec fn audit_limit_for(limit: Option<i64>) -> Option<usize> {
    let l: int = match limit {
        Some(x) => if x < 500 { x as int } else { 500 },
        None => 100,
    };
    if l < 0 { None } else { Some(l as usize) }
}

/// See `audit_limit_for`.
pub fn audit_limit(limit: Option<i64>) -> (r: Option<usize>)
    ensures
        r == audit_limit_for(limit),
{
    let l: i64 = match limit {
        Some(x) => if x < 500 { x } else { 500 },
        None => 100,
    };
    if l < 0 {
        None
    } else {
        Some(l as usize)
    }
}

/// The `LIKE` pattern that finds the entries of `agent` in the JSON text
/// of audit entries.
pub open spec fn agent_pattern(agent: Seq<char>) -> Seq<char> {
    "%\"agent\":\""@ + agent + "\"%"@
}

/// Row `r` is a live audit entry, of `agent` where one is given.
pub open spec fn is_audit_row(r: NodeRow, agent: Option<String>) -> bool {
    &&& r.kind@ == node_kind_name(NodeKind::AuditEntry)
    &&& !r.stale
    &&& match agent {
        Some(a) => match r.content {
            Some(c) => like(agent_pattern(a@), c@),
            None => false,
        },
        None => true,
    }
}

/// The JSON texts of the latest live audit entries, newest first, of the
/// queried agent where one is given, at most `audit_limit_for` of the
/// queried limit; rows without content give nothing.
pub fn get_audit(store: &Store, q: &AuditQuery) -> (r: Vec<String>)
    ensures
        exists|order: Seq<usize>|
            time_ordered_selection(
                order,
                store.nodes@.len() as int,
                |i: int| is_audit_row(store.nodes@[i], q.agent),
                node_created(store.nodes@),
                true,
                audit_limit_for(q.limit),
            ) && views(r@) == contents_of(store.nodes@, order),
{
    let agent = &q.agent;
    let limit = q.limit;
    let mut sel = kind_query(vec![NodeKind::AuditEntry]);
    sel.live_only = true;
    match agent {
        Some(a) => {
            let p = cat(cat("%\"agent\":\"", a.as_str()).as_str(), "\"%");
            sel.content_like = Some(p);
        },
        None => {},
    }
    proof {
        assert forall|i: int| row_matches(#[trigger] store.nodes@[i], sel) == is_audit_row(store.nodes@[i], q.agent) by {
            if store.nodes@[i].kind@ == node_kind_name(NodeKind::AuditEntry) {
                assert(node_kind_name(sel.kinds@[0]) == store.nodes@[i].kind@);
            }
        }
        assert((|i: int| row_matches(store.nodes@[i], sel)) =~= (|i: int| is_audit_row(store.nodes@[i], q.agent)));
    }
    let lim = audit_limit(limit);
    let order = select_newest(store, &sel, lim);
    present_contents(store, &order)
}

/// What a key/value `GET` finds: the entry at the path, else the entries
/// under the path taken as a namespace, else nothing.
pub enum KvLookup {
    Entry(KvRow),
    Entries(Vec<KvRow>),
    Missing,
}

/// `r` is what looking `kv_path` up at instant `now` finds: the entry
/// there where one is visible; otherwise the namespace listing of
/// `kv_path` where it is not empty; otherwise `Missing`.
pub open spec fn kv_found(kv: Seq<crate::store::KvRecord>, kv_path: Seq<char>, now: i64, r: KvLookup) -> bool {
    match r {
        KvLookup::Entry(row) => kv_read(kv, kv_path, now, Some(row)),
        KvLookup::Entries(rows) => {
            &&& kv_read(kv, kv_path, now, None)
            &&& rows@.len() > 0
            &&& exists|order: Seq<usize>| namespace_listed(kv, kv_path, now, rows@, order)
        },
        KvLookup::Missing => {
            &&& kv_read(kv, kv_path, now, None)
            &&& exists|order: Seq<usize>| namespace_listed(kv, kv_path, now, Seq::empty(), order)
        },
    }
}

/// Looks `kv_path` up at instant `now` (see `kv_found`).
pub fn get_kv_or_list_at(store: &Store, kv_path: &str, now: i64) -> (r: KvLookup)
    ensures
        kv_found(store.kv@, kv_path@, now, r),
{
    match get_kv_at(store, kv_path, now) {
        Some(row) => KvLookup::Entry(row),
        None => {
            let rows = list_kv_namespace_at(store, kv_path, now);
            if rows.len() > 0 {
                KvLookup::Entries(rows)
            } else {
                assert(rows@ =~= Seq::<KvRow>::empty());
                KvLookup::Missing
            }
        },
    }
}

/// Looks `kv_path` up now (see `kv_found`).
pub fn get_kv_or_list(store: &Store, kv_path: &str) -> (r: KvLookup)
    ensures
        exists|now: i64| now >= 0 && kv_found(store.kv@, kv_path@, now, r),
{
    let now = crate::clock::now_micros();
    let r = get_kv_or_list_at(store, kv_path, now);
    assert(kv_found(store.kv@, kv_path@, now, r));
    r
}

} // verus!

//! Governance contributions and their assessments: recording a
//! contribution, deciding on it, counting precedent rejections, and the
//! librarian's pass over pending assessments.

use vstd::prelude::*;
use crate::kinds::{NodeKind, str_eq};
use crate::types::{Node, GovernanceContribution, copy_opt};
use crate::store::{Store, StoreError, AssessmentRow, NodeRow, insert_node, node_id_used, node_index, find_node, assessment_id_used, opt_is};
use crate::sqlike::{like, like_match};
use crate::text::cat;

verus! {

/// The verdict of the librarian on a contribution, as the texts it stores.
#[derive(Debug)]
pub struct LibrarianVerdict {
    pub reversibility: String,
    pub impact: String,
    pub routing: String,
    pub notes: String,
}

/// A copy of an assessment row.
pub fn copy_assessment(a: &AssessmentRow) -> (r: AssessmentRow)
    ensures
        r == *a,
{
    AssessmentRow {
        id: a.id.clone(),
        node_id: a.node_id.clone(),
        status: a.status.clone(),
        reversibility: copy_opt(&a.reversibility),
        impact: copy_opt(&a.impact),
        routing: copy_opt(&a.routing),
        notes: copy_opt(&a.notes),
        created_at: a.created_at,
        updated_at: a.updated_at,
    }
}

/// The effect of recording `contribution` at `now` with node identifier
/// `node_id` and assessment identifier `assess_id`: a
/// `GovernanceContribution` node of project `system`, titled after the
/// contribution and holding `content`, then a `pending` assessment of it.
pub open spec fn contribution_recorded(
    s0: Store,
    s1: Store,
    contribution: GovernanceContribution,
    content: Seq<char>,
    node_id: Seq<char>,
    assess_id: Seq<char>,
    now: i64,
    r: Result<String, StoreError>,
) -> bool {
    &&& s1.edges@ == s0.edges@
    &&& s1.kv@ == s0.kv@
    &&& if s0.id_used(node_id) {
        r matches Err(e) && e is DuplicateId && s1.nodes@ == s0.nodes@ && s1.assessments@ == s0.assessments@
    } else {
        &&& s1.nodes@.len() == s0.nodes@.len() + 1
        &&& s1.nodes@.drop_last() == s0.nodes@
        &&& crate::store::is_new_row(
            s1.nodes@.last(),
            node_id,
            "GovernanceContribution"@,
            Some("system"@),
            None,
            None,
            Some(contribution.title@),
            content,
            0,
            now,
        )
        &&& if assessment_id_used(s0.assessments@, assess_id) {
            r matches Err(e) && e is DuplicateId && s1.assessments@ == s0.assessments@
        } else {
            &&& r matches Ok(id) && id@ == node_id
            &&& s1.assessments@.len() == s0.assessments@.len() + 1
            &&& s1.assessments@.drop_last() == s0.assessments@
            &&& is_pending_row(s1.assessments@.last(), assess_id, node_id, now)
        }
    }
}

/// Row `a` is a fresh `pending` assessment of `node_id` made at `now`.
pub open spec fn is_pending_row(a: AssessmentRow, id: Seq<char>, node_id: Seq<char>, now: i64) -> bool {
    &&& a.id@ == id
    &&& a.node_id@ == node_id
    &&& a.status@ == "pending"@
    &&& a.reversibility is None
    &&& a.impact is None
    &&& a.routing is None
    &&& a.notes is None
    &&& a.created_at == now
    &&& a.updated_at == now
}

/// The position of the assessment with identifier `id`, if any.
pub fn find_assessment_id(store: &Store, id: &str) -> (r: bool)
    ensures
        r == assessment_id_used(store.assessments@, id@),
{
    let mut i: usize = 0;
    while i < store.assessments.len()
        invariant
            i <= store.assessments@.len(),
            forall|m: int| 0 <= m < i ==> (#[trigger] store.assessments@[m]).id@ != id@,
        decreases store.assessments@.len() - i,
    {
        if str_eq(store.assessments[i].id.as_str(), id) {
            return true;
        }
        i = i + 1;
    }
    false
}

/// Records a governance contribution at `now` (see
/// `contribution_recorded`); `content` is the contribution's JSON text.
pub fn insert_governance_contribution_at(
    store: &mut Store,
    contribution: &GovernanceContribution,
    content: String,
    node_id: String,
    assess_id: String,
    now: i64,
) -> (r: Result<String, StoreError>)
    requires
        old(store).wf(),
    ensures
        final(store).wf(),
        contribution_recorded(*old(store), *final(store), *contribution, content@, node_id@, assess_id@, now, r),
{
    let ghost c = content@;
    let mut node = Node::new_at(
        NodeKind::GovernanceContribution,
        Some(String::from_str("system")),
        Some(content),
        node_id,
        now,
    );
    node.title = Some(contribution.title.clone());
    let id = node.id.clone();
    match insert_node(store, &node) {
        Ok(()) => {},
        Err(e) => {
            return Err(e);
        },
    }
    if find_assessment_id(store, assess_id.as_str()) {
        return Err(StoreError::DuplicateId);
    }
    let ghost a0 = store.assessments@;
    let row = AssessmentRow {
        id: assess_id,
        node_id: id.clone(),
        status: String::from_str("pending"),
        reversibility: None,
        impact: None,
        routing: None,
        notes: None,
        created_at: now,
        updated_at: now,
    };
    store.assessments.push(row);
    assert(store.assessments@.drop_last() =~= a0);
    assert forall|i: int, j: int| 0 <= i < j < store.assessments@.len() implies (
    #[trigger] store.assessments@[i]).id@ != (#[trigger] store.assessments@[j]).id@ by {
        if j == a0.len() {
            assert(store.assessments@[i] == a0[i]);
        }
    }
    Ok(id)
}

/// Records a governance contribution now, with fresh identifiers for its
/// node and assessment; `content` is the contribution's JSON text.
pub fn insert_governance_contribution(
    store: &mut Store,
    contribution: &GovernanceContribution,
    content: String,
) -> (r: Result<String, StoreError>)
    requires
        old(store).wf(),
    ensures
        final(store).wf(),
        exists|node_id: Seq<char>, assess_id: Seq<char>, now: i64|
            crate::clock::is_uuid_v4(node_id) && crate::clock::is_uuid_v4(assess_id) && now >= 0 && contribution_recorded(*old(store), *final(store), *contribution, content@, node_id, assess_id, now, r),
{
    let node_id = crate::clock::new_node_id();
    let assess_id = crate::clock::new_node_id();
    let now = crate::clock::now_micros();
    let ghost (n, a) = (node_id@, assess_id@);
    let r = insert_governance_contribution_at(store, contribution, content, node_id, assess_id, now);
    assert(contribution_recorded(*old(store), *store, *contribution, content@, n, a, now, r));
    r
}

/// The effect of deciding on `node_id`: every assessment of that node
/// takes status `outcome`, notes `rationale`, and is touched at `now`.
pub open spec fn decision_recorded(
    s0: Store,
    s1: Store,
    node_id: Seq<char>,
    outcome: Seq<char>,
    rationale: Seq<char>,
    now: i64,
) -> bool {
    &&& s1.nodes@ == s0.nodes@
    &&& s1.edges@ == s0.edges@
    &&& s1.kv@ == s0.kv@
    &&& s1.assessments@.len() == s0.assessments@.len()
    &&& forall|i: int| 0 <= i < s0.assessments@.len() ==> {
        let a = #[trigger] s0.assessments@[i];
        let b = s1.assessments@[i];
        if a.node_id@ == node_id {
            &&& b.status@ == outcome
            &&& opt_is(b.notes, rationale)
            &&& b == AssessmentRow { status: b.status, notes: b.notes, updated_at: now, ..a }
        } else {
            b == a
        }
    }
}

/// Records a decision on a contribution at `now` (see
/// `decision_recorded`).
pub fn insert_governance_decision_at(store: &mut Store, node_id: &str, outcome: &str, rationale: &str, now: i64)
    requires
        old(store).wf(),
    ensures
        final(store).wf(),
        decision_recorded(*old(store), *final(store), node_id@, outcome@, rationale@, now),
{
    let ghost s0 = *store;
    let mut i: usize = 0;
    while i < store.assessments.len()
        invariant
            store.wf(),
            i <= store.assessments@.len(),
            store.assessments@.len() == s0.assessments@.len(),
            store.nodes@ == s0.nodes@,
            store.edges@ == s0.edges@,
            store.kv@ == s0.kv@,
            forall|m: int| 0 <= m < store.assessments@.len() ==> (#[trigger] store.assessments@[m]).id@ == s0.assessments@[m].id@,
            forall|m: int| 0 <= m < s0.assessments@.len() ==> {
                let a = #[trigger] s0.assessments@[m];
                let b = store.assessments@[m];
                if m < i && a.node_id@ == node_id@ {
                    &&& b.status@ == outcome@
                    &&& opt_is(b.notes, rationale@)
                    &&& b == AssessmentRow { status: b.status, notes: b.notes, updated_at: now, ..a }
                } else {
                    b == a
                }
            },
        decreases store.assessments@.len() - i,
    {
        if str_eq(store.assessments[i].node_id.as_str(), node_id) {
            store.assessments[i].status = String::from_str(outcome);
            store.assessments[i].notes = Some(String::from_str(rationale));
            store.assessments[i].updated_at = now;
        }
        i = i + 1;
    }
}

/// Records a decision on a contribution now.
pub fn insert_governance_decision(store: &mut Store, node_id: &str, outcome: &str, rationale: &str)
    requires
        old(store).wf(),
    ensures
        final(store).wf(),
        exists|now: i64| now >= 0 && decision_recorded(*old(store), *final(store), node_id@, outcome@, rationale@, now),
{
    let now = crate::clock::now_micros();
    insert_governance_decision_at(store, node_id, outcome, rationale, now);
    assert(decision_recorded(*old(store), *store, node_id@, outcome@, rationale@, now));
}

/// The `LIKE` pattern that finds `keywords` anywhere in a title.
pub open spec fn keyword_pattern(keywords: Seq<char>) -> Seq<char> {
    seq!['%'] + keywords + seq!['%']
}

/// Assessment `a` is a rejection of a node whose title matches `pattern`.
pub open spec fn is_precedent(nodes: Seq<NodeRow>, a: AssessmentRow, pattern: Seq<char>) -> bool {
    &&& a.status@ == "rejected"@
    &&& node_id_used(nodes, a.node_id@)
    &&& nodes[node_index(nodes, a.node_id@)].title matches Some(t) && like(pattern, t@)
}

/// How many of the first `n` assessments are precedent rejections for
/// `pattern`.
pub open spec fn precedents_upto(nodes: Seq<NodeRow>, a: Seq<AssessmentRow>, pattern: Seq<char>, n: nat) -> nat
    decreases n,
{
    if n == 0 {
        0
    } else {
        precedents_upto(nodes, a, pattern, (n - 1) as nat) + if is_precedent(nodes, a[n - 1], pattern) {
            1nat
        } else {
            0nat
        }
    }
}

/// Counts the rejected assessments whose node's title contains
/// `keywords`, as `title LIKE '%keywords%'` matches (ASCII letters without
/// regard to case, `%` and `_` in `keywords` acting as wildcards); the
/// count is narrowed to `u32` as `as u32` does.
pub fn count_precedent_rejections(store: &Store, keywords: &str) -> (r: u32)
    requires
        store.wf(),
    ensures
        r == precedents_upto(
            store.nodes@,
            store.assessments@,
            keyword_pattern(keywords@),
            store.assessments@.len() as nat,
        ) as u32,
{
    let with_start = cat("%", keywords);
    let pattern = cat(with_start.as_str(), "%");
    proof {
        reveal_strlit("%");
        assert(pattern@ == keyword_pattern(keywords@));
    }
    let mut count: usize = 0;
    let mut i: usize = 0;
    while i < store.assessments.len()
        invariant
            store.wf(),
            i <= store.assessments@.len(),
            pattern@ == keyword_pattern(keywords@),
            count == precedents_upto(store.nodes@, store.assessments@, pattern@, i as nat),
            count <= i,
        decreases store.assessments@.len() - i,
    {
        let a = &store.assessments[i];
        let mut hit = false;
        if str_eq(a.status.as_str(), "rejected") {
            match find_node(store, a.node_id.as_str()) {
                Some(k) => {
                    proof {
                        crate::store::lemma_node_index(*store, k as int);
                    }
                    match &store.nodes[k].title {
                        Some(t) => {
                            hit = like_match(pattern.as_str(), t.as_str());
                        },
                        None => {},
                    }
                },
                None => {},
            }
        }
        if hit {
            count = count + 1;
        }
        i = i + 1;
    }
    count as u32
}

/// The first assessment of node `node_id`, if any.
pub fn get_assessment_by_node(store: &Store, node_id: &str) -> (r: Option<AssessmentRow>)
    ensures
        match r {
            Some(a) => exists|i: int|
                0 <= i < store.assessments@.len() && store.assessments@[i].node_id@ == node_id@ && a
                    == store.assessments@[i] && forall|m: int|
                    0 <= m < i ==> (#[trigger] store.assessments@[m]).node_id@ != node_id@,
            None => forall|i: int|
                0 <= i < store.assessments@.len() ==> (#[trigger] store.assessments@[i]).node_id@ != node_id@,
        },
{
    let mut i: usize = 0;
    while i < store.assessments.len()
        invariant
            i <= store.assessments@.len(),
            forall|m: int| 0 <= m < i ==> (#[trigger] store.assessments@[m]).node_id@ != node_id@,
        decreases store.assessments@.len() - i,
    {
        if str_eq(store.assessments[i].node_id.as_str(), node_id) {
            return Some(copy_assessment(&store.assessments[i]));
        }
        i = i + 1;
    }
    None
}

/// Assessment `a` waits for the librarian: it is `pending` and its node is
/// stored.
pub open spec fn is_waiting(nodes: Seq<NodeRow>, a: AssessmentRow) -> bool {
    a.status@ == "pending"@ && node_id_used(nodes, a.node_id@)
}

/// `sel` lists, in table order, the first waiting assessments, at most
/// `limit` of them.
pub open spec fn first_waiting(nodes: Seq<NodeRow>, a: Seq<AssessmentRow>, sel: Seq<int>, limit: nat) -> bool {
    &&& sel.len() <= limit
    &&& forall|j: int| 0 <= j < sel.len() ==> 0 <= #[trigger] sel[j] < a.len() && is_waiting(nodes, a[sel[j]])
    &&& forall|j: int, m: int| 0 <= j < m < sel.len() ==> #[trigger] sel[j] < #[trigger] sel[m]
    &&& forall|i: int|
        0 <= i < a.len() && is_waiting(nodes, #[trigger] a[i]) && !sel.contains(i) ==> sel.len() == limit && forall|j: int|
            0 <= j < sel.len() ==> #[trigger] sel[j] < i
}

/// The contributions waiting for the librarian: for the first `limit`
/// pending assessments whose node is stored, in table order, the node's
/// identifier and content. Where one of those nodes has no content the
/// result is `MissingContent`.
pub fn pending_contributions(store: &Store, limit: usize) -> (r: Result<Vec<(String, String)>, StoreError>)
    requires
        store.wf(),
    ensures
        exists|sel: Seq<int>|
            {
                &&& first_waiting(store.nodes@, store.assessments@, sel, limit as nat)
                &&& match r {
                    Ok(v) => v@.len() == sel.len() && forall|j: int|
                        0 <= j < sel.len() ==> {
                            let row = store.nodes@[node_index(store.nodes@, store.assessments@[sel[j]].node_id@)];
                            &&& (#[trigger] v@[j]).0@ == store.assessments@[sel[j]].node_id@
                            &&& opt_is(row.content, v@[j].1@)
                        },
                    Err(e) => e is MissingContent && exists|j: int|
                        0 <= j < sel.len() && store.nodes@[node_index(
                            store.nodes@,
                            store.assessments@[#[trigger] sel[j]].node_id@,
                        )].content is None,
                }
            },
{
    let mut out: Vec<(String, String)> = Vec::new();
    let ghost mut sel: Seq<int> = Seq::empty();
    let mut missing = false;
    let mut i: usize = 0;
    while i < store.assessments.len() && out.len() < limit
        invariant
            store.wf(),
            i <= store.assessments@.len(),
            out@.len() == sel.len(),
            out@.len() <= limit,
            forall|j: int| 0 <= j < sel.len() ==> 0 <= #[trigger] sel[j] < i && is_waiting(store.nodes@, store.assessments@[sel[j]]),
            forall|j: int, m: int| 0 <= j < m < sel.len() ==> #[trigger] sel[j] < #[trigger] sel[m],
            forall|k: int| 0 <= k < i && is_waiting(store.nodes@, #[trigger] store.assessments@[k]) ==> sel.contains(k),
            forall|j: int|
                0 <= j < sel.len() ==> {
                    let row = store.nodes@[node_index(store.nodes@, store.assessments@[sel[j]].node_id@)];
                    &&& (#[trigger] out@[j]).0@ == store.assessments@[sel[j]].node_id@
                    &&& (opt_is(row.content, out@[j].1@) || row.content is None)
                },
            missing == exists|j: int|
                0 <= j < sel.len() && store.nodes@[node_index(
                    store.nodes@,
                    store.assessments@[#[trigger] sel[j]].node_id@,
                )].content is None,
        decreases store.assessments@.len() - i,
    {
        let a = &store.assessments[i];
        if str_eq(a.status.as_str(), "pending") {
            match find_node(store, a.node_id.as_str()) {
                Some(k) => {
                    proof {
                        crate::store::lemma_node_index(*store, k as int);
                    }
                    let content = match &store.nodes[k].content {
                        Some(c) => c.clone(),
                        None => {
                            missing = true;
                            String::new()
                        },
                    };
                    let ghost old_sel = sel;
                    out.push((a.node_id.clone(), content));
                    proof {
                        sel = sel.push(i as int);
                        assert forall|kk: int| 0 <= kk < i + 1 && is_waiting(store.nodes@, #[trigger] store.assessments@[kk]) implies sel.contains(kk) by {
                            if kk < i {
                                let j = choose|j: int| 0 <= j < old_sel.len() && old_sel[j] == kk;
                                assert(sel[j] == kk);
                            } else {
                                assert(sel[old_sel.len() as int] == kk);
                            }
                        }
                        assert forall|j: int| 0 <= j < sel.len() implies {
                            let row = store.nodes@[node_index(store.nodes@, store.assessments@[sel[j]].node_id@)];
                            &&& (#[trigger] out@[j]).0@ == store.assessments@[sel[j]].node_id@
                            &&& (opt_is(row.content, out@[j].1@) || row.content is None)
                        } by {
                            if j < old_sel.len() {
                                assert(sel[j] == old_sel[j]);
                            }
                        }
                    }
                },
                None => {},
            }
        }
        i = i + 1;
    }
    assert(first_waiting(store.nodes@, store.assessments@, sel, limit as nat)) by {
        assert forall|k: int|
            0 <= k < store.assessments@.len() && is_waiting(store.nodes@, #[trigger] store.assessments@[k]) && !sel.contains(k)
                implies sel.len() == limit && forall|j: int| 0 <= j < sel.len() ==> #[trigger] sel[j] < k by {}
    }
    if missing {
        return Err(StoreError::MissingContent);
    }
    Ok(out)
}

/// The effect of storing the librarian's verdict on `node_id`: every
/// assessment of that node becomes `assessed` with the verdict's texts and
/// is touched at `now`.
pub open spec fn verdict_recorded(s0: Store, s1: Store, node_id: Seq<char>, v: LibrarianVerdict, now: i64) -> bool {
    &&& s1.nodes@ == s0.nodes@
    &&& s1.edges@ == s0.edges@
    &&& s1.kv@ == s0.kv@
    &&& s1.assessments@.len() == s0.assessments@.len()
    &&& forall|i: int| 0 <= i < s0.assessments@.len() ==> {
        let a = #[trigger] s0.assessments@[i];
        let b = s1.assessments@[i];
        if a.node_id@ == node_id {
            &&& b.status@ == "assessed"@
            &&& opt_is(b.reversibility, v.reversibility@)
            &&& opt_is(b.impact, v.impact@)
            &&& opt_is(b.routing, v.routing@)
            &&& opt_is(b.notes, v.notes@)
            &&& b == AssessmentRow {
                status: b.status,
                reversibility: b.reversibility,
                impact: b.impact,
                routing: b.routing,
                notes: b.notes,
                updated_at: now,
                ..a
            }
        } else {
            b == a
        }
    }
}

/// Stores the librarian's verdict on `node_id` at `now` (see
/// `verdict_recorded`).
pub fn update_assessment_at(store: &mut Store, node_id: &str, verdict: &LibrarianVerdict, now: i64)
    requires
        old(store).wf(),
    ensures
        final(store).wf(),
        verdict_recorded(*old(store), *final(store), node_id@, *verdict, now),
{
    let ghost s0 = *store;
    let mut i: usize = 0;
    while i < store.assessments.len()
        invariant
            store.wf(),
            i <= store.assessments@.len(),
            store.assessments@.len() == s0.assessments@.len(),
            store.nodes@ == s0.nodes@,
            store.edges@ == s0.edges@,
            store.kv@ == s0.kv@,
            forall|m: int| 0 <= m < store.assessments@.len() ==> (#[trigger] store.assessments@[m]).id@ == s0.assessments@[m].id@,
            forall|m: int| 0 <= m < s0.assessments@.len() ==> {
                let a = #[trigger] s0.assessments@[m];
                let b = store.assessments@[m];
                if m < i && a.node_id@ == node_id@ {
                    &&& b.status@ == "assessed"@
                    &&& opt_is(b.reversibility, verdict.reversibility@)
                    &&& opt_is(b.impact, verdict.impact@)
                    &&& opt_is(b.routing, verdict.routing@)
                    &&& opt_is(b.notes, verdict.notes@)
                    &&& b == AssessmentRow {
                        status: b.status,
                        reversibility: b.reversibility,
                        impact: b.impact,
                        routing: b.routing,
                        notes: b.notes,
                        updated_at: now,
                        ..a
                    }
                } else {
                    b == a
                }
            },
        decreases store.assessments@.len() - i,
    {
        if str_eq(store.assessments[i].node_id.as_str(), node_id) {
            store.assessments[i].status = String::from_str("assessed");
            store.assessments[i].reversibility = Some(verdict.reversibility.clone());
            store.assessments[i].impact = Some(verdict.impact.clone());
            store.assessments[i].routing = Some(verdict.routing.clone());
            store.assessments[i].notes = Some(verdict.notes.clone());
            store.assessments[i].updated_at = now;
        }
        i = i + 1;
    }
}

/// Stores the librarian's verdict on `node_id` now.
pub fn update_assessment(store: &mut Store, node_id: &str, verdict: &LibrarianVerdict)
    requires
        old(store).wf(),
    ensures
        final(store).wf(),
        exists|now: i64| now >= 0 && verdict_recorded(*old(store), *final(store), node_id@, *verdict, now),
{
    let now = crate::clock::now_micros();
    update_assessment_at(store, node_id, verdict, now);
    assert(verdict_recorded(*old(store), *store, node_id@, *verdict, now));
}

} // verus!

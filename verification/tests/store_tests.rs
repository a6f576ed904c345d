use farga::governance::{
    count_precedent_rejections, get_assessment_by_node, insert_governance_contribution, insert_governance_decision,
    pending_contributions, update_assessment, LibrarianVerdict,
};
use farga::graph::get_subgraph;
use farga::integrity::is_well_formed;
use farga::json::Json;
use farga::kinds::{EdgeKind, NodeKind};
use farga::store::{
    get_node, insert_edge, insert_node, mark_stale, upsert_component_todo, upsert_component_todo_at, KvRecord, Store,
    StoreError,
};
use farga::types::{Edge, FargaLayer, GovernanceContribution, Node};

const ONE: u64 = 0x3FF0_0000_0000_0000;

fn make_contribution(title: &str) -> GovernanceContribution {
    GovernanceContribution {
        title: title.into(),
        narrative: "Test narrative".into(),
        lessons: vec![],
        open_questions: vec![],
        involved_projects: vec!["proj-a".into()],
        concurrence: vec![],
        target_layer: FargaLayer::ProjectLevel,
        first_observed_at: 0,
        last_observed_at: 0,
        event_count: 1,
        reversibility: None,
        impact: None,
    }
}

#[test]
fn inserts_and_retrieves_node() {
    let mut store = Store::new();
    let node = Node::new(NodeKind::Signal, Some("auth-service".into()), Some("deployment issue".into()));
    let id = node.id.clone();
    insert_node(&mut store, &node).unwrap();
    let retrieved = get_node(&store, &id).unwrap();
    assert_eq!(retrieved.id, id);
    assert_eq!(retrieved.project, Some("auth-service".into()));
}

#[test]
fn inserts_edge_between_nodes() {
    let mut store = Store::new();
    let a = Node::new(NodeKind::Decision, Some("proj".into()), None);
    let b = Node::new(NodeKind::Decision, Some("proj".into()), None);
    insert_node(&mut store, &a).unwrap();
    insert_node(&mut store, &b).unwrap();
    let edge = Edge { from_id: b.id.clone(), to_id: a.id.clone(), kind: EdgeKind::SupersededBy, weight: ONE, created_at: 0 };
    insert_edge(&mut store, &edge).unwrap();
    assert_eq!(store.edges.len(), 1);
    assert_eq!(store.edges[0].kind, "supersedes");
}

#[test]
fn insert_governance_contribution_creates_node_and_assessment() {
    let mut store = Store::new();
    let contribution = make_contribution("JWT Signing Pattern");
    let node_id = insert_governance_contribution(&mut store, &contribution, "{}".into()).unwrap();
    assert!(!node_id.is_empty());

    let node = get_node(&store, &node_id).unwrap();
    assert_eq!(node.kind, NodeKind::GovernanceContribution);
    assert_eq!(node.title.as_deref(), Some("JWT Signing Pattern"));

    let assessment = get_assessment_by_node(&store, &node_id).unwrap();
    assert_eq!(assessment.status, "pending");
}

#[test]
fn count_precedent_rejections_returns_zero_when_empty() {
    let store = Store::new();
    assert_eq!(count_precedent_rejections(&store, "jwt"), 0);
}

#[test]
fn count_precedent_rejections_counts_only_rejected_rows() {
    let mut store = Store::new();
    let id1 = insert_governance_contribution(&mut store, &make_contribution("JWT Signing Pattern"), "{}".into()).unwrap();
    let _id2 = insert_governance_contribution(&mut store, &make_contribution("JWT Key Rotation"), "{}".into()).unwrap();

    for a in store.assessments.iter_mut() {
        if a.node_id == id1 {
            a.status = "rejected".into();
        }
    }

    assert_eq!(count_precedent_rejections(&store, "jwt"), 1);
    assert_eq!(count_precedent_rejections(&store, "auth"), 0);
}

#[test]
fn upsert_component_todo_creates_then_updates_same_node() {
    let mut store = Store::new();

    let id1 = upsert_component_todo(&mut store, "occitan", "gardian", "fix flaky readiness probe").unwrap();
    let node1 = get_node(&store, &id1).unwrap();
    assert_eq!(node1.content, Some("fix flaky readiness probe".into()));
    assert_eq!(node1.kind, NodeKind::ComponentLayer);
    assert_eq!(node1.project, Some("occitan".into()));
    assert_eq!(node1.component, Some("gardian".into()));

    let id2 =
        upsert_component_todo(&mut store, "occitan", "gardian", "readiness probe fixed; next: trim memory limit").unwrap();
    assert_eq!(id1, id2, "second call must update the same node, not create a new one");

    let node2 = get_node(&store, &id1).unwrap();
    assert_eq!(node2.content, Some("readiness probe fixed; next: trim memory limit".into()));
}

#[test]
fn upsert_component_todo_scoped_independently_per_component() {
    let mut store = Store::new();

    let gardian_id = upsert_component_todo(&mut store, "occitan", "gardian", "gardian todo").unwrap();
    let caissa_id = upsert_component_todo(&mut store, "occitan", "caissa", "caissa todo").unwrap();

    assert_ne!(gardian_id, caissa_id, "different components must get different nodes");

    let gardian_node = get_node(&store, &gardian_id).unwrap();
    let caissa_node = get_node(&store, &caissa_id).unwrap();
    assert_eq!(gardian_node.content, Some("gardian todo".into()));
    assert_eq!(caissa_node.content, Some("caissa todo".into()));
}

#[test]
fn duplicate_node_id_is_refused() {
    let mut store = Store::new();
    let a = Node::new_at(NodeKind::Signal, None, None, "same".into(), 1);
    let b = Node::new_at(NodeKind::Artifact, None, None, "same".into(), 2);
    insert_node(&mut store, &a).unwrap();
    assert!(matches!(insert_node(&mut store, &b), Err(StoreError::DuplicateId)));
    assert_eq!(store.nodes.len(), 1);
}

#[test]
fn get_missing_node_is_not_found() {
    let store = Store::new();
    assert!(matches!(get_node(&store, "nope"), Err(StoreError::NotFound)));
}

#[test]
fn get_node_with_unknown_kind_is_refused() {
    let mut store = Store::new();
    let a = Node::new_at(NodeKind::Signal, None, None, "x".into(), 1);
    insert_node(&mut store, &a).unwrap();
    store.nodes[0].kind = "Mystery".into();
    match get_node(&store, "x") {
        Err(StoreError::UnknownKind(m)) => assert_eq!(m, "unknown NodeKind: Mystery"),
        other => panic!("unexpected: {:?}", other),
    }
}

#[test]
fn edge_to_missing_node_is_refused() {
    let mut store = Store::new();
    let a = Node::new_at(NodeKind::Decision, None, None, "a".into(), 1);
    insert_node(&mut store, &a).unwrap();
    let edge = Edge { from_id: "a".into(), to_id: "ghost".into(), kind: EdgeKind::IsPartOf, weight: ONE, created_at: 0 };
    assert!(matches!(insert_edge(&mut store, &edge), Err(StoreError::MissingNode)));
    assert!(store.edges.is_empty());
}

#[test]
fn repeated_edge_is_ignored() {
    let mut store = Store::new();
    insert_node(&mut store, &Node::new_at(NodeKind::Decision, None, None, "a".into(), 1)).unwrap();
    insert_node(&mut store, &Node::new_at(NodeKind::Decision, None, None, "b".into(), 1)).unwrap();
    let edge = Edge { from_id: "a".into(), to_id: "b".into(), kind: EdgeKind::IsPartOf, weight: ONE, created_at: 0 };
    insert_edge(&mut store, &edge).unwrap();
    insert_edge(&mut store, &edge).unwrap();
    assert_eq!(store.edges.len(), 1);
}

#[test]
fn mark_stale_sets_the_flag_only_on_that_node() {
    let mut store = Store::new();
    insert_node(&mut store, &Node::new_at(NodeKind::Signal, None, None, "a".into(), 1)).unwrap();
    insert_node(&mut store, &Node::new_at(NodeKind::Signal, None, None, "b".into(), 1)).unwrap();
    mark_stale(&mut store, "a");
    assert!(get_node(&store, "a").unwrap().stale);
    assert!(!get_node(&store, "b").unwrap().stale);
}

#[test]
fn upsert_component_todo_at_uses_given_id_and_instant() {
    let mut store = Store::new();
    let id = upsert_component_todo_at(&mut store, "p", "c", "todo", 42, "fresh-1".into()).unwrap();
    assert_eq!(id, "fresh-1");
    let n = get_node(&store, "fresh-1").unwrap();
    assert_eq!(n.created_at, 42);
    let again = upsert_component_todo_at(&mut store, "p", "c", "todo 2", 50, "fresh-2".into()).unwrap();
    assert_eq!(again, "fresh-1");
    let n = get_node(&store, "fresh-1").unwrap();
    assert_eq!(n.updated_at, 50);
    assert_eq!(n.content.as_deref(), Some("todo 2"));
}

#[test]
fn subgraph_follows_edges_both_ways_up_to_depth() {
    let mut store = Store::new();
    for id in ["a", "b", "c", "d"] {
        insert_node(&mut store, &Node::new_at(NodeKind::Decision, None, None, id.into(), 1)).unwrap();
    }
    let e = |f: &str, t: &str| Edge { from_id: f.into(), to_id: t.into(), kind: EdgeKind::IsPartOf, weight: ONE, created_at: 0 };
    insert_edge(&mut store, &e("a", "b")).unwrap();
    insert_edge(&mut store, &e("c", "b")).unwrap();
    insert_edge(&mut store, &e("c", "d")).unwrap();

    let (nodes, _) = get_subgraph(&store, "a", 0);
    let ids: Vec<&str> = nodes.iter().map(|n| n.id.as_str()).collect();
    assert_eq!(ids, vec!["a"]);

    let (nodes, edges) = get_subgraph(&store, "a", 2);
    let mut ids: Vec<&str> = nodes.iter().map(|n| n.id.as_str()).collect();
    ids.sort();
    assert_eq!(ids, vec!["a", "b", "c"]);
    assert_eq!(edges.len(), 3);
}

#[test]
fn subgraph_lists_nearer_nodes_first() {
    let mut store = Store::new();
    for id in ["d", "c", "b", "a"] {
        insert_node(&mut store, &Node::new_at(NodeKind::Decision, None, None, id.into(), 1)).unwrap();
    }
    let e = |f: &str, t: &str| Edge { from_id: f.into(), to_id: t.into(), kind: EdgeKind::IsPartOf, weight: ONE, created_at: 0 };
    insert_edge(&mut store, &e("c", "d")).unwrap();
    insert_edge(&mut store, &e("c", "b")).unwrap();
    insert_edge(&mut store, &e("a", "b")).unwrap();
    let (nodes, _) = get_subgraph(&store, "a", 3);
    let ids: Vec<&str> = nodes.iter().map(|n| n.id.as_str()).collect();
    assert_eq!(ids, vec!["a", "b", "c", "d"]);
    let (nodes, _) = get_subgraph(&store, "c", 1);
    let ids: Vec<&str> = nodes.iter().map(|n| n.id.as_str()).collect();
    assert_eq!(ids[0], "c");
    assert_eq!(ids.len(), 3);
    // A root with no row and no edges gives no node.
    let (nodes, _) = get_subgraph(&store, "zz", 2);
    assert!(nodes.is_empty());
}

#[test]
fn governance_decision_updates_assessment() {
    let mut store = Store::new();
    let id = insert_governance_contribution(&mut store, &make_contribution("Adopt RS256"), "{}".into()).unwrap();
    insert_governance_decision(&mut store, &id, "rejected", "too broad");
    let a = get_assessment_by_node(&store, &id).unwrap();
    assert_eq!(a.status, "rejected");
    assert_eq!(a.notes.as_deref(), Some("too broad"));
    assert_eq!(count_precedent_rejections(&store, "rs256"), 1);
}

#[test]
fn librarian_verdict_marks_assessment_assessed() {
    let mut store = Store::new();
    let id = insert_governance_contribution(&mut store, &make_contribution("Shared tracing"), "{\"title\":\"t\"}".into()).unwrap();
    let pending = pending_contributions(&store, 10).unwrap();
    assert_eq!(pending.len(), 1);
    assert_eq!(pending[0].0, id);
    assert_eq!(pending[0].1, "{\"title\":\"t\"}");
    let verdict = LibrarianVerdict {
        reversibility: "CostlyReversible".into(),
        impact: "DomainWide".into(),
        routing: "OrgLevel".into(),
        notes: "Test note.".into(),
    };
    update_assessment(&mut store, &id, &verdict);
    let a = get_assessment_by_node(&store, &id).unwrap();
    assert_eq!(a.status, "assessed");
    assert_eq!(a.reversibility.as_deref(), Some("CostlyReversible"));
    assert_eq!(a.impact.as_deref(), Some("DomainWide"));
    assert_eq!(a.routing.as_deref(), Some("OrgLevel"));
    assert_eq!(a.notes.as_deref(), Some("Test note."));
    assert!(pending_contributions(&store, 10).unwrap().is_empty());
}

#[test]
fn well_formedness_check_finds_broken_constraints() {
    let mut store = Store::new();
    assert!(is_well_formed(&store));
    insert_node(&mut store, &Node::new_at(NodeKind::Signal, None, None, "a".into(), 1)).unwrap();
    assert!(is_well_formed(&store));
    let kv = |id: &str, path: &str, value: Json| KvRecord {
        id: id.into(),
        path: path.into(),
        value,
        expires_at: None,
        created_at: 0,
        updated_at: 0,
        stale: false,
    };
    store.kv.push(kv("a", "ns/k", Json::Null));
    assert!(!is_well_formed(&store), "a key/value entry may not reuse a node's identifier");
    store.kv[0].id = "b".into();
    assert!(is_well_formed(&store));
    store.kv.push(kv("c", "ns/k", Json::Null));
    assert!(!is_well_formed(&store), "two live entries may not share a path");
    store.kv[1].stale = true;
    assert!(is_well_formed(&store));
    store.kv.push(kv("d", "ns/j", Json::Object(vec![("x".into(), Json::Null), ("x".into(), Json::Null)])));
    assert!(!is_well_formed(&store), "an object may not repeat a key");
}

#[test]
fn new_nodes_get_distinct_uuid_ids_and_the_current_instant() {
    let a = Node::new(NodeKind::Signal, None, None);
    let b = Node::new(NodeKind::Signal, None, None);
    assert_ne!(a.id, b.id);
    assert_eq!(a.id.len(), 36);
    for (i, c) in a.id.chars().enumerate() {
        if [8, 13, 18, 23].contains(&i) {
            assert_eq!(c, '-');
        } else {
            assert!(c.is_ascii_hexdigit() && !c.is_ascii_uppercase());
        }
    }
    // 2020-01-01T00:00:00Z in microseconds: the clock is read, not zero.
    assert!(a.created_at > 1_577_836_800_000_000);
    assert_eq!(a.created_at, a.updated_at);
    assert!(!a.stale);
}

#[test]
fn get_assessment_returns_404_for_missing_node() {
    let store = Store::new();
    assert!(get_assessment_by_node(&store, "nonexistent-node").is_none());
}

#[test]
fn post_governance_returns_201_with_id() {
    let mut store = Store::new();
    let id = insert_governance_contribution(&mut store, &make_contribution("Shared logging"), "{}".into()).unwrap();
    assert_eq!(id.len(), 36);
    assert_eq!(store.assessments.len(), 1);
    assert_eq!(store.assessments[0].node_id, id);
}

#[test]
fn get_precedent_returns_rejection_count() {
    let mut store = Store::new();
    let id = insert_governance_contribution(&mut store, &make_contribution("Central JWT issuer"), "{}".into()).unwrap();
    insert_governance_decision(&mut store, &id, "rejected", "no");
    assert_eq!(count_precedent_rejections(&store, "JWT"), 1);
    assert_eq!(count_precedent_rejections(&store, "issuer"), 1);
    assert_eq!(count_precedent_rejections(&store, "kafka"), 0);
}

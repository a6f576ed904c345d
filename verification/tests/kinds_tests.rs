use farga::client::{FargaReader, FargaWriter};
use farga::kinds::{EdgeKind, NodeKind};

// These just verify the traits compile and are object-safe.
fn _assert_reader_object_safe(_: &dyn FargaReader) {}
fn _assert_writer_object_safe(_: &dyn FargaWriter) {}

#[test]
fn traits_are_object_safe() {
    // If this test compiles, the traits are object-safe.
}

#[test]
fn node_kind_roundtrips_str() {
    assert_eq!(NodeKind::Artifact.as_str(), "Artifact");
    assert_eq!("Signal".parse::<NodeKind>().unwrap(), NodeKind::Signal);
}

#[test]
fn edge_kind_roundtrips_str() {
    assert_eq!(EdgeKind::SupersededBy.as_str(), "supersedes");
    assert_eq!("conflicts_with".parse::<EdgeKind>().unwrap(), EdgeKind::ConflictsWith);
}

#[test]
fn node_kind_governance_contribution_round_trips() {
    let kind = NodeKind::GovernanceContribution;
    assert_eq!(kind.as_str(), "GovernanceContribution");
    let back: NodeKind = "GovernanceContribution".parse().unwrap();
    assert_eq!(back, NodeKind::GovernanceContribution);
}

#[test]
fn every_node_kind_round_trips() {
    let all = [
        NodeKind::OrgLayer,
        NodeKind::InitiativeLayer,
        NodeKind::ProjectLayer,
        NodeKind::ComponentLayer,
        NodeKind::Artifact,
        NodeKind::Signal,
        NodeKind::Decision,
        NodeKind::Pattern,
        NodeKind::FondamentProposal,
        NodeKind::AuditEntry,
        NodeKind::GovernanceContribution,
        NodeKind::ContextNode,
    ];
    for k in all {
        assert_eq!(NodeKind::parse(k.as_str()).unwrap(), k);
    }
}

#[test]
fn every_edge_kind_round_trips() {
    let all = [
        EdgeKind::ContributesTo,
        EdgeKind::IsPartOf,
        EdgeKind::SupersededBy,
        EdgeKind::ConflictsWith,
        EdgeKind::DerivedFrom,
        EdgeKind::ReferencedBy,
        EdgeKind::PromotesTo,
    ];
    for k in all {
        assert_eq!(EdgeKind::parse(k.as_str()).unwrap(), k);
    }
}

#[test]
fn unknown_node_kind_is_refused_with_its_name() {
    let err = "KV".parse::<NodeKind>().unwrap_err();
    assert_eq!(err, "unknown NodeKind: KV");
}

#[test]
fn unknown_edge_kind_is_refused_with_its_name() {
    let err = "SupersededBy".parse::<EdgeKind>().unwrap_err();
    assert_eq!(err, "unknown EdgeKind: SupersededBy");
}

//! The kinds of graph nodes and edges, and their textual names.

use vstd::prelude::*;

verus! {

/// The kind of a node in the context graph.
#[derive(Debug, Clone, Copy, PartialEq, Eq, Structural)]
pub enum NodeKind {
    OrgLayer,
    InitiativeLayer,
    ProjectLayer,
    ComponentLayer,
    Artifact,
    Signal,
    Decision,
    Pattern,
    FondamentProposal,
    AuditEntry,
    GovernanceContribution,
    ContextNode,
}

/// The name under which a node kind is stored.
pub open spec fn node_kind_name(k: NodeKind) -> Seq<char> {
    match k {
        NodeKind::OrgLayer => "OrgLayer"@,
        NodeKind::InitiativeLayer => "InitiativeLayer"@,
        NodeKind::ProjectLayer => "ProjectLayer"@,
        NodeKind::ComponentLayer => "ComponentLayer"@,
        NodeKind::Artifact => "Artifact"@,
        NodeKind::Signal => "Signal"@,
        NodeKind::Decision => "Decision"@,
        NodeKind::Pattern => "Pattern"@,
        NodeKind::FondamentProposal => "FondamentProposal"@,
        NodeKind::AuditEntry => "AuditEntry"@,
        NodeKind::GovernanceContribution => "GovernanceContribution"@,
        NodeKind::ContextNode => "ContextNode"@,
    }
}

/// Whether some node kind is stored under the name `s`.
pub open spec fn is_node_kind_name(s: Seq<char>) -> bool {
    exists|k: NodeKind| node_kind_name(k) == s
}


/// Distinct node kinds have distinct stored names, so reading a kind back
/// from the name it was stored under gives that same kind.
pub proof fn lemma_node_kind_name_injective(a: NodeKind, b: NodeKind)
    requires
        node_kind_name(a) == node_kind_name(b),
    ensures
        a == b,
{
    reveal_strlit("OrgLayer");
    reveal_strlit("InitiativeLayer");
    reveal_strlit("ProjectLayer");
    reveal_strlit("ComponentLayer");
    reveal_strlit("Artifact");
    reveal_strlit("Signal");
    reveal_strlit("Decision");
    reveal_strlit("Pattern");
    reveal_strlit("FondamentProposal");
    reveal_strlit("AuditEntry");
    reveal_strlit("GovernanceContribution");
    reveal_strlit("ContextNode");
    match a {
        NodeKind::OrgLayer => assert(node_kind_name(a).len() == 8 && node_kind_name(a)[0] == 'O'),
        NodeKind::InitiativeLayer => assert(node_kind_name(a).len() == 15 && node_kind_name(a)[0] == 'I'),
        NodeKind::ProjectLayer => assert(node_kind_name(a).len() == 12 && node_kind_name(a)[0] == 'P'),
        NodeKind::ComponentLayer => assert(node_kind_name(a).len() == 14 && node_kind_name(a)[0] == 'C'),
        NodeKind::Artifact => assert(node_kind_name(a).len() == 8 && node_kind_name(a)[0] == 'A'),
        NodeKind::Signal => assert(node_kind_name(a).len() == 6 && node_kind_name(a)[0] == 'S'),
        NodeKind::Decision => assert(node_kind_name(a).len() == 8 && node_kind_name(a)[0] == 'D'),
        NodeKind::Pattern => assert(node_kind_name(a).len() == 7 && node_kind_name(a)[0] == 'P'),
        NodeKind::FondamentProposal => assert(node_kind_name(a).len() == 17 && node_kind_name(a)[0] == 'F'),
        NodeKind::AuditEntry => assert(node_kind_name(a).len() == 10 && node_kind_name(a)[0] == 'A'),
        NodeKind::GovernanceContribution => assert(node_kind_name(a).len() == 22 && node_kind_name(a)[0] == 'G'),
        NodeKind::ContextNode => assert(node_kind_name(a).len() == 11 && node_kind_name(a)[0] == 'C'),
    }
    match b {
        NodeKind::OrgLayer => assert(node_kind_name(b).len() == 8 && node_kind_name(b)[0] == 'O'),
        NodeKind::InitiativeLayer => assert(node_kind_name(b).len() == 15 && node_kind_name(b)[0] == 'I'),
        NodeKind::ProjectLayer => assert(node_kind_name(b).len() == 12 && node_kind_name(b)[0] == 'P'),
        NodeKind::ComponentLayer => assert(node_kind_name(b).len() == 14 && node_kind_name(b)[0] == 'C'),
        NodeKind::Artifact => assert(node_kind_name(b).len() == 8 && node_kind_name(b)[0] == 'A'),
        NodeKind::Signal => assert(node_kind_name(b).len() == 6 && node_kind_name(b)[0] == 'S'),
        NodeKind::Decision => assert(node_kind_name(b).len() == 8 && node_kind_name(b)[0] == 'D'),
        NodeKind::Pattern => assert(node_kind_name(b).len() == 7 && node_kind_name(b)[0] == 'P'),
        NodeKind::FondamentProposal => assert(node_kind_name(b).len() == 17 && node_kind_name(b)[0] == 'F'),
        NodeKind::AuditEntry => assert(node_kind_name(b).len() == 10 && node_kind_name(b)[0] == 'A'),
        NodeKind::GovernanceContribution => assert(node_kind_name(b).len() == 22 && node_kind_name(b)[0] == 'G'),
        NodeKind::ContextNode => assert(node_kind_name(b).len() == 11 && node_kind_name(b)[0] == 'C'),
    }
}

/// Equality of two string slices, by their characters.
pub fn str_eq(a: &str, b: &str) -> (r: bool)
    ensures
        r == (a@ == b@),
{
    let x = String::from_str(a);
    let y = String::from_str(b);
    x == y
}

impl NodeKind {
    /// The stored name of this kind.
    pub fn as_str(&self) -> (s: &'static str)
        ensures
            s@ == node_kind_name(*self),
    {
        match self {
            NodeKind::OrgLayer => "OrgLayer",
            NodeKind::InitiativeLayer => "InitiativeLayer",
            NodeKind::ProjectLayer => "ProjectLayer",
            NodeKind::ComponentLayer => "ComponentLayer",
            NodeKind::Artifact => "Artifact",
            NodeKind::Signal => "Signal",
            NodeKind::Decision => "Decision",
            NodeKind::Pattern => "Pattern",
            NodeKind::FondamentProposal => "FondamentProposal",
            NodeKind::AuditEntry => "AuditEntry",
            NodeKind::GovernanceContribution => "GovernanceContribution",
            NodeKind::ContextNode => "ContextNode",
        }
    }

    /// Reads a node kind from its stored name; any other text is refused
    /// with the message `unknown NodeKind: <text>`.
    pub fn parse(s: &str) -> (r: Result<NodeKind, String>)
        ensures
            match r {
                Ok(k) => node_kind_name(k) == s@,
                Err(e) => !is_node_kind_name(s@) && e@ == "unknown NodeKind: "@ + s@,
            },
    {
        if str_eq(s, "OrgLayer") {
            Ok(NodeKind::OrgLayer)
        } else if str_eq(s, "InitiativeLayer") {
            Ok(NodeKind::InitiativeLayer)
        } else if str_eq(s, "ProjectLayer") {
            Ok(NodeKind::ProjectLayer)
        } else if str_eq(s, "ComponentLayer") {
            Ok(NodeKind::ComponentLayer)
        } else if str_eq(s, "Artifact") {
            Ok(NodeKind::Artifact)
        } else if str_eq(s, "Signal") {
            Ok(NodeKind::Signal)
        } else if str_eq(s, "Decision") {
            Ok(NodeKind::Decision)
        } else if str_eq(s, "Pattern") {
            Ok(NodeKind::Pattern)
        } else if str_eq(s, "FondamentProposal") {
            Ok(NodeKind::FondamentProposal)
        } else if str_eq(s, "AuditEntry") {
            Ok(NodeKind::AuditEntry)
        } else if str_eq(s, "GovernanceContribution") {
            Ok(NodeKind::GovernanceContribution)
        } else if str_eq(s, "ContextNode") {
            Ok(NodeKind::ContextNode)
        } else {
            assert forall|k: NodeKind| node_kind_name(k) != s@ by {
                match k {
                    NodeKind::OrgLayer => {},
                    _ => {},
                }
            }
            Err(String::from_str("unknown NodeKind: ").concat(s))
        }
    }
}

impl std::str::FromStr for NodeKind {
    type Err = String;

    fn from_str(s: &str) -> (r: Result<NodeKind, String>)
        ensures
            match r {
                Ok(k) => node_kind_name(k) == s@,
                Err(e) => !is_node_kind_name(s@) && e@ == "unknown NodeKind: "@ + s@,
            },
    {
        NodeKind::parse(s)
    }
}

/// The kind of a directed edge between two nodes.
#[derive(Debug, Clone, Copy, PartialEq, Eq, Structural)]
pub enum EdgeKind {
    ContributesTo,
    IsPartOf,
    SupersededBy,
    ConflictsWith,
    DerivedFrom,
    ReferencedBy,
    PromotesTo,
}

/// The name under which an edge kind is stored.
pub open spec fn edge_kind_name(k: EdgeKind) -> Seq<char> {
    match k {
        EdgeKind::ContributesTo => "contributes_to"@,
        EdgeKind::IsPartOf => "is_part_of"@,
        EdgeKind::SupersededBy => "supersedes"@,
        EdgeKind::ConflictsWith => "conflicts_with"@,
        EdgeKind::DerivedFrom => "derived_from"@,
        EdgeKind::ReferencedBy => "referenced_by"@,
        EdgeKind::PromotesTo => "promotes_to"@,
    }
}

/// Whether some edge kind is stored under the name `s`.
pub open spec fn is_edge_kind_name(s: Seq<char>) -> bool {
    exists|k: EdgeKind| edge_kind_name(k) == s
}

/// Distinct edge kinds have distinct stored names.
pub proof fn lemma_edge_kind_name_injective(a: EdgeKind, b: EdgeKind)
    requires
        edge_kind_name(a) == edge_kind_name(b),
    ensures
        a == b,
{
    reveal_strlit("contributes_to");
    reveal_strlit("is_part_of");
    reveal_strlit("supersedes");
    reveal_strlit("conflicts_with");
    reveal_strlit("derived_from");
    reveal_strlit("referenced_by");
    reveal_strlit("promotes_to");
    match a {
        EdgeKind::ContributesTo => assert(edge_kind_name(a).len() == 14 && edge_kind_name(a)[3] == 't'),
        EdgeKind::IsPartOf => assert(edge_kind_name(a).len() == 10 && edge_kind_name(a)[3] == 'p'),
        EdgeKind::SupersededBy => assert(edge_kind_name(a).len() == 10 && edge_kind_name(a)[3] == 'e'),
        EdgeKind::ConflictsWith => assert(edge_kind_name(a).len() == 14 && edge_kind_name(a)[3] == 'f'),
        EdgeKind::DerivedFrom => assert(edge_kind_name(a).len() == 12 && edge_kind_name(a)[3] == 'i'),
        EdgeKind::ReferencedBy => assert(edge_kind_name(a).len() == 13 && edge_kind_name(a)[3] == 'e'),
        EdgeKind::PromotesTo => assert(edge_kind_name(a).len() == 11 && edge_kind_name(a)[3] == 'm'),
    }
    match b {
        EdgeKind::ContributesTo => assert(edge_kind_name(b).len() == 14 && edge_kind_name(b)[3] == 't'),
        EdgeKind::IsPartOf => assert(edge_kind_name(b).len() == 10 && edge_kind_name(b)[3] == 'p'),
        EdgeKind::SupersededBy => assert(edge_kind_name(b).len() == 10 && edge_kind_name(b)[3] == 'e'),
        EdgeKind::ConflictsWith => assert(edge_kind_name(b).len() == 14 && edge_kind_name(b)[3] == 'f'),
        EdgeKind::DerivedFrom => assert(edge_kind_name(b).len() == 12 && edge_kind_name(b)[3] == 'i'),
        EdgeKind::ReferencedBy => assert(edge_kind_name(b).len() == 13 && edge_kind_name(b)[3] == 'e'),
        EdgeKind::PromotesTo => assert(edge_kind_name(b).len() == 11 && edge_kind_name(b)[3] == 'm'),
    }
}

impl EdgeKind {
    /// The stored name of this kind.
    pub fn as_str(&self) -> (s: &'static str)
        ensures
            s@ == edge_kind_name(*self),
    {
        match self {
            EdgeKind::ContributesTo => "contributes_to",
            EdgeKind::IsPartOf => "is_part_of",
            EdgeKind::SupersededBy => "supersedes",
            EdgeKind::ConflictsWith => "conflicts_with",
            EdgeKind::DerivedFrom => "derived_from",
            EdgeKind::ReferencedBy => "referenced_by",
            EdgeKind::PromotesTo => "promotes_to",
        }
    }

    /// Reads an edge kind from its stored name; any other text is refused
    /// with the message `unknown EdgeKind: <text>`.
    pub fn parse(s: &str) -> (r: Result<EdgeKind, String>)
        ensures
            match r {
                Ok(k) => edge_kind_name(k) == s@,
                Err(e) => !is_edge_kind_name(s@) && e@ == "unknown EdgeKind: "@ + s@,
            },
    {
        if str_eq(s, "contributes_to") {
            Ok(EdgeKind::ContributesTo)
        } else if str_eq(s, "is_part_of") {
            Ok(EdgeKind::IsPartOf)
        } else if str_eq(s, "supersedes") {
            Ok(EdgeKind::SupersededBy)
        } else if str_eq(s, "conflicts_with") {
            Ok(EdgeKind::ConflictsWith)
        } else if str_eq(s, "derived_from") {
            Ok(EdgeKind::DerivedFrom)
        } else if str_eq(s, "referenced_by") {
            Ok(EdgeKind::ReferencedBy)
        } else if str_eq(s, "promotes_to") {
            Ok(EdgeKind::PromotesTo)
        } else {
            assert forall|k: EdgeKind| edge_kind_name(k) != s@ by {
                match k {
                    EdgeKind::ContributesTo => {},
                    _ => {},
                }
            }
            Err(String::from_str("unknown EdgeKind: ").concat(s))
        }
    }
}

impl std::str::FromStr for EdgeKind {
    type Err = String;

    fn from_str(s: &str) -> (r: Result<EdgeKind, String>)
        ensures
            match r {
                Ok(k) => edge_kind_name(k) == s@,
                Err(e) => !is_edge_kind_name(s@) && e@ == "unknown EdgeKind: "@ + s@,
            },
    {
        EdgeKind::parse(s)
    }
}

} // verus!

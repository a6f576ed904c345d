//! The records that Farga stores and exchanges: nodes, edges, signals,
//! artifacts, audit entries, governance contributions and the context
//! documents that readers return.

use vstd::prelude::*;
use crate::kinds::NodeKind;
use crate::clock::{new_node_id, now_micros, is_uuid_v4};

verus! {

/// A copy of an optional string.
pub fn copy_opt(o: &Option<String>) -> (r: Option<String>)
    ensures
        r == *o,
{
    match o {
        Some(s) => Some(s.clone()),
        None => None,
    }
}

/// A vertex of the context graph. Instants are microseconds since the Unix
/// epoch.
#[derive(Debug, Clone)]
pub struct Node {
    pub id: String,
    pub kind: NodeKind,
    pub address: Option<String>,
    pub project: Option<String>,
    pub component: Option<String>,
    pub title: Option<String>,
    pub content: Option<String>,
    pub created_at: i64,
    pub updated_at: i64,
    pub stale: bool,
}

/// Whether `n` is a node of kind `kind` for `project` with `content` and no
/// other field set, live, created and updated at instant `now` under `id`.
pub open spec fn is_fresh_node(
    n: Node,
    kind: NodeKind,
    project: Option<String>,
    content: Option<String>,
    id: Seq<char>,
    now: i64,
) -> bool {
    &&& n.id@ == id
    &&& n.kind == kind
    &&& n.project == project
    &&& n.content == content
    &&& n.address is None
    &&& n.component is None
    &&& n.title is None
    &&& n.created_at == now
    &&& n.updated_at == now
    &&& !n.stale
}

impl Node {
    /// A node under the given identifier, created at instant `now`.
    pub fn new_at(kind: NodeKind, project: Option<String>, content: Option<String>, id: String, now: i64) -> (n: Node)
        ensures
            is_fresh_node(n, kind, project, content, id@, now),
    {
        Node {
            id,
            kind,
            address: None,
            project,
            component: None,
            title: None,
            content,
            created_at: now,
            updated_at: now,
            stale: false,
        }
    }

    /// A new live node with a fresh random identifier, created now.
    pub fn new(kind: NodeKind, project: Option<String>, content: Option<String>) -> (n: Node)
        ensures
            is_fresh_node(n, kind, project, content, n.id@, n.created_at),
            is_uuid_v4(n.id@),
            n.created_at >= 0,
    {
        let id = new_node_id();
        let now = now_micros();
        Node::new_at(kind, project, content, id, now)
    }
}

/// A directed edge. The weight is held as the bit pattern of the IEEE-754
/// double that clients send; the library only stores and returns it.
#[derive(Debug, Clone)]
pub struct Edge {
    pub from_id: String,
    pub to_id: String,
    pub kind: crate::kinds::EdgeKind,
    pub weight: u64,
    pub created_at: i64,
}

/// A lightweight observation about a project.
#[derive(Debug, Clone)]
pub struct Signal {
    pub project: String,
    pub content: String,
    pub source: String,
}

/// A structured output of a work session.
#[derive(Debug, Clone)]
pub struct Artifact {
    pub project: String,
    pub title: String,
    pub content: String,
    pub session_id: Option<String>,
    pub kind: String,
}

/// A credential audit entry; `timestamp` is microseconds since the Unix epoch.
#[derive(Debug, Clone)]
pub struct AuditEntry {
    pub timestamp: i64,
    pub agent: String,
    pub capability: String,
    pub outcome: String,
    pub token_id: String,
}

/// The org-layer context document.
#[derive(Debug, Clone)]
pub struct OrgContext {
    pub content: String,
}

/// One initiative context document.
#[derive(Debug, Clone)]
pub struct InitiativeContext {
    pub content: String,
}

/// A project or component context document.
#[derive(Debug, Clone)]
pub struct ProjectContext {
    pub content: String,
}

/// Errors of Farga clients.
#[derive(Debug, Clone)]
pub enum FargaError {
    NotFound(String),
    Database(String),
    Http(String),
    Io(String),
}

/// The layer a governance contribution is aimed at.
#[derive(Debug, Clone, Copy, PartialEq, Eq, Structural)]
pub enum FargaLayer {
    ProjectLevel,
    InitiativeLevel,
    OrgLevel,
}

/// How far a governance decision can be undone.
#[derive(Debug, Clone, Copy, PartialEq, Eq, Structural)]
pub enum ReversibilityLevel {
    FullyReversible,
    EffectsLinger,
    CostlyReversible,
    Irreversible,
}

/// How widely a governance decision reaches.
#[derive(Debug, Clone, Copy, PartialEq, Eq, Structural)]
pub enum ImpactScope {
    Contained,
    CrossProject,
    DomainWide,
    OrgWide,
}

/// Where the librarian routes a contribution.
#[derive(Debug, Clone, Copy, PartialEq, Eq, Structural)]
pub enum LibrarianRouting {
    DirectIntegrate,
    OpenGovernance,
}

/// The state of a governance assessment.
#[derive(Debug, Clone, Copy, PartialEq, Eq, Structural)]
pub enum GovernanceStatus {
    Pending,
    DirectIntegrate,
    OpenGovernance,
    Rejected,
}

/// The librarian's assessment of a contribution.
#[derive(Debug, Clone)]
pub struct LibrarianAssessment {
    pub reversibility: ReversibilityLevel,
    pub impact: ImpactScope,
    pub routing: LibrarianRouting,
    pub notes: Option<String>,
}

/// A lesson or pattern proposed for governance. Instants are microseconds
/// since the Unix epoch.
#[derive(Debug, Clone)]
pub struct GovernanceContribution {
    pub title: String,
    pub narrative: String,
    pub lessons: Vec<String>,
    pub open_questions: Vec<String>,
    pub involved_projects: Vec<String>,
    pub concurrence: Vec<String>,
    pub target_layer: FargaLayer,
    pub first_observed_at: i64,
    pub last_observed_at: i64,
    pub event_count: u32,
    pub reversibility: Option<ReversibilityLevel>,
    pub impact: Option<ImpactScope>,
}

} // verus!

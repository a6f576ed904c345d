//! The client side of Farga: the reader and writer interfaces that agents
//! use, the URLs of the server's routes, the request bodies and queries the
//! routes take, and the lines the command-line tool prints.

use vstd::prelude::*;
use crate::types::{OrgContext, InitiativeContext, ProjectContext, Signal, Artifact, AuditEntry, FargaError};
use crate::text::{cat, decimal, u64_to_decimal};

verus! {

/// Reads the context layers and recent signals of a Farga server.
pub trait FargaReader: Send + Sync {
    /// The org-layer document of `org`.
    fn org_layer(&self, org: &str) -> Result<OrgContext, FargaError>;

    /// The initiative documents of `org`.
    fn initiative_layer(&self, org: &str) -> Result<Vec<InitiativeContext>, FargaError>;

    /// The project-layer document of `project`.
    fn project_layer(&self, project: &str) -> Result<ProjectContext, FargaError>;

    /// The document of the component at `path` in `project`.
    fn component_layer(&self, project: &str, path: &str) -> Result<ProjectContext, FargaError>;

    /// The recent signals of `project`.
    fn recent_signals(&self, project: &str, since_hours: u64) -> Result<Vec<Signal>, FargaError>;
}

/// Writes signals, artifacts and audit entries to a Farga server.
pub trait FargaWriter: Send + Sync {
    /// Writes `signals` for `project`.
    fn write_signals(&self, project: &str, signals: Vec<Signal>) -> Result<(), FargaError>;

    /// Writes an artifact.
    fn write_artifact(&self, artifact: Artifact) -> Result<(), FargaError>;

    /// Writes an audit entry.
    fn write_audit(&self, entry: AuditEntry) -> Result<(), FargaError>;
}

/// `base` followed by `route` and `arg`.
pub open spec fn route_url(base: Seq<char>, route: Seq<char>, arg: Seq<char>) -> Seq<char> {
    base + route + arg
}

fn join_route(base: &str, path: &str, arg: &str) -> (r: String)
    ensures
        r@ == route_url(base@, path@, arg@),
{
    cat(cat(base, path).as_str(), arg)
}

/// The URL of the org document of `org`.
pub fn org_url(base: &str, org: &str) -> (r: String)
    ensures
        r@ == route_url(base@, "/context/org/"@, org@),
{
    join_route(base, "/context/org/", org)
}

/// The URL of the initiative documents of `org`.
pub fn initiatives_url(base: &str, org: &str) -> (r: String)
    ensures
        r@ == route_url(base@, "/context/initiatives/"@, org@),
{
    join_route(base, "/context/initiatives/", org)
}

/// The URL of the project document of `project`.
pub fn project_url(base: &str, project: &str) -> (r: String)
    ensures
        r@ == route_url(base@, "/context/project/"@, project@),
{
    join_route(base, "/context/project/", project)
}

/// The URL of the document of the component at `path` in `project`.
pub fn component_url(base: &str, project: &str, path: &str) -> (r: String)
    ensures
        r@ == base@ + "/context/component/"@ + project@ + "/"@ + path@,
{
    let a = join_route(base, "/context/component/", project);
    cat(cat(a.as_str(), "/").as_str(), path)
}

/// The URL of the recent signals of `project` within `since_hours`.
pub fn recent_signals_url(base: &str, project: &str, since_hours: u64) -> (r: String)
    ensures
        r@ == base@ + "/signals/recent?project="@ + project@ + "&since="@ + decimal(since_hours as nat) + "h"@,
{
    let a = join_route(base, "/signals/recent?project=", project);
    let b = cat(a.as_str(), "&since=");
    let h = u64_to_decimal(since_hours);
    cat(cat(b.as_str(), h.as_str()).as_str(), "h")
}

/// The URL that signals are posted to.
pub fn signals_url(base: &str) -> (r: String)
    ensures
        r@ == base@ + "/signals"@,
{
    cat(base, "/signals")
}

/// The URL that artifacts are posted to.
pub fn artifacts_url(base: &str) -> (r: String)
    ensures
        r@ == base@ + "/artifacts"@,
{
    cat(base, "/artifacts")
}

/// The URL of the artifacts of `project`.
pub fn project_artifacts_url(base: &str, project: &str) -> (r: String)
    ensures
        r@ == route_url(base@, "/artifacts/"@, project@),
{
    join_route(base, "/artifacts/", project)
}

/// The URL that audit entries are posted to.
pub fn audit_url(base: &str) -> (r: String)
    ensures
        r@ == base@ + "/audit"@,
{
    cat(base, "/audit")
}

/// The initiative documents of a list of texts, in order.
pub fn initiatives_from(items: Vec<String>) -> (r: Vec<InitiativeContext>)
    ensures
        r@.len() == items@.len(),
        forall|i: int| 0 <= i < items@.len() ==> (#[trigger] r@[i]).content == items@[i],
{
    let mut r: Vec<InitiativeContext> = Vec::new();
    let mut rest = items;
    let ghost all = rest@;
    let mut k: usize = 0;
    while k < rest.len()
        invariant
            rest@ == all,
            k <= all.len(),
            r@.len() == k,
            forall|i: int| 0 <= i < k ==> (#[trigger] r@[i]).content == all[i],
        decreases all.len() - k,
    {
        r.push(InitiativeContext { content: rest[k].clone() });
        k = k + 1;
    }
    r
}

/// Which context document the command-line tool reads.
pub enum ContextKind {
    Org { org: String },
    Project { project: String },
    Component { project: String, path: String },
}

/// The URL of the context document that `kind` names.
pub fn context_url(base: &str, kind: &ContextKind) -> (r: String)
    ensures
        r@ == match kind {
            ContextKind::Org { org } => route_url(base@, "/context/org/"@, org@),
            ContextKind::Project { project } => route_url(base@, "/context/project/"@, project@),
            ContextKind::Component { project, path } => base@ + "/context/component/"@ + project@ + "/"@ + path@,
        },
{
    match kind {
        ContextKind::Org { org } => org_url(base, org.as_str()),
        ContextKind::Project { project } => project_url(base, project.as_str()),
        ContextKind::Component { project, path } => component_url(base, project.as_str(), path.as_str()),
    }
}

/// The actions on optimizer proposals.
pub enum ProposalAction {
    List,
    Trigger,
}

/// What the command-line tool answers for a proposals action: the
/// optimizer is not available yet, whichever action is asked.
pub fn proposals_notice(action: &ProposalAction) -> (r: &'static str)
    ensures
        r@ == "proposals: not yet implemented (optimizer agent scheduled for v0.2.0)"@,
{
    match action {
        ProposalAction::List => "proposals: not yet implemented (optimizer agent scheduled for v0.2.0)",
        ProposalAction::Trigger => "proposals: not yet implemented (optimizer agent scheduled for v0.2.0)",
    }
}

/// The line printed for a signal: its source in brackets, then its content.
pub fn signal_line(s: &Signal) -> (r: String)
    ensures
        r@ == "["@ + s.source@ + "] "@ + s.content@,
{
    cat(cat(cat("[", s.source.as_str()).as_str(), "] ").as_str(), s.content.as_str())
}

/// The closing line of a signal listing: how many signals there were.
pub fn signal_count_line(n: usize) -> (r: String)
    ensures
        r@ == decimal(n as nat) + " signals"@,
{
    cat(u64_to_decimal(n as u64).as_str(), " signals")
}

/// The line printed for an artifact: its title, or `?` where it has none.
pub fn artifact_line(title: Option<String>) -> (r: String)
    ensures
        r@ == "- "@ + match title {
            Some(t) => t@,
            None => "?"@,
        },
{
    match title {
        Some(t) => cat("- ", t.as_str()),
        None => cat("- ", "?"),
    }
}

} // verus!

//! The MCP (Model Context Protocol) server: JSON-RPC 2.0 requests carrying
//! `initialize`, `tools/list`, `tools/call` and notifications, answered
//! with JSON results or errors.

use vstd::prelude::*;
use crate::kinds::str_eq;
use crate::json::{Json, JsonV, jv, jv_list, jv_members, lookup, member, json_copy, json_text, member_of, lemma_jv_list, lemma_jv_members};
use crate::store::Store;
use crate::tools::{arg_or, arg_text, tool_outcome, call_tool_at, rv, message};

verus! {

/// A JSON-RPC request.
pub struct JsonRpcRequest {
    pub id: Option<Json>,
    pub method: String,
    pub params: Option<Json>,
}

/// The error member of a JSON-RPC response.
pub struct JsonRpcError {
    pub code: i32,
    pub message: String,
}

/// A JSON-RPC response: a result or an error, under the request's id.
pub struct JsonRpcResponse {
    pub jsonrpc: String,
    pub id: Option<Json>,
    pub result: Option<Json>,
    pub error: Option<JsonRpcError>,
}

/// The error code of a failed call: internal error.
pub const INTERNAL_ERROR: i32 = -32603i32;

/// An optional JSON value, by value.
pub open spec fn opt_jv(o: Option<Json>) -> Option<JsonV> {
    match o {
        Some(j) => Some(jv(j)),
        None => None,
    }
}

/// A copy of an optional JSON value.
pub fn opt_json_copy(o: &Option<Json>) -> (r: Option<Json>)
    ensures
        opt_jv(r) == opt_jv(*o),
{
    match o {
        Some(j) => Some(json_copy(j)),
        None => None,
    }
}

impl JsonRpcResponse {
    /// A successful response.
    pub fn ok(id: Option<Json>, result: Json) -> (r: Self)
        ensures
            r.jsonrpc@ == "2.0"@,
            r.id == id,
            r.result == Some(result),
            r.error is None,
    {
        JsonRpcResponse { jsonrpc: String::from_str("2.0"), id, result: Some(result), error: None }
    }

    /// A failed response.
    pub fn err(id: Option<Json>, code: i32, message: String) -> (r: Self)
        ensures
            r.jsonrpc@ == "2.0"@,
            r.id == id,
            r.result is None,
            r.error matches Some(e) && e.code == code && e.message == message,
    {
        JsonRpcResponse { jsonrpc: String::from_str("2.0"), id, result: None, error: Some(JsonRpcError { code, message }) }
    }
}

/// The result of a tool call that answers `text`.
pub open spec fn text_result_v(text: Seq<char>) -> JsonV {
    JsonV::Object(
        seq![
            ("content"@, JsonV::Array(seq![JsonV::Object(seq![("type"@, JsonV::Str("text"@)), ("text"@, JsonV::Str(text))])])),
        ],
    )
}

/// The result of a tool call that answers `text`: one text content item.
pub fn text_result(text: String) -> (j: Json)
    ensures
        jv(j) == text_result_v(text@),
{
    let ghost t = text@;
    let inner = vec![member_of("type", json_text("text")), member_of("text", Json::Str(text))];
    proof {
        lemma_jv_members(inner@);
        assert(jv_members(inner@) =~= seq![("type"@, JsonV::Str("text"@)), ("text"@, JsonV::Str(t))]);
    }
    let item = Json::Object(inner);
    let items = vec![item];
    proof {
        lemma_jv_list(items@);
        assert(jv_list(items@) =~= seq![jv(item)]);
    }
    let outer = vec![member_of("content", Json::Array(items))];
    proof {
        lemma_jv_members(outer@);
        assert(jv_members(outer@) =~= seq![("content"@, jv(outer@[0].1))]);
    }
    Json::Object(outer)
}

/// The answer to `initialize`: the protocol version, the tools capability
/// and the server's name and version.
pub open spec fn initialize_v() -> JsonV {
    JsonV::Object(
        seq![
            ("protocolVersion"@, JsonV::Str("2024-11-05"@)),
            ("capabilities"@, JsonV::Object(seq![("tools"@, JsonV::Object(Seq::empty()))])),
            ("serverInfo"@, JsonV::Object(seq![("name"@, JsonV::Str("farga"@)), ("version"@, JsonV::Str("0.1.0"@))])),
        ],
    )
}

/// See `initialize_v`.
pub fn initialize_result() -> (j: Json)
    ensures
        jv(j) == initialize_v(),
{
    let no_members: Vec<(String, Json)> = Vec::new();
    let empty = Json::Object(no_members);
    proof {
        assert(jv_members(no_members@) =~= Seq::<(Seq<char>, JsonV)>::empty());
    }
    let caps = vec![member_of("tools", empty)];
    proof {
        lemma_jv_members(caps@);
        assert(jv_members(caps@) =~= seq![("tools"@, JsonV::Object(Seq::empty()))]);
    }
    let info = vec![member_of("name", json_text("farga")), member_of("version", json_text("0.1.0"))];
    proof {
        lemma_jv_members(info@);
        assert(jv_members(info@) =~= seq![("name"@, JsonV::Str("farga"@)), ("version"@, JsonV::Str("0.1.0"@))]);
    }
    let ghost caps_v = jv(Json::Object(caps));
    let ghost info_v = jv(Json::Object(info));
    let top = vec![
        member_of("protocolVersion", json_text("2024-11-05")),
        member_of("capabilities", Json::Object(caps)),
        member_of("serverInfo", Json::Object(info)),
    ];
    proof {
        lemma_jv_members(top@);
        assert(jv_members(top@) =~= seq![
            ("protocolVersion"@, JsonV::Str("2024-11-05"@)),
            ("capabilities"@, caps_v),
            ("serverInfo"@, info_v),
        ]);
    }
    Json::Object(top)
}

/// The name of the `i`-th tool that `tools/list` advertises.
pub open spec fn tool_name(i: int) -> Seq<char> {
    if i == 0 {
        "write_signal"@
    } else if i == 1 {
        "read_context"@
    } else if i == 2 {
        "write_artifact"@
    } else if i == 3 {
        "search_signals"@
    } else if i == 4 {
        "list_projects"@
    } else if i == 5 {
        "update_component_todo"@
    } else if i == 6 {
        "write_context_node"@
    } else if i == 7 {
        "read_context_node"@
    } else {
        "list_context_nodes"@
    }
}

/// `v` is the tool listing: an object whose one member `tools` is an array
/// of nine tool descriptions, each an object of three members whose first
/// is the tool's `name`.
pub open spec fn lists_tools(v: JsonV) -> bool {
    &&& v matches JsonV::Object(ms)
    &&& ms.len() == 1
    &&& ms[0].0 == "tools"@
    &&& ms[0].1 matches JsonV::Array(ts)
    &&& ts.len() == 9
    &&& forall|i: int|
        0 <= i < 9 ==> (#[trigger] ts[i] matches JsonV::Object(fs) && fs.len() == 3 && fs[0] == (
            "name"@,
            JsonV::Str(tool_name(i)),
        ))
}

/// A tool description: its name, its description and the schema of its
/// arguments.
fn tool(name: &str, description: &str, schema: Json) -> (t: Json)
    ensures
        jv(t) == JsonV::Object(
            seq![
                ("name"@, JsonV::Str(name@)),
                ("description"@, JsonV::Str(description@)),
                ("inputSchema"@, jv(schema)),
            ],
        ),
{
    let ghost sv = jv(schema);
    let ms = vec![
        member_of("name", json_text(name)),
        member_of("description", json_text(description)),
        member_of("inputSchema", schema),
    ];
    proof {
        lemma_jv_members(ms@);
        assert(jv_members(ms@) =~= seq![
            ("name"@, JsonV::Str(name@)),
            ("description"@, JsonV::Str(description@)),
            ("inputSchema"@, sv),
        ]);
    }
    Json::Object(ms)
}

/// The schema of an argument property of type `ty`, with a description
/// where one is given.
pub open spec fn property_v(ty: Seq<char>, description: Option<Seq<char>>) -> JsonV {
    match description {
        Some(d) => JsonV::Object(seq![("type"@, JsonV::Str(ty)), ("description"@, JsonV::Str(d))]),
        None => JsonV::Object(seq![("type"@, JsonV::Str(ty))]),
    }
}

/// An optional text read as `Option<Seq<char>>`.
pub open spec fn opt_str_view(o: Option<&str>) -> Option<Seq<char>> {
    match o {
        Some(d) => Some(d@),
        None => None,
    }
}

/// An argument property named `name` of type `ty`, with a description
/// where one is given (see `property_v`).
fn property(name: &str, ty: &str, description: Option<&str>) -> (p: (String, Json))
    ensures
        p.0@ == name@,
        jv(p.1) == property_v(ty@, opt_str_view(description)),
{
    let mut fields = vec![member_of("type", json_text(ty))];
    match description {
        Some(d) => fields.push(member_of("description", json_text(d))),
        None => {},
    }
    proof {
        lemma_jv_members(fields@);
        match description {
            Some(d) => {
                assert(jv_members(fields@) =~= seq![("type"@, JsonV::Str(ty@)), ("description"@, JsonV::Str(d@))]);
            },
            None => {
                assert(jv_members(fields@) =~= seq![("type"@, JsonV::Str(ty@))]);
            },
        }
    }
    member_of(name, Json::Object(fields))
}

/// The schema of an object argument: type `object`, the given properties,
/// and the list of required argument names where one is given.
pub open spec fn object_schema_v(properties: Seq<(Seq<char>, JsonV)>, required: Option<Seq<JsonV>>) -> JsonV {
    let base = seq![("type"@, JsonV::Str("object"@)), ("properties"@, JsonV::Object(properties))];
    match required {
        Some(names) => JsonV::Object(base.push(("required"@, JsonV::Array(names)))),
        None => JsonV::Object(base),
    }
}

/// Names as JSON strings.
pub open spec fn names_v(names: Seq<&str>) -> Seq<JsonV> {
    names.map_values(|n: &str| JsonV::Str(n@))
}

/// The schema of an object argument with the given properties, and the
/// list of required ones where one is given (see `object_schema_v`).
fn object_schema(properties: Vec<(String, Json)>, required: Option<Vec<&str>>) -> (j: Json)
    ensures
        jv(j) == object_schema_v(
            jv_members(properties@),
            match required {
                Some(names) => Some(names_v(names@)),
                None => None,
            },
        ),
{
    let ghost pv = jv_members(properties@);
    let mut fields = vec![member_of("type", json_text("object")), member_of("properties", Json::Object(properties))];
    let ghost base = seq![("type"@, JsonV::Str("object"@)), ("properties"@, JsonV::Object(pv))];
    proof {
        lemma_jv_members(fields@);
        assert(jv_members(fields@) =~= base);
    }
    match required {
        Some(names) => {
            let mut items: Vec<Json> = Vec::new();
            for i in 0..names.len()
                invariant
                    items@.len() == i,
                    forall|k: int| 0 <= k < i ==> jv(#[trigger] items@[k]) == JsonV::Str(names@[k]@),
            {
                items.push(json_text(names[i]));
            }
            proof {
                lemma_jv_list(items@);
                assert(jv_list(items@) =~= names_v(names@));
            }
            let ghost before = fields@;
            fields.push(member_of("required", Json::Array(items)));
            proof {
                lemma_jv_members(fields@);
                lemma_jv_members(before);
                assert(jv_members(fields@) =~= base.push(("required"@, JsonV::Array(names_v(names@)))));
            }
        },
        None => {},
    }
    Json::Object(fields)
}

/// An argument property of the listing: its name and schema.
pub open spec fn prop_v(name: Seq<char>, ty: Seq<char>, description: Option<Seq<char>>) -> (Seq<char>, JsonV) {
    (name, property_v(ty, description))
}

/// A tool description of the listing: its name, its description, and the
/// schema of its arguments.
pub open spec fn tool_v(
    name: Seq<char>,
    description: Seq<char>,
    properties: Seq<(Seq<char>, JsonV)>,
    required: Option<Seq<JsonV>>,
) -> JsonV {
    JsonV::Object(
        seq![
            ("name"@, JsonV::Str(name)),
            ("description"@, JsonV::Str(description)),
            ("inputSchema"@, object_schema_v(properties, required)),
        ],
    )
}

/// The description of the tool `write_signal`.
pub open spec fn tool_0_v() -> JsonV {
    tool_v(
        "write_signal"@,
        "Write an observation, event, or decision to Farga's project memory. Use this to record what happened, what was decided, and why."@,
        seq![
            prop_v("project"@, "string"@, Some("Project identifier (e.g. 'occitan', 'farga')"@)),
            prop_v("content"@, "string"@, Some("The signal content — what happened or was decided"@)),
            prop_v("source"@, "string"@, Some("Source of this signal (e.g. 'guilhem', 'farga/architect')"@)),
            prop_v("ttl_hours"@, "integer"@, Some("Hours after which the signal expires (optional, positive)"@)),
            prop_v("supersedes"@, "string"@, Some("Id of an earlier signal that this one replaces (optional)"@)),
        ],
        Some(seq![JsonV::Str("project"@), JsonV::Str("content"@)]),
    )
}

/// The description of the tool `read_context`.
pub open spec fn tool_1_v() -> JsonV {
    tool_v(
        "read_context"@,
        "Read the current context for a project as markdown. Returns accumulated signals, artifacts, project documentation, and context graph nodes."@,
        seq![
            prop_v("project"@, "string"@, Some("Project identifier"@)),
            prop_v("role"@, "string"@, Some("Your role for context graph access: component | architect | org | human (optional, defaults to component)"@)),
        ],
        Some(seq![JsonV::Str("project"@)]),
    )
}

/// The description of the tool `write_artifact`.
pub open spec fn tool_2_v() -> JsonV {
    tool_v(
        "write_artifact"@,
        "Store a structured artifact in Farga: design document, ADR, test plan, implementation notes, or any durable output from a session."@,
        seq![
            prop_v("project"@, "string"@, Some("Project identifier"@)),
            prop_v("title"@, "string"@, Some("Artifact title"@)),
            prop_v("content"@, "string"@, Some("Artifact content (markdown)"@)),
            prop_v("kind"@, "string"@, Some("Artifact kind: 'adr', 'design', 'test-plan', 'implementation-notes', 'decision'"@)),
        ],
        Some(seq![JsonV::Str("project"@), JsonV::Str("title"@), JsonV::Str("content"@), JsonV::Str("kind"@)]),
    )
}

/// The description of the tool `search_signals`.
pub open spec fn tool_3_v() -> JsonV {
    tool_v(
        "search_signals"@,
        "Retrieve recent signals for a project. Useful for catching up on what has happened before acting."@,
        seq![
            prop_v("project"@, "string"@, Some("Project identifier"@)),
            prop_v("since"@, "string"@, Some("ISO 8601 timestamp — only return signals after this time (optional)"@)),
        ],
        Some(seq![JsonV::Str("project"@)]),
    )
}

/// The description of the tool `list_projects`.
pub open spec fn tool_4_v() -> JsonV {
    tool_v(
        "list_projects"@,
        "List all known projects in Farga."@,
        Seq::<(Seq<char>, JsonV)>::empty(),
        None,
    )
}

/// The description of the tool `update_component_todo`.
pub open spec fn tool_5_v() -> JsonV {
    tool_v(
        "update_component_todo"@,
        "Create or update the TODO/follow-up record for a specific component within a project. Use this to log deferred work or known drift instead of leaving it unrecorded — each (project, component) pair has exactly one live record, overwritten on each call."@,
        seq![
            prop_v("project"@, "string"@, Some("Project identifier"@)),
            prop_v("component"@, "string"@, Some("Component name within the project (e.g. 'gardian', 'caissa-listen')"@)),
            prop_v("content"@, "string"@, Some("The TODO content — what's deferred and why"@)),
        ],
        Some(seq![JsonV::Str("project"@), JsonV::Str("component"@), JsonV::Str("content"@)]),
    )
}

/// The description of the tool `write_context_node`.
pub open spec fn tool_6_v() -> JsonV {
    tool_v(
        "write_context_node"@,
        "Write a typed context node to the Farga context graph. Context nodes are role-scoped knowledge artifacts: codebase references, architecture summaries, design rationale, etc. Identified by hierarchical path like [gardian][codebase] or [occitan][system-rationale]."@,
        seq![
            prop_v("path"@, "string"@, Some("Hierarchical path, e.g. [gardian][codebase] or [occitan][system-rationale]"@)),
            prop_v("node_type"@, "string"@, Some("Node type: codebase-ref | architecture | rationale | persona | decision | design"@)),
            prop_v("content"@, "string"@, Some("Node content (markdown, reference URL, or structured text)"@)),
            prop_v("read_role"@, "string"@, Some("Minimum role to read: component | architect | org | human"@)),
            prop_v("project"@, "string"@, Some("Project identifier"@)),
            prop_v("component"@, "string"@, Some("Component name (optional)"@)),
        ],
        Some(seq![JsonV::Str("path"@), JsonV::Str("node_type"@), JsonV::Str("content"@), JsonV::Str("read_role"@), JsonV::Str("project"@)]),
    )
}

/// The description of the tool `read_context_node`.
pub open spec fn tool_7_v() -> JsonV {
    tool_v(
        "read_context_node"@,
        "Read a specific context node by path. Returns the node content if your role permits access."@,
        seq![
            prop_v("path"@, "string"@, None),
            prop_v("role"@, "string"@, Some("Your role: component | architect | org | human"@)),
        ],
        Some(seq![JsonV::Str("path"@), JsonV::Str("role"@)]),
    )
}

/// The description of the tool `list_context_nodes`.
pub open spec fn tool_8_v() -> JsonV {
    tool_v(
        "list_context_nodes"@,
        "List context nodes accessible to your role for a project. Returns paths and node types."@,
        seq![
            prop_v("project"@, "string"@, None),
            prop_v("role"@, "string"@, Some("Your role: component | architect | org | human"@)),
        ],
        Some(seq![JsonV::Str("project"@), JsonV::Str("role"@)]),
    )
}

/// The whole tool listing that `tools/list` answers: the nine tools, in
/// order, each with its description and argument schema.
pub open spec fn tool_list_v() -> JsonV {
    JsonV::Object(
        seq![
            (
                "tools"@,
                JsonV::Array(
                    seq![tool_0_v(), tool_1_v(), tool_2_v(), tool_3_v(), tool_4_v(), tool_5_v(), tool_6_v(), tool_7_v(), tool_8_v()],
                ),
            ),
        ],
    )
}

/// The tool listing that `tools/list` answers (see `tool_list_v`).
pub fn tool_list() -> (j: Json)
    ensures
        jv(j) == tool_list_v(),
        lists_tools(jv(j)),
{
    let props0 = vec![
        property("project", "string", Some("Project identifier (e.g. 'occitan', 'farga')")),
        property("content", "string", Some("The signal content — what happened or was decided")),
        property("source", "string", Some("Source of this signal (e.g. 'guilhem', 'farga/architect')")),
        property("ttl_hours", "integer", Some("Hours after which the signal expires (optional, positive)")),
        property("supersedes", "string", Some("Id of an earlier signal that this one replaces (optional)")),
    ];
    proof {
        lemma_jv_members(props0@);
        assert(jv_members(props0@) =~= seq![
            prop_v("project"@, "string"@, Some("Project identifier (e.g. 'occitan', 'farga')"@)),
            prop_v("content"@, "string"@, Some("The signal content — what happened or was decided"@)),
            prop_v("source"@, "string"@, Some("Source of this signal (e.g. 'guilhem', 'farga/architect')"@)),
            prop_v("ttl_hours"@, "integer"@, Some("Hours after which the signal expires (optional, positive)"@)),
            prop_v("supersedes"@, "string"@, Some("Id of an earlier signal that this one replaces (optional)"@)),
        ]);
    }
    let req0 = vec!["project", "content"];
    proof {
        assert(names_v(req0@) =~= seq![JsonV::Str("project"@), JsonV::Str("content"@)]);
    }
    let t0 = tool(
        "write_signal",
        "Write an observation, event, or decision to Farga's project memory. Use this to record what happened, what was decided, and why.",
        object_schema(props0, Some(req0)),
    );
    assert(jv(t0) == tool_0_v());
    let props1 = vec![
        property("project", "string", Some("Project identifier")),
        property("role", "string", Some("Your role for context graph access: component | architect | org | human (optional, defaults to component)")),
    ];
    proof {
        lemma_jv_members(props1@);
        assert(jv_members(props1@) =~= seq![
            prop_v("project"@, "string"@, Some("Project identifier"@)),
            prop_v("role"@, "string"@, Some("Your role for context graph access: component | architect | org | human (optional, defaults to component)"@)),
        ]);
    }
    let req1 = vec!["project"];
    proof {
        assert(names_v(req1@) =~= seq![JsonV::Str("project"@)]);
    }
    let t1 = tool(
        "read_context",
        "Read the current context for a project as markdown. Returns accumulated signals, artifacts, project documentation, and context graph nodes.",
        object_schema(props1, Some(req1)),
    );
    assert(jv(t1) == tool_1_v());
    let props2 = vec![
        property("project", "string", Some("Project identifier")),
        property("title", "string", Some("Artifact title")),
        property("content", "string", Some("Artifact content (markdown)")),
        property("kind", "string", Some("Artifact kind: 'adr', 'design', 'test-plan', 'implementation-notes', 'decision'")),
    ];
    proof {
        lemma_jv_members(props2@);
        assert(jv_members(props2@) =~= seq![
            prop_v("project"@, "string"@, Some("Project identifier"@)),
            prop_v("title"@, "string"@, Some("Artifact title"@)),
            prop_v("content"@, "string"@, Some("Artifact content (markdown)"@)),
            prop_v("kind"@, "string"@, Some("Artifact kind: 'adr', 'design', 'test-plan', 'implementation-notes', 'decision'"@)),
        ]);
    }
    let req2 = vec!["project", "title", "content", "kind"];
    proof {
        assert(names_v(req2@) =~= seq![JsonV::Str("project"@), JsonV::Str("title"@), JsonV::Str("content"@), JsonV::Str("kind"@)]);
    }
    let t2 = tool(
        "write_artifact",
        "Store a structured artifact in Farga: design document, ADR, test plan, implementation notes, or any durable output from a session.",
        object_schema(props2, Some(req2)),
    );
    assert(jv(t2) == tool_2_v());
    let props3 = vec![
        property("project", "string", Some("Project identifier")),
        property("since", "string", Some("ISO 8601 timestamp — only return signals after this time (optional)")),
    ];
    proof {
        lemma_jv_members(props3@);
        assert(jv_members(props3@) =~= seq![
            prop_v("project"@, "string"@, Some("Project identifier"@)),
            prop_v("since"@, "string"@, Some("ISO 8601 timestamp — only return signals after this time (optional)"@)),
        ]);
    }
    let req3 = vec!["project"];
    proof {
        assert(names_v(req3@) =~= seq![JsonV::Str("project"@)]);
    }
    let t3 = tool(
        "search_signals",
        "Retrieve recent signals for a project. Useful for catching up on what has happened before acting.",
        object_schema(props3, Some(req3)),
    );
    assert(jv(t3) == tool_3_v());
    let props4: Vec<(String, Json)> = Vec::new();
    proof {
        lemma_jv_members(props4@);
        assert(jv_members(props4@) =~= Seq::<(Seq<char>, JsonV)>::empty());
    }
    let t4 = tool(
        "list_projects",
        "List all known projects in Farga.",
        object_schema(props4, None),
    );
    assert(jv(t4) == tool_4_v());
    let props5 = vec![
        property("project", "string", Some("Project identifier")),
        property("component", "string", Some("Component name within the project (e.g. 'gardian', 'caissa-listen')")),
        property("content", "string", Some("The TODO content — what's deferred and why")),
    ];
    proof {
        lemma_jv_members(props5@);
        assert(jv_members(props5@) =~= seq![
            prop_v("project"@, "string"@, Some("Project identifier"@)),
            prop_v("component"@, "string"@, Some("Component name within the project (e.g. 'gardian', 'caissa-listen')"@)),
            prop_v("content"@, "string"@, Some("The TODO content — what's deferred and why"@)),
        ]);
    }
    let req5 = vec!["project", "component", "content"];
    proof {
        assert(names_v(req5@) =~= seq![JsonV::Str("project"@), JsonV::Str("component"@), JsonV::Str("content"@)]);
    }
    let t5 = tool(
        "update_component_todo",
        "Create or update the TODO/follow-up record for a specific component within a project. Use this to log deferred work or known drift instead of leaving it unrecorded — each (project, component) pair has exactly one live record, overwritten on each call.",
        object_schema(props5, Some(req5)),
    );
    assert(jv(t5) == tool_5_v());
    let props6 = vec![
        property("path", "string", Some("Hierarchical path, e.g. [gardian][codebase] or [occitan][system-rationale]")),
        property("node_type", "string", Some("Node type: codebase-ref | architecture | rationale | persona | decision | design")),
        property("content", "string", Some("Node content (markdown, reference URL, or structured text)")),
        property("read_role", "string", Some("Minimum role to read: component | architect | org | human")),
        property("project", "string", Some("Project identifier")),
        property("component", "string", Some("Component name (optional)")),
    ];
    proof {
        lemma_jv_members(props6@);
        assert(jv_members(props6@) =~= seq![
            prop_v("path"@, "string"@, Some("Hierarchical path, e.g. [gardian][codebase] or [occitan][system-rationale]"@)),
            prop_v("node_type"@, "string"@, Some("Node type: codebase-ref | architecture | rationale | persona | decision | design"@)),
            prop_v("content"@, "string"@, Some("Node content (markdown, reference URL, or structured text)"@)),
            prop_v("read_role"@, "string"@, Some("Minimum role to read: component | architect | org | human"@)),
            prop_v("project"@, "string"@, Some("Project identifier"@)),
            prop_v("component"@, "string"@, Some("Component name (optional)"@)),
        ]);
    }
    let req6 = vec!["path", "node_type", "content", "read_role", "project"];
    proof {
        assert(names_v(req6@) =~= seq![JsonV::Str("path"@), JsonV::Str("node_type"@), JsonV::Str("content"@), JsonV::Str("read_role"@), JsonV::Str("project"@)]);
    }
    let t6 = tool(
        "write_context_node",
        "Write a typed context node to the Farga context graph. Context nodes are role-scoped knowledge artifacts: codebase references, architecture summaries, design rationale, etc. Identified by hierarchical path like [gardian][codebase] or [occitan][system-rationale].",
        object_schema(props6, Some(req6)),
    );
    assert(jv(t6) == tool_6_v());
    let props7 = vec![
        property("path", "string", None),
        property("role", "string", Some("Your role: component | architect | org | human")),
    ];
    proof {
        lemma_jv_members(props7@);
        assert(jv_members(props7@) =~= seq![
            prop_v("path"@, "string"@, None),
            prop_v("role"@, "string"@, Some("Your role: component | architect | org | human"@)),
        ]);
    }
    let req7 = vec!["path", "role"];
    proof {
        assert(names_v(req7@) =~= seq![JsonV::Str("path"@), JsonV::Str("role"@)]);
    }
    let t7 = tool(
        "read_context_node",
        "Read a specific context node by path. Returns the node content if your role permits access.",
        object_schema(props7, Some(req7)),
    );
    assert(jv(t7) == tool_7_v());
    let props8 = vec![
        property("project", "string", None),
        property("role", "string", Some("Your role: component | architect | org | human")),
    ];
    proof {
        lemma_jv_members(props8@);
        assert(jv_members(props8@) =~= seq![
            prop_v("project"@, "string"@, None),
            prop_v("role"@, "string"@, Some("Your role: component | architect | org | human"@)),
        ]);
    }
    let req8 = vec!["project", "role"];
    proof {
        assert(names_v(req8@) =~= seq![JsonV::Str("project"@), JsonV::Str("role"@)]);
    }
    let t8 = tool(
        "list_context_nodes",
        "List context nodes accessible to your role for a project. Returns paths and node types.",
        object_schema(props8, Some(req8)),
    );
    assert(jv(t8) == tool_8_v());
    let ghost vs = seq![jv(t0), jv(t1), jv(t2), jv(t3), jv(t4), jv(t5), jv(t6), jv(t7), jv(t8)];
    let tools = vec![t0, t1, t2, t3, t4, t5, t6, t7, t8];
    proof {
        lemma_jv_list(tools@);
        assert(jv_list(tools@) =~= vs);
    }
    let ghost tv = jv(Json::Array(tools));
    let top = vec![member_of("tools", Json::Array(tools))];
    proof {
        lemma_jv_members(top@);
        assert(jv_members(top@) =~= seq![("tools"@, tv)]);
        assert forall|i: int|
            0 <= i < 9 implies (#[trigger] vs[i] matches JsonV::Object(fs) && fs.len() == 3 && fs[0] == (
                "name"@,
                JsonV::Str(tool_name(i)),
            )) by {
            if i == 0 {
            } else if i == 1 {
            } else if i == 2 {
            } else if i == 3 {
            } else if i == 4 {
            } else if i == 5 {
            } else if i == 6 {
            } else if i == 7 {
            } else {
            }
        }
    }
    Json::Object(top)
}

/// The parameters of a call, `null` where there are none.
pub open spec fn call_params(params: Option<Json>) -> Json {
    match params {
        Some(p) => p,
        None => Json::Null,
    }
}

/// The `arguments` member of the parameters, `null` where there is none.
pub open spec fn call_args(p: Json) -> Json {
    match lookup(p, "arguments"@) {
        Some(a) => a,
        None => Json::Null,
    }
}

/// `r` carries the outcome `t` of a tool call: its text as a text result,
/// or its error message.
pub open spec fn text_reply(r: Result<Json, String>, t: Result<Seq<char>, Seq<char>>) -> bool {
    match t {
        Ok(text) => r matches Ok(j) && jv(j) == text_result_v(text),
        Err(m) => r matches Err(e) && e@ == m,
    }
}

/// The outcome of the JSON-RPC method `method` with `params` at `now`,
/// `fresh` being the identifier a created node gets.
pub open spec fn dispatched(
    s0: Store,
    s1: Store,
    method: Seq<char>,
    params: Option<Json>,
    now: i64,
    fresh: Seq<char>,
    r: Result<Json, String>,
) -> bool {
    if method == "initialize"@ {
        s1 == s0 && (r matches Ok(j) && jv(j) == initialize_v())
    } else if method == "tools/list"@ {
        s1 == s0 && (r matches Ok(j) && jv(j) == tool_list_v() && lists_tools(jv(j)))
    } else if method == "tools/call"@ {
        exists|t: Result<Seq<char>, Seq<char>>|
            #![trigger tool_outcome(arg_or(call_params(params), "name"@, ""@), s0, s1, call_args(call_params(params)), now, fresh, t)]
            tool_outcome(
                arg_or(call_params(params), "name"@, ""@),
                s0,
                s1,
                call_args(call_params(params)),
                now,
                fresh,
                t,
            ) && text_reply(r, t)
    } else if method == "notifications/initialized"@ {
        s1 == s0 && (r matches Ok(j) && jv(j) == JsonV::Object(Seq::empty()))
    } else {
        s1 == s0 && (r matches Err(e) && e@ == "unknown method: "@ + method)
    }
}

/// Runs the JSON-RPC method `method` at `now` (see `dispatched`).
pub fn dispatch_at(store: &mut Store, method: &str, params: &Option<Json>, now: i64, fresh_id: String) -> (r: Result<
    Json,
    String,
>)
    requires
        old(store).wf(),
    ensures
        final(store).wf(),
        dispatched(*old(store), *final(store), method@, *params, now, fresh_id@, r),
{
    if str_eq(method, "initialize") {
        Ok(initialize_result())
    } else if str_eq(method, "tools/list") {
        Ok(tool_list())
    } else if str_eq(method, "tools/call") {
        let null = Json::Null;
        let p: &Json = match params {
            Some(p) => p,
            None => &null,
        };
        let name = arg_text(p, "name", "");
        let args: &Json = match member(p, "arguments") {
            Some(a) => a,
            None => &null,
        };
        let ghost fresh = fresh_id@;
        let out = call_tool_at(store, name.as_str(), args, now, fresh_id);
        let ghost t = rv(out);
        let r = match out {
            Ok(text) => Ok(text_result(text)),
            Err(m) => Err(m),
        };
        assert(text_reply(r, t));
        r
    } else if str_eq(method, "notifications/initialized") {
        let no_members: Vec<(String, Json)> = Vec::new();
        proof {
            assert(jv_members(no_members@) =~= Seq::<(Seq<char>, JsonV)>::empty());
        }
        Ok(Json::Object(no_members))
    } else {
        Err(message("unknown method: ", method))
    }
}

/// `resp` answers request `req` whose method gave `r`: the same id, and
/// the result, or the error with code -32603 and the message.
pub open spec fn answered(req: JsonRpcRequest, resp: JsonRpcResponse, r: Result<Json, String>) -> bool {
    &&& resp.jsonrpc@ == "2.0"@
    &&& opt_jv(resp.id) == opt_jv(req.id)
    &&& match r {
        Ok(j) => resp.result == Some(j) && resp.error is None,
        Err(m) => resp.result is None && (resp.error matches Some(e) && e.code == INTERNAL_ERROR && e.message@ == m@),
    }
}

/// Answers a JSON-RPC request at `now` (see `dispatched` and `answered`).
pub fn handle_at(store: &mut Store, req: &JsonRpcRequest, now: i64, fresh_id: String) -> (resp: JsonRpcResponse)
    requires
        old(store).wf(),
    ensures
        final(store).wf(),
        exists|r: Result<Json, String>|
            #![trigger dispatched(*old(store), *final(store), req.method@, req.params, now, fresh_id@, r)]
            dispatched(*old(store), *final(store), req.method@, req.params, now, fresh_id@, r) && answered(
                *req,
                resp,
                r,
            ),
{
    let id = opt_json_copy(&req.id);
    let ghost fresh = fresh_id@;
    let r = dispatch_at(store, req.method.as_str(), &req.params, now, fresh_id);
    let ghost rg = r;
    let resp = match r {
        Ok(v) => JsonRpcResponse::ok(id, v),
        Err(m) => JsonRpcResponse::err(id, INTERNAL_ERROR, m),
    };
    assert(dispatched(*old(store), *store, req.method@, req.params, now, fresh, rg));
    assert(answered(*req, resp, rg));
    resp
}

/// Answers a JSON-RPC request now, with a fresh identifier for a node the
/// call may create (see `handle_at`).
pub fn handle(store: &mut Store, req: &JsonRpcRequest) -> (resp: JsonRpcResponse)
    requires
        old(store).wf(),
    ensures
        final(store).wf(),
        exists|r: Result<Json, String>, now: i64, fresh: Seq<char>|
            #![trigger dispatched(*old(store), *final(store), req.method@, req.params, now, fresh, r)]
            now >= 0 && crate::clock::is_uuid_v4(fresh) && dispatched(
                *old(store),
                *final(store),
                req.method@,
                req.params,
                now,
                fresh,
                r,
            ) && answered(*req, resp, r),
{
    let now = crate::clock::now_micros();
    let fresh = crate::clock::new_node_id();
    let ghost f = fresh@;
    let resp = handle_at(store, req, now, fresh);
    let ghost r = choose|r: Result<Json, String>| dispatched(*old(store), *store, req.method@, req.params, now, f, r) && answered(
        *req,
        resp,
        r,
    );
    assert(dispatched(*old(store), *store, req.method@, req.params, now, f, r));
    resp
}

} // verus!

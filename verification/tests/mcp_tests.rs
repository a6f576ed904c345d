use farga::json::{Json, JsonNumber};
use farga::mcp::{dispatch_at, handle_at, initialize_result, text_result, tool_list, JsonRpcRequest};
use farga::store::Store;
use farga::tools::{role_to_level, search_signals_text};

fn s(t: &str) -> Json {
    Json::Str(t.to_string())
}

fn obj(members: Vec<(&str, Json)>) -> Json {
    Json::Object(members.into_iter().map(|(k, v)| (k.to_string(), v)).collect())
}

fn get<'a>(j: &'a Json, key: &str) -> &'a Json {
    match j {
        Json::Object(ms) => ms.iter().find(|(k, _)| k == key).map(|(_, v)| v).unwrap_or(&Json::Null),
        _ => &Json::Null,
    }
}

fn first(j: &Json) -> &Json {
    match j {
        Json::Array(items) => items.first().unwrap_or(&Json::Null),
        _ => &Json::Null,
    }
}

fn text_of(r: &Result<Json, String>) -> String {
    match r {
        Ok(j) => match get(first(get(j, "content")), "text") {
            Json::Str(t) => t.clone(),
            _ => panic!("no text in result"),
        },
        Err(e) => panic!("unexpected error: {}", e),
    }
}

fn call(store: &mut Store, name: &str, arguments: Json, now: i64, fresh: &str) -> Result<Json, String> {
    let params = Some(obj(vec![("name", s(name)), ("arguments", arguments)]));
    dispatch_at(store, "tools/call", &params, now, fresh.to_string())
}

fn id_in(text: &str) -> String {
    text.split("id: ").nth(1).and_then(|s| s.strip_suffix(')')).unwrap().to_string()
}

#[test]
fn update_component_todo_tool_creates_and_updates_node() {
    let mut store = Store::new();
    let args = obj(vec![("project", s("occitan")), ("component", s("gardian")), ("content", s("fix flaky readiness probe"))]);
    let r = call(&mut store, "update_component_todo", args, 10, "n1");
    let text = text_of(&r);
    assert!(text.contains("Component TODO updated"), "unexpected response text: {}", text);
    let count = store
        .nodes
        .iter()
        .filter(|n| n.kind == "ComponentLayer" && n.project.as_deref() == Some("occitan") && n.component.as_deref() == Some("gardian"))
        .count();
    assert_eq!(count, 1);
}

#[test]
fn update_component_todo_tool_rejects_missing_fields() {
    let mut store = Store::new();
    let r = call(&mut store, "update_component_todo", obj(vec![("project", s("occitan"))]), 10, "n1");
    assert_eq!(r.err().as_deref(), Some("component is required"));
    assert!(store.nodes.is_empty());
}

#[test]
fn write_signal_with_ttl_sets_expires_at() {
    let mut store = Store::new();
    let args = obj(vec![
        ("project", s("occitan")),
        ("content", s("health check OK")),
        ("source", s("sre-watchdog")),
        ("ttl_hours", Json::Number(JsonNumber::PosInt(1))),
    ]);
    let text = text_of(&call(&mut store, "write_signal", args, 1_000, "sig-1"));
    assert!(text.contains("Signal written"), "unexpected: {}", text);
    let id = id_in(&text);
    assert_eq!(id, "sig-1");
    let row = store.nodes.iter().find(|n| n.id == id).expect("signal node not found");
    assert_eq!(row.expires_at, Some(1_000 + 3_600_000_000));
}

#[test]
fn search_signals_excludes_expired_signals() {
    let mut store = Store::new();
    let args = obj(vec![
        ("project", s("occitan")),
        ("content", s("transient health ping")),
        ("source", s("sre-watchdog")),
        ("ttl_hours", Json::Number(JsonNumber::PosInt(1))),
    ]);
    let text = text_of(&call(&mut store, "write_signal", args, 1_000, "sig-1"));
    let id = id_in(&text);
    for row in store.nodes.iter_mut() {
        if row.id == id {
            row.expires_at = Some(500);
        }
    }
    let out = text_of(&call(&mut store, "search_signals", obj(vec![("project", s("occitan"))]), 2_000, "unused"));
    assert!(out.contains("No signals found"), "expected expired signal to be excluded, got: {}", out);
}

#[test]
fn search_signals_returns_id_in_output() {
    let mut store = Store::new();
    let args = obj(vec![("project", s("occitan")), ("content", s("component farga is healthy")), ("source", s("farga-agent"))]);
    let text = text_of(&call(&mut store, "write_signal", args, 1_000, "sig-42"));
    let id = id_in(&text);
    let out = text_of(&call(&mut store, "search_signals", obj(vec![("project", s("occitan"))]), 2_000, "unused"));
    assert!(out.contains(&id), "expected signal ID '{}' in search output, got: {}", id, out);
    assert!(out.contains("component farga is healthy"), "expected signal content in output, got: {}", out);
    assert_eq!(out, "1. [sig-42] component farga is healthy");
}

#[test]
fn write_signal_with_supersedes_marks_old_stale() {
    let mut store = Store::new();
    let old = obj(vec![("project", s("occitan")), ("content", s("guilhem /health unreachable")), ("source", s("sre-watchdog"))]);
    let old_text = text_of(&call(&mut store, "write_signal", old, 1_000, "old-1"));
    let old_id = id_in(&old_text);
    let new = obj(vec![
        ("project", s("occitan")),
        ("content", s("guilhem /health recovered")),
        ("source", s("sre-watchdog")),
        ("supersedes", s(&old_id)),
    ]);
    let new_text = text_of(&call(&mut store, "write_signal", new, 2_000, "new-1"));
    let new_id = id_in(&new_text);

    let old_row = store.nodes.iter().find(|n| n.id == old_id).unwrap();
    assert!(old_row.stale, "old signal should be marked stale");

    let edge = store.edges.iter().find(|e| e.from_id == new_id && e.to_id == old_id);
    assert!(edge.is_some(), "supersedes edge should exist");
    assert_eq!(edge.unwrap().kind, "supersedes");

    let out = text_of(&call(&mut store, "search_signals", obj(vec![("project", s("occitan"))]), 3_000, "unused"));
    assert!(!out.contains("guilhem /health unreachable"), "stale signal must not appear in search, got: {}", out);
    assert!(out.contains("guilhem /health recovered"), "new signal must appear in search, got: {}", out);
}

#[test]
fn write_signal_rejects_non_positive_ttl() {
    let mut store = Store::new();
    let args = obj(vec![
        ("project", s("occitan")),
        ("content", s("bad ttl signal")),
        ("ttl_hours", Json::Number(JsonNumber::NegInt(-1))),
    ]);
    let r = call(&mut store, "write_signal", args, 1_000, "x");
    assert_eq!(r.err().as_deref(), Some("ttl_hours must be a positive integer"));
    assert!(store.nodes.is_empty());
}

#[test]
fn write_signal_refuses_unknown_superseded_signal() {
    let mut store = Store::new();
    let args = obj(vec![("project", s("p")), ("content", s("c")), ("supersedes", s("ghost"))]);
    let r = call(&mut store, "write_signal", args, 1, "x");
    assert_eq!(r.err().as_deref(), Some("unknown signal: ghost"));
    assert!(store.nodes.is_empty());
}

#[test]
fn write_signal_requires_project_and_content() {
    let mut store = Store::new();
    let r = call(&mut store, "write_signal", obj(vec![("content", s("c"))]), 1, "x");
    assert_eq!(r.err().as_deref(), Some("project is required"));
    let r = call(&mut store, "write_signal", obj(vec![("project", s("p"))]), 1, "x");
    assert_eq!(r.err().as_deref(), Some("content is required"));
}

#[test]
fn unknown_method_and_tool_are_errors() {
    let mut store = Store::new();
    let r = dispatch_at(&mut store, "resources/list", &None, 1, "x".into());
    assert_eq!(r.err().as_deref(), Some("unknown method: resources/list"));
    let r = call(&mut store, "delete_everything", Json::Null, 1, "x");
    assert_eq!(r.err().as_deref(), Some("unknown tool: delete_everything"));
}

#[test]
fn tools_list_names_nine_tools() {
    let list = tool_list();
    let names: Vec<String> = match get(&list, "tools") {
        Json::Array(ts) => ts
            .iter()
            .map(|t| match get(t, "name") {
                Json::Str(n) => n.clone(),
                _ => panic!("tool without name"),
            })
            .collect(),
        _ => panic!("no tools"),
    };
    assert_eq!(
        names,
        vec![
            "write_signal",
            "read_context",
            "write_artifact",
            "search_signals",
            "list_projects",
            "update_component_todo",
            "write_context_node",
            "read_context_node",
            "list_context_nodes"
        ]
    );
}

#[test]
fn every_listed_tool_requires_only_listed_properties() {
    let list = tool_list();
    let tools = match get(&list, "tools") {
        Json::Array(ts) => ts.clone(),
        _ => panic!("no tools"),
    };
    assert_eq!(tools.len(), 9);
    for t in tools.iter() {
        let schema = get(t, "inputSchema");
        assert_eq!(get(schema, "type"), &s("object"));
        let props = match get(schema, "properties") {
            Json::Object(ps) => ps.iter().map(|(k, _)| k.clone()).collect::<Vec<String>>(),
            _ => panic!("properties are not an object"),
        };
        if let Json::Array(req) = get(schema, "required") {
            for r in req {
                match r {
                    Json::Str(name) => assert!(props.contains(name)),
                    _ => panic!("required name is not a string"),
                }
            }
        }
        assert!(matches!(get(t, "description"), Json::Str(d) if !d.is_empty()));
    }
    let write_signal = &tools[0];
    let schema = get(write_signal, "inputSchema");
    assert_eq!(get(schema, "required"), &Json::Array(vec![s("project"), s("content")]));
    assert_eq!(get(get(get(schema, "properties"), "ttl_hours"), "type"), &s("integer"));
    let write_artifact = &tools[2];
    assert_eq!(get(get(get(get(write_artifact, "inputSchema"), "properties"), "project"), "type"), &s("string"));
    assert_eq!(get(&tools[4], "inputSchema"), &obj(vec![("type", s("object")), ("properties", obj(vec![]))]));
}

#[test]
fn initialize_names_the_server() {
    let j = initialize_result();
    assert_eq!(get(&j, "protocolVersion"), &s("2024-11-05"));
    assert_eq!(get(get(&j, "serverInfo"), "name"), &s("farga"));
    assert_eq!(get(get(&j, "serverInfo"), "version"), &s("0.1.0"));
}

#[test]
fn text_result_wraps_one_text_item() {
    let j = text_result("hello".into());
    let item = first(get(&j, "content"));
    assert_eq!(get(item, "type"), &s("text"));
    assert_eq!(get(item, "text"), &s("hello"));
}

#[test]
fn handle_answers_errors_with_internal_error_code() {
    let mut store = Store::new();
    let req = JsonRpcRequest { id: Some(Json::Number(JsonNumber::PosInt(7))), method: "nope".into(), params: None };
    let resp = handle_at(&mut store, &req, 1, "x".into());
    assert_eq!(resp.jsonrpc, "2.0");
    assert_eq!(resp.id, Some(Json::Number(JsonNumber::PosInt(7))));
    assert!(resp.result.is_none());
    let err = resp.error.unwrap();
    assert_eq!(err.code, -32603);
    assert_eq!(err.message, "unknown method: nope");
}

#[test]
fn notifications_initialized_answers_an_empty_object() {
    let mut store = Store::new();
    let r = dispatch_at(&mut store, "notifications/initialized", &None, 1, "x".into());
    assert_eq!(r.unwrap(), Json::Object(vec![]));
}

#[test]
fn role_levels() {
    assert_eq!(role_to_level("architect"), 1);
    assert_eq!(role_to_level("org"), 2);
    assert_eq!(role_to_level("human"), 3);
    assert_eq!(role_to_level("component"), 0);
    assert_eq!(role_to_level("anything"), 0);
}

#[test]
fn read_context_joins_sources_and_graph() {
    let mut store = Store::new();
    call(&mut store, "write_signal", obj(vec![("project", s("p")), ("content", s("sig"))]), 1, "a").unwrap();
    call(
        &mut store,
        "write_artifact",
        obj(vec![("project", s("p")), ("title", s("T")), ("content", s("art")), ("kind", s("adr"))]),
        2,
        "b",
    )
    .unwrap();
    call(
        &mut store,
        "write_context_node",
        obj(vec![
            ("path", s("[p][codebase]")),
            ("node_type", s("codebase-ref")),
            ("content", s("repo url")),
            ("read_role", s("architect")),
            ("project", s("p")),
        ]),
        3,
        "c",
    )
    .unwrap();
    let as_component = text_of(&call(&mut store, "read_context", obj(vec![("project", s("p"))]), 4, "z"));
    assert_eq!(as_component, "art\n\nsig");
    let as_architect =
        text_of(&call(&mut store, "read_context", obj(vec![("project", s("p")), ("role", s("architect"))]), 4, "z"));
    assert_eq!(as_architect, "art\n\nsig\n\n## Context Graph\n\n### [p][codebase] (codebase-ref)\nrepo url\n");
    let none = text_of(&call(&mut store, "read_context", obj(vec![("project", s("q"))]), 4, "z"));
    assert_eq!(none, "No context found for project 'q'");
}

#[test]
fn context_nodes_are_role_scoped() {
    let mut store = Store::new();
    let w = obj(vec![
        ("path", s("[g][design]")),
        ("node_type", s("design")),
        ("content", s("v1")),
        ("read_role", s("org")),
        ("project", s("g")),
    ]);
    let text = text_of(&call(&mut store, "write_context_node", w, 1, "cn1"));
    assert_eq!(text, "Context node written (id: cn1, path: [g][design])");
    let denied =
        text_of(&call(&mut store, "read_context_node", obj(vec![("path", s("[g][design]")), ("role", s("architect"))]), 2, "z"));
    assert_eq!(denied, "Context node not found or not accessible at path '[g][design]'");
    let seen = text_of(&call(&mut store, "read_context_node", obj(vec![("path", s("[g][design]")), ("role", s("human"))]), 2, "z"));
    assert_eq!(seen, "### [g][design] (design)\nv1");
    let listed = text_of(&call(&mut store, "list_context_nodes", obj(vec![("project", s("g")), ("role", s("org"))]), 2, "z"));
    assert_eq!(listed, "[g][design] (design)");
    let empty = text_of(&call(&mut store, "list_context_nodes", obj(vec![("project", s("g")), ("role", s("component"))]), 2, "z"));
    assert_eq!(empty, "No context nodes found for project 'g' at role 'component'");
    // Writing the same path again updates the node in place.
    let w2 = obj(vec![
        ("path", s("[g][design]")),
        ("node_type", s("design")),
        ("content", s("v2")),
        ("read_role", s("component")),
        ("project", s("g")),
    ]);
    let text = text_of(&call(&mut store, "write_context_node", w2, 3, "cn2"));
    assert_eq!(text, "Context node written (id: cn1, path: [g][design])");
    assert_eq!(store.nodes.len(), 1);
}

#[test]
fn list_projects_is_sorted_and_distinct() {
    let mut store = Store::new();
    for (i, p) in ["zeta", "alpha", "zeta"].iter().enumerate() {
        call(&mut store, "write_signal", obj(vec![("project", s(p)), ("content", s("x"))]), 1, &format!("id{}", i)).unwrap();
    }
    let out = text_of(&call(&mut store, "list_projects", Json::Null, 2, "z"));
    assert_eq!(out, "alpha\nzeta");
}

#[test]
fn search_respects_since_and_numbers_lines() {
    let mut store = Store::new();
    call(&mut store, "write_signal", obj(vec![("project", s("p")), ("content", s("old"))]), 10, "a").unwrap();
    call(&mut store, "write_signal", obj(vec![("project", s("p")), ("content", s("new"))]), 20, "b").unwrap();
    assert_eq!(search_signals_text(&store, "p", None, 30), "1. [b] new\n2. [a] old");
    assert_eq!(search_signals_text(&store, "p", Some(10), 30), "1. [b] new");
}

#[test]
fn search_reads_since_as_rfc3339() {
    let mut store = Store::new();
    // 2020-01-01T00:00:00Z is 1577836800 seconds after the epoch.
    let t = 1_577_836_800_000_000i64;
    call(&mut store, "write_signal", obj(vec![("project", s("p")), ("content", s("before"))]), t - 1, "a").unwrap();
    call(&mut store, "write_signal", obj(vec![("project", s("p")), ("content", s("after"))]), t + 1, "b").unwrap();
    let out = text_of(&call(
        &mut store,
        "search_signals",
        obj(vec![("project", s("p")), ("since", s("2020-01-01T00:00:00Z"))]),
        t + 10,
        "z",
    ));
    assert_eq!(out, "1. [b] after");
    let out = text_of(&call(&mut store, "search_signals", obj(vec![("project", s("p")), ("since", s("garbage"))]), t + 10, "z"));
    assert_eq!(out, "1. [b] after\n2. [a] before");
}

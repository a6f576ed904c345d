use farga::client::{
    artifact_line, component_url, context_url, initiatives_from, org_url, proposals_notice, recent_signals_url,
    signal_count_line, signal_line, ContextKind, ProposalAction,
};
use farga::docs::{component_names, is_markdown, join_path, DocsTree};
use farga::json::{Json, JsonNumber};
use farga::librarian::{librarian_prompt, request_body, response_text};
use farga::sqlike::like_match;
use farga::text::{join, sorted_distinct, u64_to_decimal};
use farga::types::Signal;

#[test]
fn docs_paths_join_like_path_buf() {
    let t = DocsTree::new("/srv/docs".into());
    assert_eq!(t.org_path(), "/srv/docs/org.md");
    assert_eq!(t.initiatives_dir(), "/srv/docs/initiatives");
    assert_eq!(t.project_path("occitan"), "/srv/docs/projects/occitan/project.md");
    assert_eq!(t.component_path("occitan", "gardian"), "/srv/docs/projects/occitan/gardian/component.md");
    assert_eq!(t.governance_config_path(), "/srv/docs/governance.yaml");
    assert_eq!(join_path("docs/", "org.md"), "docs/org.md");
    assert_eq!(join_path("", "org.md"), "org.md");
    assert_eq!(join_path("docs", "/etc/passwd"), "/etc/passwd");
}

#[test]
fn markdown_names() {
    assert!(is_markdown("a.md"));
    assert!(is_markdown("notes.v2.md"));
    assert!(!is_markdown(".md"));
    assert!(!is_markdown("readme.markdown"));
    assert!(!is_markdown("md"));
    assert!(!is_markdown("a.MD"));
}

#[test]
fn get_components_returns_subdirs_with_component_md() {
    let entries = vec![
        ("gardian".to_string(), true),
        ("empty-dir".to_string(), false),
        ("amassada".to_string(), true),
    ];
    assert_eq!(component_names(&entries), vec!["amassada".to_string(), "gardian".to_string()]);
}

#[test]
fn get_components_returns_empty_for_unknown_project() {
    assert!(component_names(&Vec::new()).is_empty());
}

#[test]
fn client_urls() {
    assert_eq!(org_url("http://h", "acme"), "http://h/context/org/acme");
    assert_eq!(component_url("http://h", "p", "a/b"), "http://h/context/component/p/a/b");
    assert_eq!(recent_signals_url("http://h", "p", 24), "http://h/signals/recent?project=p&since=24h");
    assert_eq!(
        context_url("http://h", &ContextKind::Project { project: "occitan".into() }),
        "http://h/context/project/occitan"
    );
}

#[test]
fn cli_lines() {
    let s = Signal { project: "p".into(), content: "deployed".into(), source: "farga".into() };
    assert_eq!(signal_line(&s), "[farga] deployed");
    assert_eq!(signal_count_line(3), "3 signals");
    assert_eq!(signal_count_line(0), "0 signals");
    assert_eq!(artifact_line(Some("ADR".into())), "- ADR");
    assert_eq!(artifact_line(None), "- ?");
    assert_eq!(
        proposals_notice(&ProposalAction::List),
        "proposals: not yet implemented (optimizer agent scheduled for v0.2.0)"
    );
}

#[test]
fn initiatives_keep_order() {
    let items = initiatives_from(vec!["a".into(), "b".into()]);
    let contents: Vec<&str> = items.iter().map(|i| i.content.as_str()).collect();
    assert_eq!(contents, vec!["a", "b"]);
}

#[test]
fn decimal_and_join() {
    assert_eq!(u64_to_decimal(0), "0");
    assert_eq!(u64_to_decimal(1234567890), "1234567890");
    assert_eq!(u64_to_decimal(u64::MAX), u64::MAX.to_string());
    assert_eq!(join(&vec!["a".into(), "b".into(), "c".into()], ", "), "a, b, c");
    assert_eq!(join(&vec![], ", "), "");
}

#[test]
fn sorted_distinct_orders_by_code_point() {
    let v = vec!["b".to_string(), "B".to_string(), "a".to_string(), "b".to_string(), "ab".to_string()];
    assert_eq!(sorted_distinct(&v), vec!["B", "a", "ab", "b"]);
}

#[test]
fn like_matches_as_sqlite_does() {
    assert!(like_match("%jwt%", "JWT Signing Pattern"));
    assert!(like_match("ns/%", "ns/key"));
    assert!(!like_match("ns/%", "ns-b/key"));
    assert!(like_match("a_c", "abc"));
    assert!(!like_match("a_c", "ac"));
    assert!(like_match("%\"agent\":\"gardian\"%", "{\"t\":1,\"agent\":\"gardian\",\"x\":2}"));
}

#[test]
fn librarian_prompt_sets_fields_into_template() {
    let p = librarian_prompt(
        "JWT",
        "Two projects converged.",
        &vec!["Use RS256".into(), "Rotate keys".into()],
        &vec!["auth".into(), "gateway".into()],
    );
    assert!(p.starts_with("You are the Farga librarian"));
    assert!(p.contains("\n\nContribution title: JWT\nNarrative: Two projects converged.\n"));
    assert!(p.contains("Lessons learned: Use RS256; Rotate keys\nInvolved projects: auth, gateway\n\nRespond ONLY"));
    assert!(p.contains("{\n  \"reversibility\""));
    assert!(p.ends_with("- OrgWide: affects the entire organization"));
}

#[test]
fn librarian_request_and_answer() {
    let body = request_body("model-x", "hi".into());
    match &body {
        Json::Object(ms) => {
            assert_eq!(ms[0], ("model".to_string(), Json::Str("model-x".into())));
            assert_eq!(ms[1], ("max_tokens".to_string(), Json::Number(JsonNumber::PosInt(256))));
        },
        _ => panic!("not an object"),
    }
    let answer = Json::Object(vec![(
        "content".into(),
        Json::Array(vec![Json::Object(vec![("type".into(), Json::Str("text".into())), ("text".into(), Json::Str("{}".into()))])]),
    )]);
    assert_eq!(response_text(&answer), Some("{}".to_string()));
    assert_eq!(response_text(&Json::Object(vec![("content".into(), Json::Array(vec![]))])), None);
    assert_eq!(response_text(&Json::Null), None);
}

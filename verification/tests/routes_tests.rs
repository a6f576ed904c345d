use farga::kinds::NodeKind;
use farga::routes::{
    audit_limit, get_artifacts, get_audit, get_recent_signals, get_recent_signals_at, parse_window, post_artifact_at,
    post_audit_at, post_signals, window_bound, AuditQuery, RecentQuery, WriteSignalsReq, HOUR_MICROS,
};
use farga::store::{insert_node, Store};
use farga::types::{Artifact, AuditEntry, Node, Signal};

fn entry(agent: &str, capability: &str) -> (AuditEntry, String) {
    let e = AuditEntry {
        timestamp: 0,
        agent: agent.to_string(),
        capability: capability.to_string(),
        outcome: "success".to_string(),
        token_id: "tok_test123".to_string(),
    };
    let json = format!(
        "{{\"timestamp\":\"2026-01-01T00:00:00Z\",\"agent\":\"{}\",\"capability\":\"{}\",\"outcome\":\"success\",\"token_id\":\"tok_test123\"}}",
        agent, capability
    );
    (e, json)
}

fn signal(content: &str) -> Signal {
    Signal { project: "ignored".into(), content: content.into(), source: "agent".into() }
}

#[test]
fn get_audit_returns_empty_array_when_no_entries() {
    let store = Store::new();
    assert!(get_audit(&store, &AuditQuery { agent: None, limit: None }).is_empty());
}

#[test]
fn get_audit_returns_entry_after_post() {
    let mut store = Store::new();
    let (e, json) = entry("guilhem", "github_access");
    post_audit_at(&mut store, &e, json.clone(), "a1".into(), 10).unwrap();
    let rows = get_audit(&store, &AuditQuery { agent: None, limit: None });
    assert_eq!(rows, vec![json]);
    assert_eq!(store.nodes[0].title.as_deref(), Some("guilhem — github_access"));
    assert_eq!(store.nodes[0].project.as_deref(), Some("system"));
}

#[test]
fn get_audit_filters_by_agent() {
    let mut store = Store::new();
    let (g, gj) = entry("gardian", "github_access");
    let (h, hj) = entry("guilhem", "openai_access");
    post_audit_at(&mut store, &g, gj.clone(), "a1".into(), 10).unwrap();
    post_audit_at(&mut store, &h, hj, "a2".into(), 20).unwrap();
    let rows = get_audit(&store, &AuditQuery { agent: Some("gardian".into()), limit: None });
    assert_eq!(rows, vec![gj], "expected exactly one entry for agent=gardian");
}

#[test]
fn get_audit_respects_limit_parameter() {
    let mut store = Store::new();
    for i in 0..3 {
        let (e, j) = entry("guilhem", &format!("capability_{}", i));
        post_audit_at(&mut store, &e, j, format!("a{}", i), 10 + i).unwrap();
    }
    let rows = get_audit(&store, &AuditQuery { agent: None, limit: Some(2) });
    assert_eq!(rows.len(), 2, "limit=2 must return at most 2 entries");
}

#[test]
fn get_audit_returns_newest_first() {
    let mut store = Store::new();
    let (a, aj) = entry("guilhem", "first_capability");
    let (b, bj) = entry("guilhem", "second_capability");
    post_audit_at(&mut store, &a, aj.clone(), "a1".into(), 10).unwrap();
    post_audit_at(&mut store, &b, bj.clone(), "a2".into(), 20).unwrap();
    let rows = get_audit(&store, &AuditQuery { agent: None, limit: None });
    assert_eq!(rows, vec![bj, aj]);
}

#[test]
fn audit_limit_defaults_and_caps() {
    assert_eq!(audit_limit(None), Some(100));
    assert_eq!(audit_limit(Some(2)), Some(2));
    assert_eq!(audit_limit(Some(10_000)), Some(500));
    assert_eq!(audit_limit(Some(-1)), None);
}

#[test]
fn posted_signals_are_read_back_newest_first() {
    let mut store = Store::new();
    let req = WriteSignalsReq { project: "occitan".into(), signals: vec![signal("one"), signal("two")] };
    post_signals(&mut store, &req).unwrap();
    assert_eq!(store.nodes.len(), 2);
    // Make the instants distinct and known.
    store.nodes[0].created_at = 1;
    store.nodes[1].created_at = 2;
    let got = get_recent_signals(&store, &RecentQuery { project: "occitan".into(), since: None });
    let contents: Vec<&str> = got.iter().map(|s| s.content.as_str()).collect();
    assert_eq!(contents, vec!["two", "one"]);
    assert!(got.iter().all(|s| s.source == "farga" && s.project == "occitan"));
    let other = get_recent_signals(&store, &RecentQuery { project: "farga".into(), since: None });
    assert!(other.is_empty());
}

#[test]
fn recent_signals_skip_stale_ones_and_stop_at_a_hundred() {
    let mut store = Store::new();
    for i in 0..105 {
        let n = Node::new_at(NodeKind::Signal, Some("p".into()), Some(format!("s{}", i)), format!("id{}", i), i);
        insert_node(&mut store, &n).unwrap();
    }
    store.nodes[104].stale = true;
    let got = get_recent_signals(&store, &RecentQuery { project: "p".into(), since: None });
    assert_eq!(got.len(), 100);
    assert_eq!(got[0].content, "s103");
    assert_eq!(got[99].content, "s4");
}

#[test]
fn artifacts_are_listed_in_storage_order() {
    let mut store = Store::new();
    let a = Artifact {
        project: "occitan".into(),
        title: "ADR 1".into(),
        content: "use sqlite".into(),
        session_id: Some("s".into()),
        kind: "adr".into(),
    };
    let b = Artifact { title: "ADR 2".into(), ..a.clone() };
    let id = post_artifact_at(&mut store, &a, "x1".into(), 20).unwrap();
    assert_eq!(id, "x1");
    post_artifact_at(&mut store, &b, "x2".into(), 10).unwrap();
    let got = get_artifacts(&store, "occitan");
    let titles: Vec<&str> = got.iter().map(|a| a.title.as_str()).collect();
    assert_eq!(titles, vec!["ADR 1", "ADR 2"]);
    assert!(got.iter().all(|a| a.kind == "artifact" && a.session_id.is_none()));
}

#[test]
fn recent_signals_keep_to_the_since_window() {
    let mut store = Store::new();
    let now: i64 = 10 * HOUR_MICROS as i64;
    let at = [now - 3 * HOUR_MICROS as i64, now - HOUR_MICROS as i64, now - HOUR_MICROS as i64 / 2, now];
    for (i, t) in at.iter().enumerate() {
        let n = Node::new_at(NodeKind::Signal, Some("p".into()), Some(format!("s{}", i)), format!("id{}", i), *t);
        insert_node(&mut store, &n).unwrap();
    }
    let q = |since: Option<&str>| RecentQuery { project: "p".into(), since: since.map(|s| s.to_string()) };
    let contents = |v: Vec<Signal>| v.into_iter().map(|s| s.content).collect::<Vec<String>>();
    assert_eq!(contents(get_recent_signals_at(&store, &q(Some("1h")), now)), vec!["s3", "s2", "s1"]);
    assert_eq!(contents(get_recent_signals_at(&store, &q(Some("0h")), now)), vec!["s3"]);
    assert_eq!(contents(get_recent_signals_at(&store, &q(Some("24h")), now)), vec!["s3", "s2", "s1", "s0"]);
    assert_eq!(contents(get_recent_signals_at(&store, &q(None), now)), vec!["s3", "s2", "s1", "s0"]);
    // A text that is not a window sets no bound.
    assert_eq!(contents(get_recent_signals_at(&store, &q(Some("yesterday")), now)), vec!["s3", "s2", "s1", "s0"]);
}

#[test]
fn windows_are_hours_written_in_digits() {
    assert_eq!(parse_window("24h"), Some(Some(24)));
    assert_eq!(parse_window("0h"), Some(Some(0)));
    assert_eq!(parse_window("007h"), Some(Some(7)));
    assert_eq!(parse_window("h"), None);
    assert_eq!(parse_window(""), None);
    assert_eq!(parse_window("24"), None);
    assert_eq!(parse_window("2x"), None);
    assert_eq!(parse_window("1.5h"), None);
    assert_eq!(parse_window("-1h"), None);
    assert_eq!(parse_window("99999999999999999999999h"), Some(None));
}

#[test]
fn window_bound_is_just_below_the_window_start() {
    let now: i64 = 5 * HOUR_MICROS as i64;
    assert_eq!(window_bound(now, &Some("2h".to_string())), Some(3 * HOUR_MICROS as i64 - 1));
    assert_eq!(window_bound(now, &None), None);
    assert_eq!(window_bound(now, &Some("soon".to_string())), None);
    assert_eq!(window_bound(now, &Some("99999999999999999999999h".to_string())), None);
}

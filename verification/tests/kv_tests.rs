use farga::json::{Json, JsonNumber};
use farga::kv::{
    delete_kv_at, get_kv_at, list_kv_namespace_at, patch_kv_at, split_kv_path, upsert_kv_at, KvRow,
};
use farga::routes::{get_kv_or_list_at, KvLookup};
use farga::store::{Store, StoreError};

fn s(t: &str) -> Json {
    Json::Str(t.to_string())
}

fn n(v: u64) -> Json {
    Json::Number(JsonNumber::PosInt(v))
}

fn obj(members: Vec<(&str, Json)>) -> Json {
    Json::Object(members.into_iter().map(|(k, v)| (k.to_string(), v)).collect())
}

fn field<'a>(j: &'a Json, key: &str) -> Option<&'a Json> {
    match j {
        Json::Object(ms) => ms.iter().find(|(k, _)| k == key).map(|(_, v)| v),
        _ => None,
    }
}

fn put(store: &mut Store, path: &str, value: Json, ttl: Option<i64>, now: i64, id: &str) {
    upsert_kv_at(store, path, value, ttl, now, id.to_string()).unwrap();
}

fn entry(r: KvLookup) -> KvRow {
    match r {
        KvLookup::Entry(row) => row,
        _ => panic!("expected a single entry"),
    }
}

#[test]
fn put_and_get_kv_entry() {
    let mut store = Store::new();
    put(
        &mut store,
        "guilhem/instances/pod-abc",
        obj(vec![("version", s("1.0")), ("started_at", s("2026-06-25T00:00:00Z"))]),
        None,
        1_000,
        "id-1",
    );
    let row = entry(get_kv_or_list_at(&store, "guilhem/instances/pod-abc", 2_000));
    assert_eq!(row.key, "pod-abc");
    assert_eq!(row.namespace, "guilhem/instances");
    assert!(matches!(row.value, Json::Object(_)));
}

#[test]
fn put_kv_upserts_existing_key() {
    let mut store = Store::new();
    for i in 0..3u64 {
        let id = format!("id-{}", i);
        put(&mut store, "ns/key1", obj(vec![("tick", n(i))]), None, 1_000 + i as i64, &id);
    }
    let live = store.kv.iter().filter(|r| r.path == "ns/key1" && !r.stale).count();
    assert_eq!(live, 1, "upsert must not create duplicate rows");
    let row = entry(get_kv_or_list_at(&store, "ns/key1", 5_000));
    assert_eq!(field(&row.value, "tick"), Some(&n(2)), "GET must return the latest value");
}

#[test]
fn get_missing_kv_key_returns_404() {
    let store = Store::new();
    assert!(matches!(get_kv_or_list_at(&store, "guilhem/instances/nonexistent", 1), KvLookup::Missing));
}

#[test]
fn list_kv_namespace_returns_all_live_keys() {
    let mut store = Store::new();
    for (i, key) in ["pod-a", "pod-b", "pod-c"].iter().enumerate() {
        let path = format!("guilhem/instances/{}", key);
        put(&mut store, &path, obj(vec![("alive", Json::Bool(true))]), None, 10 + i as i64, key);
    }
    match get_kv_or_list_at(&store, "guilhem/instances", 100) {
        KvLookup::Entries(rows) => {
            assert_eq!(rows.len(), 3);
            let keys: Vec<&str> = rows.iter().map(|r| r.key.as_str()).collect();
            assert_eq!(keys, vec!["pod-a", "pod-b", "pod-c"]);
        },
        _ => panic!("expected a listing"),
    }
}

#[test]
fn delete_kv_key_removes_from_list() {
    let mut store = Store::new();
    put(&mut store, "ns/to-delete", s("bye"), None, 10, "d1");
    assert!(delete_kv_at(&mut store, "ns/to-delete", 20));
    assert!(matches!(get_kv_or_list_at(&store, "ns/to-delete", 30), KvLookup::Missing));
    assert!(!delete_kv_at(&mut store, "ns/to-delete", 40), "a second delete finds nothing");
}

#[test]
fn expired_kv_key_returns_404() {
    let mut store = Store::new();
    put(&mut store, "ns/expiring", s("soon gone"), Some(0), 1_000, "e1");
    assert!(matches!(get_kv_or_list_at(&store, "ns/expiring", 1_000), KvLookup::Missing));
}

#[test]
fn patch_kv_merges_json_fields() {
    let mut store = Store::new();
    put(
        &mut store,
        "guilhem/proposals/uuid-1",
        obj(vec![("state", s("open")), ("acks", Json::Array(vec![]))]),
        None,
        10,
        "p1",
    );
    let r = patch_kv_at(
        &mut store,
        "guilhem/proposals/uuid-1",
        Some(obj(vec![("acks", Json::Array(vec![s("pod-a")]))])),
        None,
        20,
    );
    assert!(matches!(r, Ok(true)));
    let row = entry(get_kv_or_list_at(&store, "guilhem/proposals/uuid-1", 30));
    assert_eq!(field(&row.value, "acks"), Some(&Json::Array(vec![s("pod-a")])));
    assert_eq!(field(&row.value, "state"), Some(&s("open")));
}

#[test]
fn patch_kv_can_update_ttl() {
    let mut store = Store::new();
    put(&mut store, "ns/ttl-patch", obj(vec![("n", n(1))]), None, 1_000_000_000, "t1");
    let r = patch_kv_at(&mut store, "ns/ttl-patch", None, Some(-100), 1_000_000_000);
    assert!(matches!(r, Ok(true)));
    assert!(matches!(get_kv_or_list_at(&store, "ns/ttl-patch", 1_000_000_000), KvLookup::Missing));
}

#[test]
fn patch_kv_ttl_only_preserves_value() {
    let mut store = Store::new();
    put(&mut store, "ns/ttl-keep", obj(vec![("n", n(42))]), None, 1_000, "k1");
    let r = patch_kv_at(&mut store, "ns/ttl-keep", None, Some(3600), 2_000);
    assert!(matches!(r, Ok(true)));
    let row = entry(get_kv_or_list_at(&store, "ns/ttl-keep", 3_000));
    assert_eq!(field(&row.value, "n"), Some(&n(42)), "ttl-only PATCH must not drop value");
    assert_eq!(row.expires_at, Some(2_000 + 3_600_000_000));
}

#[test]
fn patch_missing_kv_key_returns_404() {
    let mut store = Store::new();
    assert!(matches!(patch_kv_at(&mut store, "ns/nope", None, Some(30), 1), Ok(false)));
}

#[test]
fn list_kv_namespace_scoped_correctly() {
    let mut store = Store::new();
    put(&mut store, "ns-a/key1", n(1), None, 1, "a1");
    put(&mut store, "ns-b/key1", n(2), None, 2, "b1");
    let rows = list_kv_namespace_at(&store, "ns-a", 10);
    assert_eq!(rows.len(), 1, "ns-a must only see its own keys");
    assert_eq!(rows[0].namespace, "ns-a");
}

#[test]
fn split_kv_path_splits_at_last_slash() {
    assert_eq!(split_kv_path("guilhem/instances/pod-abc"), ("guilhem/instances".to_string(), "pod-abc".to_string()));
    assert_eq!(split_kv_path("single"), (String::new(), "single".to_string()));
    assert_eq!(split_kv_path("ns/"), ("ns".to_string(), String::new()));
}

#[test]
fn kv_ttl_sets_expiry_in_microseconds() {
    let mut store = Store::new();
    put(&mut store, "ns/k", n(1), Some(60), 5, "x");
    let row = get_kv_at(&store, "ns/k", 6).unwrap();
    assert_eq!(row.expires_at, Some(5 + 60_000_000));
    assert!(get_kv_at(&store, "ns/k", 5 + 60_000_000).is_none());
}

#[test]
fn kv_ttl_out_of_range_is_refused() {
    let mut store = Store::new();
    let r = upsert_kv_at(&mut store, "ns/k", n(1), Some(i64::MAX), 5, "x".into());
    assert!(matches!(r, Err(StoreError::TtlOutOfRange)));
    assert!(store.kv.is_empty());
}

#[test]
fn kv_write_with_taken_id_is_refused() {
    let mut store = Store::new();
    put(&mut store, "ns/a", n(1), None, 5, "x");
    let r = upsert_kv_at(&mut store, "ns/b", n(2), None, 6, "x".into());
    assert!(matches!(r, Err(StoreError::DuplicateId)));
}

#[test]
fn namespace_listing_is_oldest_first_and_exact() {
    let mut store = Store::new();
    put(&mut store, "ns/late", n(1), None, 30, "l");
    put(&mut store, "ns/early", n(2), None, 10, "e");
    put(&mut store, "NS/other", n(3), None, 5, "o");
    put(&mut store, "ns/sub/deep", n(4), None, 6, "d");
    put(&mut store, "n_/wild", n(5), None, 7, "w");
    let rows = list_kv_namespace_at(&store, "ns", 40);
    let keys: Vec<&str> = rows.iter().map(|r| r.key.as_str()).collect();
    assert_eq!(keys, vec!["early", "late"], "only the namespace itself, oldest first");
    assert!(rows.iter().all(|r| r.namespace == "ns"));
    assert!(list_kv_namespace_at(&store, "n_", 40).iter().all(|r| r.namespace == "n_"));
    assert_eq!(list_kv_namespace_at(&store, "ns/sub", 40).len(), 1);
}

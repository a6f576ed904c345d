//! The key/value store: mutable JSON entries under slash-separated paths,
//! with optional expiry, used for coordination between instances.

use vstd::prelude::*;
use crate::kinds::str_eq;
use crate::json::{Json, jv, json_copy, top_level_wf};
use crate::store::{Store, KvRecord, StoreError};
use crate::order::{order_by_time};

verus! {

/// Whether `x` fits an `i64`.
pub open spec fn fits_i64(x: int) -> bool {
    i64::MIN <= x <= i64::MAX
}

/// The instant `amount * unit` microseconds after `now`, where the offset
/// and the instant both fit an `i64`.
pub fn later(now: i64, amount: i64, unit: i64) -> (r: Option<i64>)
    ensures
        match r {
            Some(t) => fits_i64(amount * unit) && t == now + amount * unit,
            None => !(fits_i64(amount * unit) && fits_i64(now + amount * unit)),
        },
{
    match amount.checked_mul(unit) {
        Some(d) => now.checked_add(d),
        None => None,
    }
}

/// Path `p` has a slash.
pub open spec fn has_slash(p: Seq<char>) -> bool {
    exists|i: int| 0 <= i < p.len() && p[i] == '/'
}

/// The position of the last slash of `p`.
pub open spec fn last_slash(p: Seq<char>) -> int {
    choose|i: int| 0 <= i < p.len() && p[i] == '/' && forall|m: int| i < m < p.len() ==> p[m] != '/'
}

/// The namespace of a path: what precedes its last slash, or nothing.
pub open spec fn kv_namespace(p: Seq<char>) -> Seq<char> {
    if has_slash(p) {
        p.take(last_slash(p))
    } else {
        Seq::empty()
    }
}

/// The key of a path: what follows its last slash, or the whole path.
pub open spec fn kv_key(p: Seq<char>) -> Seq<char> {
    if has_slash(p) {
        p.skip(last_slash(p) + 1)
    } else {
        p
    }
}

/// Splits `guilhem/instances/pod-abc` into `guilhem/instances` and
/// `pod-abc`; a path without a slash has the empty namespace.
pub fn split_kv_path(kv_path: &str) -> (r: (String, String))
    ensures
        r.0@ == kv_namespace(kv_path@),
        r.1@ == kv_key(kv_path@),
{
    let cs = crate::text::chars_of(kv_path);
    let mut i: usize = cs.len();
    while i > 0
        invariant
            i <= cs.len(),
            cs@ == kv_path@,
            forall|m: int| i <= m < cs.len() ==> cs@[m] != '/',
        decreases i,
    {
        if cs[i - 1] == '/' {
            let pos = i - 1;
            assert(has_slash(kv_path@));
            assert(last_slash(kv_path@) == pos) by {
                let l = last_slash(kv_path@);
                if l < pos {
                    assert(kv_path@[pos as int] == '/');
                } else if l > pos {
                    assert(kv_path@[l] == '/');
                }
            }
            let ns = String::from_str(kv_path.substring_char(0, pos));
            let key = String::from_str(kv_path.substring_char(pos + 1, cs.len()));
            assert(kv_path@.subrange(0, pos as int) =~= kv_path@.take(pos as int));
            assert(kv_path@.subrange(pos + 1, cs.len() as int) =~= kv_path@.skip(pos + 1));
            return (ns, key);
        }
        i = i - 1;
    }
    (String::new(), String::from_str(kv_path))
}

/// A live key/value entry as the store returns it.
pub struct KvRow {
    pub namespace: String,
    pub key: String,
    pub value: Json,
    pub expires_at: Option<i64>,
}

/// Entry `rec` is visible at instant `now`: live and not expired.
pub open spec fn visible(rec: KvRecord, now: i64) -> bool {
    !rec.stale && (rec.expires_at matches Some(e) ==> e > now)
}

/// Row `row` reads back entry `rec`.
pub open spec fn row_reads(row: KvRow, rec: KvRecord) -> bool {
    &&& row.namespace@ == kv_namespace(rec.path@)
    &&& row.key@ == kv_key(rec.path@)
    &&& jv(row.value) == jv(rec.value)
    &&& row.expires_at == rec.expires_at
}

/// The row that reads back entry `rec`.
pub fn kv_row(rec: &KvRecord) -> (row: KvRow)
    ensures
        row_reads(row, *rec),
{
    let (namespace, key) = split_kv_path(rec.path.as_str());
    KvRow { namespace, key, value: json_copy(&rec.value), expires_at: rec.expires_at }
}

/// The value a stored content reads back as: its JSON parse where it is
/// JSON, otherwise the raw text as a JSON string.
pub fn kv_value_from_content(parsed: Option<Json>, raw: String) -> (v: Json)
    ensures
        match parsed {
            Some(p) => v == p,
            None => v == Json::Str(raw),
        },
{
    match parsed {
        Some(p) => p,
        None => Json::Str(raw),
    }
}

/// The entry at position `i` is the first visible one with path `p`.
pub open spec fn first_visible(kv: Seq<KvRecord>, p: Seq<char>, now: i64, i: int) -> bool {
    &&& 0 <= i < kv.len()
    &&& kv[i].path@ == p
    &&& visible(kv[i], now)
    &&& forall|m: int| 0 <= m < i ==> !((#[trigger] kv[m]).path@ == p && visible(kv[m], now))
}

/// Some entry with path `p` is visible at `now`.
pub open spec fn any_visible(kv: Seq<KvRecord>, p: Seq<char>, now: i64) -> bool {
    exists|i: int| 0 <= i < kv.len() && (#[trigger] kv[i]).path@ == p && visible(kv[i], now)
}

fn is_visible(rec: &KvRecord, now: i64) -> (r: bool)
    ensures
        r == visible(*rec, now),
{
    !rec.stale && match rec.expires_at {
        Some(e) => e > now,
        None => true,
    }
}

/// The position of the first entry with path `p` visible at `now`.
pub fn find_visible(store: &Store, p: &str, now: i64) -> (r: Option<usize>)
    ensures
        match r {
            Some(i) => first_visible(store.kv@, p@, now, i as int),
            None => !any_visible(store.kv@, p@, now),
        },
{
    let mut i: usize = 0;
    while i < store.kv.len()
        invariant
            i <= store.kv@.len(),
            forall|m: int| 0 <= m < i ==> !((#[trigger] store.kv@[m]).path@ == p@ && visible(store.kv@[m], now)),
        decreases store.kv@.len() - i,
    {
        if is_visible(&store.kv[i], now) && str_eq(store.kv[i].path.as_str(), p) {
            return Some(i);
        }
        i = i + 1;
    }
    None
}

/// `r` is what a read of `kv_path` at instant `now` gives: the first live,
/// unexpired entry with that path, or `None` where there is none.
pub open spec fn kv_read(kv: Seq<KvRecord>, kv_path: Seq<char>, now: i64, r: Option<KvRow>) -> bool {
    match r {
        Some(row) => exists|i: int| first_visible(kv, kv_path, now, i) && row_reads(row, kv[i]),
        None => !any_visible(kv, kv_path, now),
    }
}

/// Reads the entry at `kv_path` as of instant `now` (see `kv_read`).
pub fn get_kv_at(store: &Store, kv_path: &str, now: i64) -> (r: Option<KvRow>)
    ensures
        kv_read(store.kv@, kv_path@, now, r),
{
    match find_visible(store, kv_path, now) {
        Some(i) => Some(kv_row(&store.kv[i])),
        None => None,
    }
}

/// Reads the entry at `kv_path` now; `None` where it is missing, deleted
/// or expired.
pub fn get_kv(store: &Store, kv_path: &str) -> (r: Option<KvRow>)
    ensures
        exists|now: i64| now >= 0 && kv_read(store.kv@, kv_path@, now, r),
{
    let now = crate::clock::now_micros();
    let r = get_kv_at(store, kv_path, now);
    assert(kv_read(store.kv@, kv_path@, now, r));
    r
}

/// The expiry that a time-to-live gives at instant `now`: none without a
/// time-to-live, else `now` plus that many seconds; `None` where it does not
/// fit the instant range.
pub open spec fn expiry_for(now: i64, ttl_seconds: Option<i64>) -> Option<Option<i64>> {
    match ttl_seconds {
        None => Some(None),
        Some(t) => if fits_i64(t * 1_000_000) && fits_i64(now + t * 1_000_000) {
            Some(Some((now + t * 1_000_000) as i64))
        } else {
            None
        },
    }
}

/// The expiry for `ttl_seconds` at `now` (see `expiry_for`).
pub fn expiry(now: i64, ttl_seconds: Option<i64>) -> (r: Option<Option<i64>>)
    ensures
        r == expiry_for(now, ttl_seconds),
{
    match ttl_seconds {
        None => Some(None),
        Some(t) => match later(now, t, 1_000_000) {
            Some(e) => Some(Some(e)),
            None => None,
        },
    }
}

/// The entry at position `i` is the live entry with path `p`.
pub open spec fn live_at(kv: Seq<KvRecord>, p: Seq<char>, i: int) -> bool {
    0 <= i < kv.len() && kv[i].path@ == p && !kv[i].stale
}

/// Some live entry has path `p`.
pub open spec fn any_live(kv: Seq<KvRecord>, p: Seq<char>) -> bool {
    exists|i: int| live_at(kv, p, i)
}

/// The position of the live entry with path `p`, if any.
pub fn find_live(store: &Store, p: &str) -> (r: Option<usize>)
    ensures
        match r {
            Some(i) => live_at(store.kv@, p@, i as int),
            None => !any_live(store.kv@, p@),
        },
{
    let mut i: usize = 0;
    while i < store.kv.len()
        invariant
            i <= store.kv@.len(),
            forall|m: int| 0 <= m < i ==> !live_at(store.kv@, p@, m),
        decreases store.kv@.len() - i,
    {
        if !store.kv[i].stale && str_eq(store.kv[i].path.as_str(), p) {
            return Some(i);
        }
        i = i + 1;
    }
    None
}

/// The effect of `upsert_kv` at instant `now` with fresh identifier
/// `fresh`: the live entry at `kv_path` (expired or not) takes `value` and
/// the new expiry; where there is none, a new entry is stored.
pub open spec fn kv_upserted(
    s0: Store,
    s1: Store,
    kv_path: Seq<char>,
    value: Json,
    ttl_seconds: Option<i64>,
    now: i64,
    fresh: Seq<char>,
    r: Result<(), StoreError>,
) -> bool {
    &&& s1.nodes@ == s0.nodes@
    &&& s1.edges@ == s0.edges@
    &&& s1.assessments@ == s0.assessments@
    &&& match expiry_for(now, ttl_seconds) {
        None => r matches Err(e) && e is TtlOutOfRange && s1.kv@ == s0.kv@,
        Some(exp) => if any_live(s0.kv@, kv_path) {
            &&& r is Ok
            &&& s1.kv@.len() == s0.kv@.len()
            &&& forall|i: int| 0 <= i < s0.kv@.len() ==> {
                let a = #[trigger] s0.kv@[i];
                if live_at(s0.kv@, kv_path, i) {
                    s1.kv@[i] == KvRecord { value: value, expires_at: exp, updated_at: now, ..a }
                } else {
                    s1.kv@[i] == a
                }
            }
        } else if s0.id_used(fresh) {
            r matches Err(e) && e is DuplicateId && s1.kv@ == s0.kv@
        } else {
            &&& r is Ok
            &&& s1.kv@.len() == s0.kv@.len() + 1
            &&& s1.kv@.drop_last() == s0.kv@
            &&& s1.kv@.last().id@ == fresh
            &&& s1.kv@.last().path@ == kv_path
            &&& s1.kv@.last().value == value
            &&& s1.kv@.last().expires_at == exp
            &&& s1.kv@.last().created_at == now
            &&& s1.kv@.last().updated_at == now
            &&& !s1.kv@.last().stale
        },
    }
}

/// `upsert_kv` at instant `now`, storing a new entry under `fresh_id`
/// where one is needed.
pub fn upsert_kv_at(
    store: &mut Store,
    kv_path: &str,
    value: Json,
    ttl_seconds: Option<i64>,
    now: i64,
    fresh_id: String,
) -> (r: Result<(), StoreError>)
    requires
        old(store).wf(),
        top_level_wf(value),
    ensures
        final(store).wf(),
        kv_upserted(*old(store), *final(store), kv_path@, value, ttl_seconds, now, fresh_id@, r),
{
    let exp = match expiry(now, ttl_seconds) {
        Some(e) => e,
        None => {
            return Err(StoreError::TtlOutOfRange);
        },
    };
    let ghost s0 = *store;
    match find_live(store, kv_path) {
        Some(i) => {
            store.kv[i].value = value;
            store.kv[i].expires_at = exp;
            store.kv[i].updated_at = now;
            assert forall|a: int| 0 <= a < s0.kv@.len() implies {
                let x = #[trigger] s0.kv@[a];
                if live_at(s0.kv@, kv_path@, a) {
                    store.kv@[a] == KvRecord { value: value, expires_at: exp, updated_at: now, ..x }
                } else {
                    store.kv@[a] == x
                }
            } by {
                if live_at(s0.kv@, kv_path@, a) && a != i {
                    if a < i {
                        assert(s0.kv@[a].path@ != s0.kv@[i as int].path@);
                    } else {
                        assert(s0.kv@[i as int].path@ != s0.kv@[a].path@);
                    }
                }
            }
            Ok(())
        },
        None => {
            if crate::store::id_in_use(store, fresh_id.as_str()) {
                return Err(StoreError::DuplicateId);
            }
            let rec = KvRecord {
                id: fresh_id,
                path: String::from_str(kv_path),
                value,
                expires_at: exp,
                created_at: now,
                updated_at: now,
                stale: false,
            };
            store.kv.push(rec);
            assert(store.kv@.drop_last() =~= s0.kv@);
            assert forall|a: int, b: int| 0 <= a < b < store.kv@.len() implies (#[trigger] store.kv@[a]).id@
                != (#[trigger] store.kv@[b]).id@ by {
                if b == s0.kv@.len() {
                    assert(store.kv@[a] == s0.kv@[a]);
                    assert(crate::store::kv_id_used(s0.kv@, s0.kv@[a].id@));
                }
            }
            assert forall|a: int, b: int| 0 <= a < store.nodes@.len() && 0 <= b < store.kv@.len() implies (
            #[trigger] store.nodes@[a]).id@ != (#[trigger] store.kv@[b]).id@ by {
                if b == s0.kv@.len() {
                    assert(crate::store::node_id_used(s0.nodes@, s0.nodes@[a].id@));
                } else {
                    assert(store.kv@[b] == s0.kv@[b]);
                }
            }
            assert forall|a: int, b: int|
                0 <= a < b < store.kv@.len() && !store.kv@[a].stale && !store.kv@[b].stale implies (
                #[trigger] store.kv@[a]).path@ != (#[trigger] store.kv@[b]).path@ by {
                if b == s0.kv@.len() {
                    assert(store.kv@[a] == s0.kv@[a]);
                    assert(!live_at(s0.kv@, kv_path@, a));
                }
            }
            assert forall|a: int| 0 <= a < store.kv@.len() implies top_level_wf(#[trigger] store.kv@[a].value) by {
                if a < s0.kv@.len() {
                    assert(store.kv@[a] == s0.kv@[a]);
                }
            }
            Ok(())
        },
    }
}

/// Creates or replaces the entry at `kv_path` with `value`, expiring
/// `ttl_seconds` from now where a time-to-live is given.
pub fn upsert_kv(store: &mut Store, kv_path: &str, value: Json, ttl_seconds: Option<i64>) -> (r: Result<(), StoreError>)
    requires
        old(store).wf(),
        top_level_wf(value),
    ensures
        final(store).wf(),
        exists|now: i64, fresh: Seq<char>|
            now >= 0 && crate::clock::is_uuid_v4(fresh) && kv_upserted(*old(store), *final(store), kv_path@, value, ttl_seconds, now, fresh, r),
{
    let now = crate::clock::now_micros();
    let fresh = crate::clock::new_node_id();
    let ghost f = fresh@;
    let r = upsert_kv_at(store, kv_path, value, ttl_seconds, now, fresh);
    assert(kv_upserted(*old(store), *store, kv_path@, value, ttl_seconds, now, f, r));
    r
}

/// The creation instants of the entries.
pub open spec fn kv_created(kv: Seq<KvRecord>) -> Seq<i64> {
    kv.map_values(|r: KvRecord| r.created_at)
}

/// Entry `i` is listed under `namespace` at instant `now`: visible, and
/// its path's namespace (what precedes the last slash) is `namespace`.
pub open spec fn in_namespace(kv: Seq<KvRecord>, namespace: Seq<char>, now: i64, i: int) -> bool {
    visible(kv[i], now) && kv_namespace(kv[i].path@) == namespace
}

/// `rows` lists, oldest first, the entries listed under `namespace` at
/// `now`, in the order `order` of their positions.
pub open spec fn namespace_listed(kv: Seq<KvRecord>, namespace: Seq<char>, now: i64, rows: Seq<KvRow>, order: Seq<usize>) -> bool {
    &&& crate::order::time_ordered_selection(
        order,
        kv.len() as int,
        |i: int| in_namespace(kv, namespace, now, i),
        kv_created(kv),
        false,
        None,
    )
    &&& rows.len() == order.len()
    &&& forall|j: int| 0 <= j < order.len() ==> row_reads(#[trigger] rows[j], kv[order[j] as int])
}

/// Lists the entries under `namespace` as of instant `now`, oldest first.
pub fn list_kv_namespace_at(store: &Store, namespace: &str, now: i64) -> (r: Vec<KvRow>)
    ensures
        exists|order: Seq<usize>| namespace_listed(store.kv@, namespace@, now, r@, order),
{
    let ghost sel = |i: int| in_namespace(store.kv@, namespace@, now, i);
    let mut cand: Vec<usize> = Vec::new();
    let mut times: Vec<i64> = Vec::new();
    for i in 0..store.kv.len()
        invariant
            sel == (|i: int| in_namespace(store.kv@, namespace@, now, i)),
            times@ == kv_created(store.kv@).take(i as int),
            forall|c: usize| #[trigger] cand@.contains(c) <==> (0 <= c < i && sel(c as int)),
            forall|k: int| 0 <= k < cand.len() ==> #[trigger] cand@[k] < i,
    {
        let rec = &store.kv[i];
        let keep = is_visible(rec, now) && {
            let (ns, _) = split_kv_path(rec.path.as_str());
            str_eq(ns.as_str(), namespace)
        };
        let ghost before = cand@;
        crate::order::push_if(&mut cand, i, keep);
        times.push(rec.created_at);
        proof {
            assert(times@ =~= kv_created(store.kv@).take(i + 1));
            if keep {
                crate::text::lemma_contains_push(before, i);
            }
        }
    }
    assert(times@ =~= kv_created(store.kv@));
    let order = order_by_time(&times, &cand, false, None);
    proof {
        crate::order::lemma_selection(order@, cand@, store.kv@.len() as int, sel, times@, false, None);
    }
    let mut rows: Vec<KvRow> = Vec::new();
    for j in 0..order.len()
        invariant
            forall|k: int| 0 <= k < order.len() ==> #[trigger] order@[k] < store.kv@.len(),
            rows@.len() == j,
            forall|m: int| 0 <= m < j ==> row_reads(#[trigger] rows@[m], store.kv@[order@[m] as int]),
    {
        rows.push(kv_row(&store.kv[order[j]]));
    }
    assert(namespace_listed(store.kv@, namespace@, now, rows@, order@));
    rows
}

/// Lists the entries under `namespace` now, oldest first.
pub fn list_kv_namespace(store: &Store, namespace: &str) -> (r: Vec<KvRow>)
    ensures
        exists|now: i64, order: Seq<usize>| now >= 0 && namespace_listed(store.kv@, namespace@, now, r@, order),
{
    let now = crate::clock::now_micros();
    let r = list_kv_namespace_at(store, namespace, now);
    let ghost order = choose|order: Seq<usize>| namespace_listed(store.kv@, namespace@, now, r@, order);
    assert(namespace_listed(store.kv@, namespace@, now, r@, order));
    r
}

/// The effect of deleting `kv_path` at `now`: the live entry with that path
/// is marked stale and touched; the result says whether there was one.
pub open spec fn kv_deleted(s0: Store, s1: Store, kv_path: Seq<char>, now: i64, r: bool) -> bool {
    &&& s1.nodes@ == s0.nodes@
    &&& s1.edges@ == s0.edges@
    &&& s1.assessments@ == s0.assessments@
    &&& r == any_live(s0.kv@, kv_path)
    &&& s1.kv@.len() == s0.kv@.len()
    &&& forall|i: int| 0 <= i < s0.kv@.len() ==> {
        let a = #[trigger] s0.kv@[i];
        if live_at(s0.kv@, kv_path, i) {
            s1.kv@[i] == KvRecord { stale: true, updated_at: now, ..a }
        } else {
            s1.kv@[i] == a
        }
    }
}

/// Deletes the entry at `kv_path` at instant `now` (see `kv_deleted`).
pub fn delete_kv_at(store: &mut Store, kv_path: &str, now: i64) -> (r: bool)
    requires
        old(store).wf(),
    ensures
        final(store).wf(),
        kv_deleted(*old(store), *final(store), kv_path@, now, r),
{
    let ghost s0 = *store;
    match find_live(store, kv_path) {
        Some(i) => {
            store.kv[i].stale = true;
            store.kv[i].updated_at = now;
            assert forall|a: int| 0 <= a < s0.kv@.len() implies {
                let x = #[trigger] s0.kv@[a];
                if live_at(s0.kv@, kv_path@, a) {
                    store.kv@[a] == KvRecord { stale: true, updated_at: now, ..x }
                } else {
                    store.kv@[a] == x
                }
            } by {
                if live_at(s0.kv@, kv_path@, a) && a != i {
                    if a < i {
                        assert(s0.kv@[a].path@ != s0.kv@[i as int].path@);
                    } else {
                        assert(s0.kv@[i as int].path@ != s0.kv@[a].path@);
                    }
                }
            }
            true
        },
        None => false,
    }
}

/// Deletes the entry at `kv_path` now (a logical delete: the entry is
/// marked stale); returns whether a live entry was there.
pub fn delete_kv(store: &mut Store, kv_path: &str) -> (r: bool)
    requires
        old(store).wf(),
    ensures
        final(store).wf(),
        exists|now: i64| now >= 0 && kv_deleted(*old(store), *final(store), kv_path@, now, r),
{
    let now = crate::clock::now_micros();
    let r = delete_kv_at(store, kv_path, now);
    assert(kv_deleted(*old(store), *store, kv_path@, now, r));
    r
}

/// The effect of patching `kv_path` at `now`: where no entry is visible
/// the result is `false` and nothing changes; otherwise the visible entry
/// takes the merge of `merge` into its value (where given) and the new
/// expiry (where a time-to-live is given), and is touched.
pub open spec fn kv_patched(
    s0: Store,
    s1: Store,
    kv_path: Seq<char>,
    merge: Option<Json>,
    ttl_seconds: Option<i64>,
    now: i64,
    r: Result<bool, StoreError>,
) -> bool {
    &&& s1.nodes@ == s0.nodes@
    &&& s1.edges@ == s0.edges@
    &&& s1.assessments@ == s0.assessments@
    &&& if !any_visible(s0.kv@, kv_path, now) {
        r == Ok::<bool, StoreError>(false) && s1.kv@ == s0.kv@
    } else if expiry_for(now, ttl_seconds) is None {
        r matches Err(e) && e is TtlOutOfRange && s1.kv@ == s0.kv@
    } else {
        &&& r == Ok::<bool, StoreError>(true)
        &&& s1.kv@.len() == s0.kv@.len()
        &&& forall|i: int| 0 <= i < s0.kv@.len() ==> {
            let a = #[trigger] s0.kv@[i];
            let b = s1.kv@[i];
            if first_visible(s0.kv@, kv_path, now, i) {
                &&& b.id == a.id
                &&& b.path == a.path
                &&& b.created_at == a.created_at
                &&& b.stale == a.stale
                &&& b.updated_at == now
                &&& match merge {
                    Some(m) => crate::json::is_merge(a.value, m, b.value),
                    None => b.value == a.value,
                }
                &&& b.expires_at == if ttl_seconds is Some {
                    expiry_for(now, ttl_seconds)->0
                } else {
                    a.expires_at
                }
            } else {
                b == a
            }
        }
    }
}

/// Patches the entry at `kv_path` at instant `now` (see `kv_patched`).
pub fn patch_kv_at(
    store: &mut Store,
    kv_path: &str,
    merge: Option<Json>,
    ttl_seconds: Option<i64>,
    now: i64,
) -> (r: Result<bool, StoreError>)
    requires
        old(store).wf(),
        merge matches Some(m) ==> top_level_wf(m),
    ensures
        final(store).wf(),
        kv_patched(*old(store), *final(store), kv_path@, merge, ttl_seconds, now, r),
{
    let ghost s0 = *store;
    let i = match find_visible(store, kv_path, now) {
        Some(i) => i,
        None => {
            return Ok(false);
        },
    };
    let exp = match expiry(now, ttl_seconds) {
        Some(e) => e,
        None => {
            return Err(StoreError::TtlOutOfRange);
        },
    };
    let mut rec = store.kv.remove(i);
    assert(rec == s0.kv@[i as int]);
    let value = match merge {
        Some(m) => crate::json::merge_value(rec.value, m),
        None => rec.value,
    };
    rec.value = value;
    if ttl_seconds.is_some() {
        rec.expires_at = exp;
    }
    rec.updated_at = now;
    store.kv.insert(i, rec);
    assert forall|a: int| 0 <= a < s0.kv@.len() && a != i implies store.kv@[a] == s0.kv@[a] by {}
    assert forall|a: int| 0 <= a < s0.kv@.len() implies first_visible(s0.kv@, kv_path@, now, a) == (a == i) by {}
    proof {
        assert forall|a: int| 0 <= a < s0.kv@.len() implies (#[trigger] store.kv@[a]).id@ == s0.kv@[a].id@ by {}
        crate::store::lemma_ends_kept(s0, *store);
    }
    Ok(true)
}

/// Patches the entry at `kv_path` now: merges `merge` into its value where
/// given and resets its expiry to `ttl_seconds` from now where given.
/// Returns `false` where no entry is visible there.
pub fn patch_kv(store: &mut Store, kv_path: &str, merge: Option<Json>, ttl_seconds: Option<i64>) -> (r: Result<
    bool,
    StoreError,
>)
    requires
        old(store).wf(),
        merge matches Some(m) ==> top_level_wf(m),
    ensures
        final(store).wf(),
        exists|now: i64| now >= 0 && kv_patched(*old(store), *final(store), kv_path@, merge, ttl_seconds, now, r),
{
    let now = crate::clock::now_micros();
    let r = patch_kv_at(store, kv_path, merge, ttl_seconds, now);
    assert(kv_patched(*old(store), *store, kv_path@, merge, ttl_seconds, now, r));
    r
}

/// Merges `merge_json` into the value at `kv_path` now, leaving its expiry
/// as it is; returns `false` where no entry is visible there.
pub fn patch_kv_merge(store: &mut Store, kv_path: &str, merge_json: Json) -> (r: Result<bool, StoreError>)
    requires
        old(store).wf(),
        top_level_wf(merge_json),
    ensures
        final(store).wf(),
        exists|now: i64| now >= 0 && kv_patched(*old(store), *final(store), kv_path@, Some(merge_json), None, now, r),
{
    patch_kv(store, kv_path, Some(merge_json), None)
}

} // verus!

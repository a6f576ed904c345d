//! A model of JSON values, as `serde_json::Value` holds them, and the
//! shallow object merge that the key/value store applies on `PATCH`.

use vstd::prelude::*;

verus! {

/// A JSON number, split the way `serde_json` keeps it: a non-negative
/// integer, a negative integer, or a floating-point number held as the text
/// that `serde_json` writes for it.
#[derive(Debug, Clone, PartialEq)]
pub enum JsonNumber {
    PosInt(u64),
    NegInt(i64),
    Float(String),
}

/// A JSON value. Object members keep their order; a well-formed object has
/// no key twice (see `keys_distinct`).
#[derive(Debug, PartialEq)]
pub enum Json {
    Null,
    Bool(bool),
    Number(JsonNumber),
    Str(String),
    Array(Vec<Json>),
    Object(Vec<(String, Json)>),
}


/// The mathematical value of a JSON number.
pub enum NumberV {
    PosInt(u64),
    NegInt(i64),
    Float(Seq<char>),
}

/// The mathematical value of a JSON value: strings as their characters.
pub enum JsonV {
    Null,
    Bool(bool),
    Number(NumberV),
    Str(Seq<char>),
    Array(Seq<JsonV>),
    Object(Seq<(Seq<char>, JsonV)>),
}

/// The value of a JSON number.
pub open spec fn number_view(n: JsonNumber) -> NumberV {
    match n {
        JsonNumber::PosInt(u) => NumberV::PosInt(u),
        JsonNumber::NegInt(i) => NumberV::NegInt(i),
        JsonNumber::Float(t) => NumberV::Float(t@),
    }
}

/// The value of a JSON value.
pub open spec fn jv(j: Json) -> JsonV
    decreases j,
{
    match j {
        Json::Null => JsonV::Null,
        Json::Bool(b) => JsonV::Bool(b),
        Json::Number(n) => JsonV::Number(number_view(n)),
        Json::Str(s) => JsonV::Str(s@),
        Json::Array(v) => JsonV::Array(jv_list(v@)),
        Json::Object(es) => JsonV::Object(jv_members(es@)),
    }
}

/// The values of a list of JSON values.
pub open spec fn jv_list(s: Seq<Json>) -> Seq<JsonV>
    decreases s,
{
    if s.len() == 0 {
        Seq::empty()
    } else {
        jv_list(s.drop_last()).push(jv(s.last()))
    }
}

/// The values of a list of object members.
pub open spec fn jv_members(s: Seq<(String, Json)>) -> Seq<(Seq<char>, JsonV)>
    decreases s,
{
    if s.len() == 0 {
        Seq::empty()
    } else {
        jv_members(s.drop_last()).push((s.last().0@, jv(s.last().1)))
    }
}

/// No key occurs twice among the members.
pub open spec fn keys_distinct(es: Seq<(String, Json)>) -> bool {
    forall|i: int, j: int| 0 <= i < j < es.len() ==> (#[trigger] es[i]).0@ != (#[trigger] es[j]).0@
}

/// Some member has key `k`.
pub open spec fn has_key(es: Seq<(String, Json)>, k: Seq<char>) -> bool {
    exists|i: int| 0 <= i < es.len() && (#[trigger] es[i]).0@ == k
}

/// The position of a member with key `k`.
pub open spec fn key_index(es: Seq<(String, Json)>, k: Seq<char>) -> int {
    choose|i: int| 0 <= i < es.len() && (#[trigger] es[i]).0@ == k
}

/// The value of the member with key `k`.
pub open spec fn value_at(es: Seq<(String, Json)>, k: Seq<char>) -> Json {
    es[key_index(es, k)].1
}

/// Whether the value is an object whose keys are distinct (the top level of
/// a value that `serde_json` produced).
pub open spec fn top_level_wf(j: Json) -> bool {
    j matches Json::Object(es) ==> keys_distinct(es@)
}

/// The position of the member with key `k`, if any.
pub fn find_key(es: &Vec<(String, Json)>, k: &str) -> (r: Option<usize>)
    ensures
        match r {
            Some(i) => i < es.len() && es@[i as int].0@ == k@ && forall|m: int|
                0 <= m < i ==> (#[trigger] es@[m]).0@ != k@,
            None => !has_key(es@, k@),
        },
{
    let mut i: usize = 0;
    while i < es.len()
        invariant
            i <= es.len(),
            forall|m: int| 0 <= m < i ==> (#[trigger] es@[m]).0@ != k@,
        decreases es.len() - i,
    {
        if crate::kinds::str_eq(es[i].0.as_str(), k) {
            return Some(i);
        }
        i = i + 1;
    }
    None
}

/// The position of the first member with key `k`.
pub open spec fn first_key_index(es: Seq<(String, Json)>, k: Seq<char>) -> int {
    choose|i: int|
        0 <= i < es.len() && (#[trigger] es[i]).0@ == k && forall|m: int| 0 <= m < i ==> (#[trigger] es[m]).0@ != k
}

/// The member `k` of an object, as `value[k]` reads it in `serde_json`: the
/// first member with that key; `None` where there is none or the value is
/// not an object.
pub open spec fn lookup(j: Json, k: Seq<char>) -> Option<Json> {
    match j {
        Json::Object(es) => if has_key(es@, k) {
            Some(es@[first_key_index(es@, k)].1)
        } else {
            None
        },
        _ => None,
    }
}

/// The member `key` of an object (see `lookup`).
pub fn member<'a>(j: &'a Json, key: &str) -> (r: Option<&'a Json>)
    ensures
        match r {
            Some(v) => lookup(*j, key@) == Some(*v),
            None => lookup(*j, key@) is None,
        },
{
    match j {
        Json::Object(es) => match find_key(es, key) {
            Some(i) => {
                assert(has_key(es@, key@));
                let ghost f = first_key_index(es@, key@);
                assert(f == i);
                Some(&es[i].1)
            },
            None => None,
        },
        _ => None,
    }
}

/// The text of a string member, as `value[key].as_str()` gives it.
pub fn member_str(j: &Json, key: &str) -> (r: Option<String>)
    ensures
        match lookup(*j, key@) {
            Some(Json::Str(t)) => r matches Some(s) && s@ == t@,
            _ => r is None,
        },
{
    match member(j, key) {
        Some(Json::Str(s)) => Some(s.clone()),
        _ => None,
    }
}

/// A copy of a JSON number.
pub fn number_copy(n: &JsonNumber) -> (r: JsonNumber)
    ensures
        number_view(r) == number_view(*n),
{
    match n {
        JsonNumber::PosInt(u) => JsonNumber::PosInt(*u),
        JsonNumber::NegInt(i) => JsonNumber::NegInt(*i),
        JsonNumber::Float(t) => JsonNumber::Float(t.clone()),
    }
}

/// A deep copy of a JSON value.
#[verifier::loop_isolation(false)]
pub fn json_copy(j: &Json) -> (r: Json)
    ensures
        jv(r) == jv(*j),
    decreases j,
{
    match j {
        Json::Null => Json::Null,
        Json::Bool(b) => Json::Bool(*b),
        Json::Number(n) => Json::Number(number_copy(n)),
        Json::Str(s) => Json::Str(s.clone()),
        Json::Array(v) => {
            let mut out: Vec<Json> = Vec::new();
            for i in 0..v.len()
                invariant
                    jv_list(out@) == jv_list(v@.take(i as int)),
            {
                assert(v@.take(i + 1).drop_last() =~= v@.take(i as int));
                let ghost before = out@;
                proof {
                    vstd::std_specs::vec::axiom_vec_index_decreases(*v, i as int);
                    assert(decreases_to!(*j => *v));
                    assert(decreases_to!(*v => v@[i as int]));
                    assert(decreases_to!(*j => v@[i as int]));
                }
                let c = json_copy(&v[i]);
                out.push(c);
                assert(out@.drop_last() =~= before);
            }
            assert(v@.take(v.len() as int) =~= v@);
            Json::Array(out)
        },
        Json::Object(es) => {
            let mut out: Vec<(String, Json)> = Vec::new();
            for i in 0..es.len()
                invariant
                    jv_members(out@) == jv_members(es@.take(i as int)),
            {
                assert(es@.take(i + 1).drop_last() =~= es@.take(i as int));
                let ghost before = out@;
                proof {
                    vstd::std_specs::vec::axiom_vec_index_decreases(*es, i as int);
                    assert(decreases_to!(*j => *es));
                    assert(decreases_to!(*es => es@[i as int]));
                    assert(decreases_to!(es@[i as int] => es@[i as int].1));
                    assert(decreases_to!(*j => es@[i as int].1));
                }
                let c = json_copy(&es[i].1);
                out.push((es[i].0.clone(), c));
                assert(out@.drop_last() =~= before);
            }
            assert(es@.take(es.len() as int) =~= es@);
            Json::Object(out)
        },
    }
}

/// `r` is the shallow merge of `overlay` into `base`: its keys are those of
/// both, distinct; a key of `overlay` has its value from `overlay`, any
/// other key its value from `base`.
pub open spec fn is_shallow_merge(r: Seq<(String, Json)>, base: Seq<(String, Json)>, overlay: Seq<(String, Json)>) -> bool {
    &&& keys_distinct(r)
    &&& forall|k: Seq<char>| #[trigger] has_key(r, k) <==> (has_key(base, k) || has_key(overlay, k))
    &&& forall|k: Seq<char>| has_key(overlay, k) ==> #[trigger] value_at(r, k) == value_at(overlay, k)
    &&& forall|k: Seq<char>| !has_key(overlay, k) && has_key(base, k) ==> #[trigger] value_at(r, k) == value_at(base, k)
}

/// Shallow merge of object members: each member of `overlay`, in order,
/// replaces the member of `base` with the same key in place, or is appended.
pub fn merge_members(base: Vec<(String, Json)>, overlay: Vec<(String, Json)>) -> (r: Vec<(String, Json)>)
    requires
        keys_distinct(base@),
        keys_distinct(overlay@),
    ensures
        is_shallow_merge(r@, base@, overlay@),
{
    let mut r = base;
    let mut rest = overlay;
    let ghost b = r@;
    let ghost o = rest@;
    let ghost mut done: int = 0;
    while rest.len() > 0
        invariant
            0 <= done <= o.len(),
            rest@ == o.skip(done),
            keys_distinct(o),
            keys_distinct(r@),
            forall|k: Seq<char>| #[trigger] has_key(r@, k) <==> (has_key(b, k) || has_key(o.take(done), k)),
            forall|k: Seq<char>| has_key(o.take(done), k) ==> #[trigger] value_at(r@, k) == value_at(o, k),
            forall|k: Seq<char>| !has_key(o.take(done), k) && has_key(b, k) ==> #[trigger] value_at(r@, k) == value_at(b, k),
        decreases rest.len(),
    {
        let ghost prev = r@;
        let (key, val) = rest.remove(0);
        let ghost ok = key@;
        assert(o[done] == (key, val));
        assert(o.skip(done + 1) == o.skip(done).drop_first());
        assert forall|k: Seq<char>| #[trigger] has_key(o.take(done + 1), k) <==> (has_key(o.take(done), k) || k == ok) by {
            if has_key(o.take(done + 1), k) {
                let i = choose|i: int| 0 <= i < o.take(done + 1).len() && (#[trigger] o.take(done + 1)[i]).0@ == k;
                if i < done {
                    assert(o.take(done)[i] == o.take(done + 1)[i]);
                }
            }
            if has_key(o.take(done), k) {
                let i = choose|i: int| 0 <= i < o.take(done).len() && (#[trigger] o.take(done)[i]).0@ == k;
                assert(o.take(done + 1)[i] == o.take(done)[i]);
            }
            if k == ok {
                assert(o.take(done + 1)[done] == o[done]);
            }
        }
        assert(!has_key(o.take(done), ok)) by {
            if has_key(o.take(done), ok) {
                let i = choose|i: int| 0 <= i < o.take(done).len() && (#[trigger] o.take(done)[i]).0@ == ok;
                assert(o[i].0@ == o[done].0@);
            }
        }
        assert(value_at(o, ok) == val) by {
            let i = key_index(o, ok);
            assert(o[done].0@ == ok);
            assert(i == done);
        }
        match find_key(&r, key.as_str()) {
            Some(i) => {
                r.set(i, (key, val));
                assert forall|k: Seq<char>| #[trigger] has_key(r@, k) <==> has_key(prev, k) by {
                    if has_key(r@, k) {
                        let m = choose|m: int| 0 <= m < r@.len() && (#[trigger] r@[m]).0@ == k;
                        assert(prev[m].0@ == k);
                    }
                    if has_key(prev, k) {
                        let m = choose|m: int| 0 <= m < prev.len() && (#[trigger] prev[m]).0@ == k;
                        assert(r@[m].0@ == k);
                    }
                }
                assert forall|k: Seq<char>| has_key(r@, k) && k != ok implies #[trigger] value_at(r@, k) == value_at(prev, k) by {
                    let m = key_index(r@, k);
                    let m2 = key_index(prev, k);
                    assert(r@[m].0@ == k);
                    assert(prev[m2].0@ == k);
                    assert(m != i);
                    assert(prev[m].0@ == k);
                    assert(m == m2);
                }
                assert(value_at(r@, ok) == val) by {
                    let m = key_index(r@, ok);
                    assert(r@[i as int].0@ == ok);
                    assert(m == i);
                }
            },
            None => {
                r.push((key, val));
                assert forall|k: Seq<char>| #[trigger] has_key(r@, k) <==> (has_key(prev, k) || k == ok) by {
                    if has_key(r@, k) {
                        let m = choose|m: int| 0 <= m < r@.len() && (#[trigger] r@[m]).0@ == k;
                        if m < prev.len() {
                            assert(prev[m].0@ == k);
                        }
                    }
                    if has_key(prev, k) {
                        let m = choose|m: int| 0 <= m < prev.len() && (#[trigger] prev[m]).0@ == k;
                        assert(r@[m].0@ == k);
                    }
                    if k == ok {
                        assert(r@[prev.len() as int].0@ == k);
                    }
                }
                assert forall|k: Seq<char>| has_key(r@, k) && k != ok implies #[trigger] value_at(r@, k) == value_at(prev, k) by {
                    let m = key_index(r@, k);
                    let m2 = key_index(prev, k);
                    assert(r@[m].0@ == k);
                    assert(m < prev.len());
                    assert(prev[m].0@ == k);
                    assert(prev[m2].0@ == k);
                    assert(m == m2);
                }
                assert(value_at(r@, ok) == val) by {
                    let m = key_index(r@, ok);
                    assert(r@[prev.len() as int].0@ == ok);
                    assert(m == prev.len());
                }
            },
        }
        proof {
            done = done + 1;
        }
    }
    assert(o.take(o.len() as int) =~= o);
    r
}

/// `r` is what merging `patch` into `base` gives: two objects merge
/// shallowly, a `null` patch leaves `base` as it is, and any other patch
/// replaces it.
pub open spec fn is_merge(base: Json, patch: Json, r: Json) -> bool {
    match (base, patch) {
        (Json::Object(b), Json::Object(o)) => r matches Json::Object(es) && is_shallow_merge(es@, b@, o@),
        (_, Json::Null) => r == base,
        (_, _) => r == patch,
    }
}

/// Merges `patch` into `base` (see `is_merge`).
pub fn merge_value(base: Json, patch: Json) -> (r: Json)
    requires
        top_level_wf(base),
        top_level_wf(patch),
    ensures
        is_merge(base, patch, r),
        top_level_wf(r),
{
    match (base, patch) {
        (Json::Object(b), Json::Object(o)) => Json::Object(merge_members(b, o)),
        (b, Json::Null) => b,
        (_, o) => o,
    }
}

/// The values of a list are the values of its items, in order.
pub proof fn lemma_jv_list(s: Seq<Json>)
    ensures
        jv_list(s).len() == s.len(),
        forall|i: int| 0 <= i < s.len() ==> #[trigger] jv_list(s)[i] == jv(s[i]),
    decreases s.len(),
{
    if s.len() > 0 {
        lemma_jv_list(s.drop_last());
        assert forall|i: int| 0 <= i < s.len() implies #[trigger] jv_list(s)[i] == jv(s[i]) by {
            if i < s.len() - 1 {
                assert(s.drop_last()[i] == s[i]);
            }
        }
    }
}

/// The values of object members are the members' keys and values, in order.
pub proof fn lemma_jv_members(s: Seq<(String, Json)>)
    ensures
        jv_members(s).len() == s.len(),
        forall|i: int| 0 <= i < s.len() ==> #[trigger] jv_members(s)[i] == (s[i].0@, jv(s[i].1)),
    decreases s.len(),
{
    if s.len() > 0 {
        lemma_jv_members(s.drop_last());
        assert forall|i: int| 0 <= i < s.len() implies #[trigger] jv_members(s)[i] == (s[i].0@, jv(s[i].1)) by {
            if i < s.len() - 1 {
                assert(s.drop_last()[i] == s[i]);
            }
        }
    }
}

/// A JSON string holding `s`.
pub fn json_text(s: &str) -> (j: Json)
    ensures
        jv(j) == JsonV::Str(s@),
{
    Json::Str(String::from_str(s))
}

/// An object member: the key `k` and the value `v`.
pub fn member_of(k: &str, v: Json) -> (m: (String, Json))
    ensures
        m.0@ == k@,
        m.1 == v,
{
    (String::from_str(k), v)
}

/// Whether no key occurs twice among the members.
pub fn keys_distinct_exec(es: &Vec<(String, Json)>) -> (r: bool)
    ensures
        r == keys_distinct(es@),
{
    let n = es.len();
    for j in 0..n
        invariant
            n == es@.len(),
            forall|a: int, b: int| 0 <= a < b < j ==> (#[trigger] es@[a]).0@ != (#[trigger] es@[b]).0@,
    {
        for i in 0..j
            invariant
                n == es@.len(),
                j < n,
                forall|a: int, b: int| 0 <= a < b < j ==> (#[trigger] es@[a]).0@ != (#[trigger] es@[b]).0@,
                forall|a: int| 0 <= a < i ==> (#[trigger] es@[a]).0@ != es@[j as int].0@,
        {
            if crate::kinds::str_eq(es[i].0.as_str(), es[j].0.as_str()) {
                assert(es@[i as int].0@ == es@[j as int].0@);
                return false;
            }
        }
    }
    true
}

/// Whether the value is an object whose keys are distinct, or no object
/// (see `top_level_wf`).
pub fn top_level_wf_exec(j: &Json) -> (r: bool)
    ensures
        r == top_level_wf(*j),
{
    match j {
        Json::Object(es) => keys_distinct_exec(es),
        _ => true,
    }
}

} // verus!

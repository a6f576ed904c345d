//! Checking that a store read from outside meets the table constraints
//! (`Store::wf`) that the operations require.

use vstd::prelude::*;
use crate::kinds::str_eq;
use crate::store::{Store, same_edge_key, id_in_use};
use crate::json::{top_level_wf, top_level_wf_exec};

verus! {

fn node_ids_distinct(s: &Store) -> (r: bool)
    ensures
        r == forall|i: int, j: int|
            0 <= i < j < s.nodes@.len() ==> (#[trigger] s.nodes@[i]).id@ != (#[trigger] s.nodes@[j]).id@,
{
    let n = s.nodes.len();
    for j in 0..n
        invariant
            n == s.nodes@.len(),
            forall|a: int, b: int| 0 <= a < b < j ==> (#[trigger] s.nodes@[a]).id@ != (#[trigger] s.nodes@[b]).id@,
    {
        for i in 0..j
            invariant
                n == s.nodes@.len(),
                j < n,
                forall|a: int, b: int| 0 <= a < b < j ==> (#[trigger] s.nodes@[a]).id@ != (#[trigger] s.nodes@[b]).id@,
                forall|a: int| 0 <= a < i ==> (#[trigger] s.nodes@[a]).id@ != s.nodes@[j as int].id@,
        {
            if str_eq(s.nodes[i].id.as_str(), s.nodes[j].id.as_str()) {
                assert(s.nodes@[i as int].id@ == s.nodes@[j as int].id@);
                return false;
            }
        }
    }
    true
}

fn kv_ids_distinct(s: &Store) -> (r: bool)
    ensures
        r == forall|i: int, j: int| 0 <= i < j < s.kv@.len() ==> (#[trigger] s.kv@[i]).id@ != (#[trigger] s.kv@[j]).id@,
{
    let n = s.kv.len();
    for j in 0..n
        invariant
            n == s.kv@.len(),
            forall|a: int, b: int| 0 <= a < b < j ==> (#[trigger] s.kv@[a]).id@ != (#[trigger] s.kv@[b]).id@,
    {
        for i in 0..j
            invariant
                n == s.kv@.len(),
                j < n,
                forall|a: int, b: int| 0 <= a < b < j ==> (#[trigger] s.kv@[a]).id@ != (#[trigger] s.kv@[b]).id@,
                forall|a: int| 0 <= a < i ==> (#[trigger] s.kv@[a]).id@ != s.kv@[j as int].id@,
        {
            if str_eq(s.kv[i].id.as_str(), s.kv[j].id.as_str()) {
                assert(s.kv@[i as int].id@ == s.kv@[j as int].id@);
                return false;
            }
        }
    }
    true
}

fn node_kv_ids_disjoint(s: &Store) -> (r: bool)
    ensures
        r == forall|i: int, j: int|
            0 <= i < s.nodes@.len() && 0 <= j < s.kv@.len() ==> (#[trigger] s.nodes@[i]).id@ != (#[trigger] s.kv@[j]).id@,
{
    let n = s.nodes.len();
    let m = s.kv.len();
    for i in 0..n
        invariant
            n == s.nodes@.len(),
            m == s.kv@.len(),
            forall|a: int, b: int| 0 <= a < i && 0 <= b < m ==> (#[trigger] s.nodes@[a]).id@ != (#[trigger] s.kv@[b]).id@,
    {
        for j in 0..m
            invariant
                n == s.nodes@.len(),
                m == s.kv@.len(),
                i < n,
                forall|a: int, b: int| 0 <= a < i && 0 <= b < m ==> (#[trigger] s.nodes@[a]).id@ != (#[trigger] s.kv@[b]).id@,
                forall|b: int| 0 <= b < j ==> s.nodes@[i as int].id@ != (#[trigger] s.kv@[b]).id@,
        {
            if str_eq(s.nodes[i].id.as_str(), s.kv[j].id.as_str()) {
                assert(s.nodes@[i as int].id@ == s.kv@[j as int].id@);
                return false;
            }
        }
    }
    true
}

fn same_edge_key_exec(s: &Store, i: usize, j: usize) -> (r: bool)
    requires
        i < s.edges@.len(),
        j < s.edges@.len(),
    ensures
        r == same_edge_key(s.edges@[i as int], s.edges@[j as int]),
{
    let a = &s.edges[i];
    let b = &s.edges[j];
    str_eq(a.from_id.as_str(), b.from_id.as_str()) && str_eq(a.to_id.as_str(), b.to_id.as_str()) && str_eq(
        a.kind.as_str(),
        b.kind.as_str(),
    )
}

fn edge_keys_distinct(s: &Store) -> (r: bool)
    ensures
        r == forall|i: int, j: int|
            0 <= i < j < s.edges@.len() ==> !same_edge_key(#[trigger] s.edges@[i], #[trigger] s.edges@[j]),
{
    let n = s.edges.len();
    for j in 0..n
        invariant
            n == s.edges@.len(),
            forall|a: int, b: int| 0 <= a < b < j ==> !same_edge_key(#[trigger] s.edges@[a], #[trigger] s.edges@[b]),
    {
        for i in 0..j
            invariant
                n == s.edges@.len(),
                j < n,
                forall|a: int, b: int| 0 <= a < b < j ==> !same_edge_key(#[trigger] s.edges@[a], #[trigger] s.edges@[b]),
                forall|a: int| 0 <= a < i ==> !same_edge_key(#[trigger] s.edges@[a], s.edges@[j as int]),
        {
            if same_edge_key_exec(s, i, j) {
                return false;
            }
        }
    }
    true
}

fn assessment_ids_distinct(s: &Store) -> (r: bool)
    ensures
        r == forall|i: int, j: int|
            0 <= i < j < s.assessments@.len() ==> (#[trigger] s.assessments@[i]).id@ != (#[trigger] s.assessments@[j]).id@,
{
    let n = s.assessments.len();
    for j in 0..n
        invariant
            n == s.assessments@.len(),
            forall|a: int, b: int|
                0 <= a < b < j ==> (#[trigger] s.assessments@[a]).id@ != (#[trigger] s.assessments@[b]).id@,
    {
        for i in 0..j
            invariant
                n == s.assessments@.len(),
                j < n,
                forall|a: int, b: int|
                    0 <= a < b < j ==> (#[trigger] s.assessments@[a]).id@ != (#[trigger] s.assessments@[b]).id@,
                forall|a: int| 0 <= a < i ==> (#[trigger] s.assessments@[a]).id@ != s.assessments@[j as int].id@,
        {
            if str_eq(s.assessments[i].id.as_str(), s.assessments[j].id.as_str()) {
                assert(s.assessments@[i as int].id@ == s.assessments@[j as int].id@);
                return false;
            }
        }
    }
    true
}

fn kv_values_wf(s: &Store) -> (r: bool)
    ensures
        r == forall|i: int| 0 <= i < s.kv@.len() ==> top_level_wf(#[trigger] s.kv@[i].value),
{
    let n = s.kv.len();
    for i in 0..n
        invariant
            n == s.kv@.len(),
            forall|a: int| 0 <= a < i ==> top_level_wf(#[trigger] s.kv@[a].value),
    {
        if !top_level_wf_exec(&s.kv[i].value) {
            return false;
        }
    }
    true
}

fn live_paths_distinct(s: &Store) -> (r: bool)
    ensures
        r == forall|i: int, j: int|
            0 <= i < j < s.kv@.len() && !s.kv@[i].stale && !s.kv@[j].stale ==> (#[trigger] s.kv@[i]).path@
                != (#[trigger] s.kv@[j]).path@,
{
    let n = s.kv.len();
    for j in 0..n
        invariant
            n == s.kv@.len(),
            forall|a: int, b: int|
                0 <= a < b < j && !s.kv@[a].stale && !s.kv@[b].stale ==> (#[trigger] s.kv@[a]).path@
                    != (#[trigger] s.kv@[b]).path@,
    {
        for i in 0..j
            invariant
                n == s.kv@.len(),
                j < n,
                forall|a: int, b: int|
                    0 <= a < b < j && !s.kv@[a].stale && !s.kv@[b].stale ==> (#[trigger] s.kv@[a]).path@
                        != (#[trigger] s.kv@[b]).path@,
                forall|a: int|
                    0 <= a < i && !s.kv@[a].stale && !s.kv@[j as int].stale ==> (#[trigger] s.kv@[a]).path@
                        != s.kv@[j as int].path@,
        {
            if !s.kv[i].stale && !s.kv[j].stale && str_eq(s.kv[i].path.as_str(), s.kv[j].path.as_str()) {
                assert(s.kv@[i as int].path@ == s.kv@[j as int].path@);
                return false;
            }
        }
    }
    true
}

fn ends_stored(s: &Store) -> (r: bool)
    ensures
        r == s.ends_stored(),
{
    let n = s.edges.len();
    for i in 0..n
        invariant
            n == s.edges@.len(),
            forall|a: int|
                0 <= a < i ==> s.id_used((#[trigger] s.edges@[a]).from_id@) && s.id_used(s.edges@[a].to_id@),
    {
        if !id_in_use(s, s.edges[i].from_id.as_str()) || !id_in_use(s, s.edges[i].to_id.as_str()) {
            return false;
        }
    }
    true
}

/// Whether the store meets its table constraints (see `Store::wf`).
pub fn is_well_formed(s: &Store) -> (r: bool)
    ensures
        r == s.wf(),
{
    ends_stored(s) && node_ids_distinct(s) && kv_ids_distinct(s) && node_kv_ids_disjoint(s) && edge_keys_distinct(s)
        && assessment_ids_distinct(s) && kv_values_wf(s) && live_paths_distinct(s)
}

} // verus!

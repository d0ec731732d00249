//! The listener registry's storage: a `rustc_hash::FxHashMap` keyed by subscriber id.
//!
//! `FxHashMap<K, V>` is `std::collections::HashMap<K, V, BuildHasherDefault<FxHasher>>`.
//! vstd describes `HashMap` only for hashers it knows, so each operation the registry uses
//! is stated here over the map's view.
use rustc_hash::{FxHashMap, FxHasher};
use std::hash::BuildHasherDefault;
use vstd::prelude::*;

verus! {

/// rustc_hash's hasher, carried inside the map's type.
#[verifier::external_type_specification]
#[verifier::external_body]
pub struct ExFxHasher(FxHasher);

/// std's builder of default-constructed hashers, the map's third type parameter.
#[verifier::external_type_specification]
#[verifier::external_body]
#[verifier::reject_recursive_types(H)]
pub struct ExBuildHasherDefault<H>(BuildHasherDefault<H>);

/// Relies on `Default` for `HashMap` (via `FxHashMap::default`): a new map is empty.
#[verifier::external_body]
pub(crate) fn map_new<V>() -> (r: FxHashMap<usize, V>)
    ensures
        r@.dom().is_empty(),
{
    FxHashMap::default()
}

/// Relies on `HashMap::get`: the value stored under `k`, if any.
#[verifier::external_body]
pub(crate) fn map_get<V>(m: &FxHashMap<usize, V>, k: usize) -> (r: Option<&V>)
    ensures
        m@.contains_key(k) ==> r == Some(&m@[k]),
        !m@.contains_key(k) ==> r is None,
{
    m.get(&k)
}

/// Relies on `HashMap::insert`: afterwards `k` maps to `v` and no other key changed.
#[verifier::external_body]
pub(crate) fn map_insert<V>(m: &mut FxHashMap<usize, V>, k: usize, v: V)
    ensures
        final(m)@ == old(m)@.insert(k, v),
{
    m.insert(k, v);
}

/// Relies on `HashMap::remove`: afterwards `k` is absent, and the value it had is returned.
#[verifier::external_body]
pub(crate) fn map_remove<V>(m: &mut FxHashMap<usize, V>, k: usize) -> (r: Option<V>)
    ensures
        final(m)@ == old(m)@.remove(k),
        old(m)@.contains_key(k) ==> r == Some(old(m)@[k]),
        !old(m)@.contains_key(k) ==> r is None,
{
    m.remove(&k)
}

/// Relies on `HashMap::keys`: every key of the map, each exactly once, in some order.
#[verifier::external_body]
pub(crate) fn map_keys<V>(m: &FxHashMap<usize, V>) -> (r: Vec<usize>)
    ensures
        r@.no_duplicates(),
        r@.to_set() == m@.dom(),
{
    m.keys().copied().collect()
}

} // verus!

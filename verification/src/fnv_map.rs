//! The maps of the `fnv` crate.
//!
//! `fnv::FnvHashMap` is the standard library's `HashMap` with the Fowler-Noll-Vo
//! hasher of `fnv`. That hasher starts from a constant and folds in the bytes it
//! is given, so equal keys always hash alike and the map behaves as a map. The
//! functions below say so of each method that the library calls.
use fnv::{FnvHashMap, FnvHasher};
use std::hash::{BuildHasherDefault, Hash};
use vstd::prelude::*;
use vstd::std_specs::hash::obeys_key_model;

verus! {

/// The hasher of `fnv`.
#[verifier::external_type_specification]
#[verifier::external_body]
pub struct ExFnvHasher(FnvHasher);

/// What makes the hashers of an `FnvHashMap`.
#[verifier::external_type_specification]
#[verifier::external_body]
#[verifier::reject_recursive_types(H)]
pub struct ExBuildHasherDefault<H>(BuildHasherDefault<H>);

/// `FnvHashMap::insert`: binds `k` to `v` and hands back what `k` was bound to.
#[verifier::external_body]
pub(crate) fn fnv_insert<K: Eq + Hash, V>(m: &mut FnvHashMap<K, V>, k: K, v: V) -> (prev: Option<V>)
    requires
        obeys_key_model::<K>(),
    ensures
        final(m)@ == old(m)@.insert(k, v),
        prev == (if old(m)@.contains_key(k) { Some(old(m)@[k]) } else { None::<V> }),
{
    m.insert(k, v)
}

/// `FnvHashMap::get`: the value that `k` is bound to.
#[verifier::external_body]
pub(crate) fn fnv_get<'a, K: Eq + Hash, V>(m: &'a FnvHashMap<K, V>, k: &K) -> (found: Option<&'a V>)
    requires
        obeys_key_model::<K>(),
    ensures
        found == (if m@.contains_key(*k) { Some(&m@[*k]) } else { None::<&V> }),
{
    m.get(k)
}

/// `FnvHashMap::get_mut`: the place of the value that `k` is bound to. What the
/// caller writes there is what `k` is bound to afterwards, and nothing else in
/// the map changes.
#[verifier::external_body]
pub(crate) fn fnv_get_mut<'a, K: Eq + Hash, V>(m: &'a mut FnvHashMap<K, V>, k: &K) -> (found:
    Option<&'a mut V>)
    requires
        obeys_key_model::<K>(),
    ensures
        match found {
            Some(v) => {
                &&& old(m)@.contains_key(*k)
                &&& *v == old(m)@[*k]
                &&& final(m)@ == old(m)@.insert(*k, *final(v))
            },
            None => !old(m)@.contains_key(*k) && final(m)@ == old(m)@,
        },
{
    m.get_mut(k)
}

/// `FnvHashMap::remove`: unbinds `k` and hands back what it was bound to.
#[verifier::external_body]
pub(crate) fn fnv_remove<K: Eq + Hash, V>(m: &mut FnvHashMap<K, V>, k: &K) -> (prev: Option<V>)
    requires
        obeys_key_model::<K>(),
    ensures
        final(m)@ == old(m)@.remove(*k),
        prev == (if old(m)@.contains_key(*k) { Some(old(m)@[*k]) } else { None::<V> }),
{
    m.remove(k)
}

/// `FnvHashMap::keys`: every key once. In which order they come is left open.
#[verifier::external_body]
pub(crate) fn fnv_keys<K: Eq + Hash + Copy, V>(m: &FnvHashMap<K, V>) -> (keys: Vec<K>)
    requires
        obeys_key_model::<K>(),
    ensures
        keys@.no_duplicates(),
        forall|k: K| #[trigger] keys@.contains(k) <==> m@.contains_key(k),
{
    m.keys().copied().collect()
}

} // verus!

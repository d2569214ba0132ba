//! The FNV-hashed maps and sets of the `fnv` crate, keyed by integers.
//!
//! `FnvHashMap<K, V>` and `FnvHashSet<T>` are `std`'s `HashMap` and `HashSet`
//! with the FNV hasher of the `fnv` crate in place of the default one. The
//! hasher only decides where an entry is stored, so each operation below
//! does to the contents what the `std` method it calls documents.

use fnv::FnvHashMap;
use fnv::FnvHashSet;
use std::collections::HashSet;
use vstd::prelude::*;

verus! {

/// The FNV hasher of the `fnv` crate.
#[verifier::external_type_specification]
#[verifier::external_body]
pub struct ExFnvHasher(fnv::FnvHasher);

/// `std`'s builder of default hashers, here of `fnv::FnvHasher`.
#[verifier::external_type_specification]
#[verifier::external_body]
#[verifier::reject_recursive_types(H)]
pub struct ExBuildHasherDefault<H>(std::hash::BuildHasherDefault<H>);

/// `FnvHashMap::default()`: claims the new map is empty.
#[verifier::external_body]
pub(crate) fn fnv_map_new<V>() -> (m: FnvHashMap<usize, V>)
    ensures
        m@.dom() == Set::<usize>::empty(),
{
    FnvHashMap::default()
}

/// `HashMap::insert` on an `FnvHashMap`: claims the key now maps to the value
/// and every other entry is unchanged.
#[verifier::external_body]
pub(crate) fn fnv_map_insert<V>(m: &mut FnvHashMap<usize, V>, k: usize, v: V)
    ensures
        final(m)@ == old(m)@.insert(k, v),
{
    m.insert(k, v);
}

/// `HashMap::get` on an `FnvHashMap`: claims it returns the value stored
/// under the key, or `None` when the key is absent.
#[verifier::external_body]
pub(crate) fn fnv_map_get<'a, V>(m: &'a FnvHashMap<usize, V>, k: usize) -> (res: Option<&'a V>)
    ensures
        match res {
            Some(v) => m@.contains_key(k) && *v == m@[k],
            None => !m@.contains_key(k),
        },
{
    m.get(&k)
}

/// `HashMap::remove` on an `FnvHashMap`: claims the key is gone afterwards,
/// the other entries are unchanged, and the removed value is returned.
#[verifier::external_body]
pub(crate) fn fnv_map_remove<V>(m: &mut FnvHashMap<usize, V>, k: usize) -> (res: Option<V>)
    ensures
        final(m)@ == old(m)@.remove(k),
        match res {
            Some(v) => old(m)@.contains_key(k) && v == old(m)@[k],
            None => !old(m)@.contains_key(k),
        },
{
    m.remove(&k)
}

/// `HashMap::clear` on an `FnvHashMap`: claims the map is empty afterwards.
#[verifier::external_body]
pub(crate) fn fnv_map_clear<V>(m: &mut FnvHashMap<usize, V>)
    ensures
        final(m)@.dom() == Set::<usize>::empty(),
{
    m.clear();
}

/// `HashMap::keys` on an `FnvHashMap`, collected into a `std` set: claims
/// the set holds exactly the keys of the map.
#[verifier::external_body]
pub(crate) fn fnv_map_key_set<V>(m: &FnvHashMap<usize, V>) -> (res: HashSet<usize>)
    ensures
        res@ == m@.dom(),
{
    m.keys().copied().collect()
}

/// `FnvHashSet::default()`: claims the new set is empty.
#[verifier::external_body]
pub(crate) fn fnv_set_new() -> (s: FnvHashSet<usize>)
    ensures
        s@ == Set::<usize>::empty(),
{
    FnvHashSet::default()
}

/// `HashSet::insert` on an `FnvHashSet`: claims the element is in the set
/// afterwards and nothing else changed.
#[verifier::external_body]
pub(crate) fn fnv_set_insert(s: &mut FnvHashSet<usize>, k: usize)
    ensures
        final(s)@ == old(s)@.insert(k),
{
    s.insert(k);
}

/// `HashSet::remove` on an `FnvHashSet`: claims the element is gone
/// afterwards and returns whether it was there.
#[verifier::external_body]
pub(crate) fn fnv_set_remove(s: &mut FnvHashSet<usize>, k: usize) -> (res: bool)
    ensures
        final(s)@ == old(s)@.remove(k),
        res == old(s)@.contains(k),
{
    s.remove(&k)
}

/// `HashSet::contains` on an `FnvHashSet`: claims it reports membership.
#[verifier::external_body]
pub(crate) fn fnv_set_contains(s: &FnvHashSet<usize>, k: usize) -> (res: bool)
    ensures
        res == s@.contains(k),
{
    s.contains(&k)
}

/// `HashSet::clear` on an `FnvHashSet`: claims the set is empty afterwards.
#[verifier::external_body]
pub(crate) fn fnv_set_clear(s: &mut FnvHashSet<usize>)
    ensures
        final(s)@ == Set::<usize>::empty(),
{
    s.clear();
}

/// `HashSet::iter` on an `FnvHashSet`, collected into a `std` set: claims
/// the new set has the same elements.
#[verifier::external_body]
pub(crate) fn fnv_set_to_hashset(s: &FnvHashSet<usize>) -> (res: HashSet<usize>)
    ensures
        res@ == s@,
{
    s.iter().copied().collect()
}

/// `HashSet::iter().next()` on an `FnvHashSet`: claims it yields some
/// element of the set, and nothing only when the set is empty. Which
/// element comes first depends on the hash order and is not stated.
#[verifier::external_body]
pub(crate) fn fnv_set_first(s: &FnvHashSet<usize>) -> (res: Option<&usize>)
    ensures
        res is None <==> s@.is_empty(),
        res matches Some(x) ==> s@.contains(*x),
{
    s.iter().next()
}

} // verus!

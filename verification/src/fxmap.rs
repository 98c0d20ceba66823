//! The `rustc_hash` map used for the debugger's indices, with the contracts
//! that std's `HashMap` documents; the hasher only decides bucket placement.
use rustc_hash::{FxBuildHasher, FxHashMap, FxHashSet};
use std::hash::Hash;
use vstd::prelude::*;
use vstd::std_specs::hash::obeys_key_model;

verus! {

/// The hasher type of `rustc_hash`'s maps.
#[verifier::external_type_specification]
#[verifier::external_body]
pub struct ExFxBuildHasher(FxBuildHasher);

/// `FxHashMap::default`: an empty map.
#[verifier::external_body]
pub(crate) fn fx_new<K, V>() -> (r: FxHashMap<K, V>)
    ensures
        r@.dom().is_empty(),
{
    FxHashMap::default()
}

/// `HashMap::get`: the value stored under `k`, if any.
#[verifier::external_body]
pub(crate) fn fx_get<'a, K: Hash + Eq, V>(m: &'a FxHashMap<K, V>, k: &K) -> (r: Option<&'a V>)
    requires
        obeys_key_model::<K>(),
    ensures
        match r {
            Some(v) => m@.contains_key(*k) && *v == m@[*k],
            None => !m@.contains_key(*k),
        },
{
    m.get(k)
}

/// `HashMap::insert`: stores `v` under `k`, replacing what was there.
#[verifier::external_body]
pub(crate) fn fx_insert<K: Hash + Eq, V>(m: &mut FxHashMap<K, V>, k: K, v: V)
    requires
        obeys_key_model::<K>(),
    ensures
        final(m)@ == old(m)@.insert(k, v),
{
    m.insert(k, v);
}

/// `HashMap::remove`: takes the value stored under `k` out of the map.
#[verifier::external_body]
pub(crate) fn fx_remove<K: Hash + Eq, V>(m: &mut FxHashMap<K, V>, k: &K) -> (r: Option<V>)
    requires
        obeys_key_model::<K>(),
    ensures
        final(m)@ == old(m)@.remove(*k),
        match r {
            Some(v) => old(m)@.contains_key(*k) && v == old(m)@[*k],
            None => !old(m)@.contains_key(*k),
        },
{
    m.remove(k)
}

} // verus!

verus! {

/// A string-keyed map seen through the characters of its keys.
pub open spec fn by_view<V>(m: Map<String, V>) -> Map<Seq<char>, V> {
    Map::new(
        |s: Seq<char>| exists|k: String| m.contains_key(k) && k@ == s,
        |s: Seq<char>| m[choose|k: String| m.contains_key(k) && k@ == s],
    )
}

/// `HashMap::get` with a `&str` key: `String`'s `Hash` and `Eq` go by the characters.
#[verifier::external_body]
pub(crate) fn fx_get_str<'a, V>(m: &'a FxHashMap<String, V>, k: &str) -> (r: Option<&'a V>)
    ensures
        match r {
            Some(v) => by_view(m@).contains_key(k@) && *v == by_view(m@)[k@],
            None => !by_view(m@).contains_key(k@),
        },
{
    m.get(k)
}

/// `HashMap::insert` with a `String` key: stores `v` under the characters of `k`.
#[verifier::external_body]
pub(crate) fn fx_insert_string<V>(m: &mut FxHashMap<String, V>, k: String, v: V)
    ensures
        by_view(final(m)@) == by_view(old(m)@).insert(k@, v),
{
    m.insert(k, v);
}

} // verus!

verus! {

/// `FxHashSet::default`: an empty set.
#[verifier::external_body]
pub(crate) fn fxset_new<K>() -> (r: FxHashSet<K>)
    ensures
        r@ == Set::<K>::empty(),
{
    FxHashSet::default()
}

/// `HashSet::contains`: whether `k` is in the set.
#[verifier::external_body]
pub(crate) fn fxset_contains<K: Hash + Eq>(m: &FxHashSet<K>, k: &K) -> (r: bool)
    requires
        obeys_key_model::<K>(),
    ensures
        r == m@.contains(*k),
{
    m.contains(k)
}

/// `HashSet::insert`: adds `k` to the set.
#[verifier::external_body]
pub(crate) fn fxset_insert<K: Hash + Eq>(m: &mut FxHashSet<K>, k: K)
    requires
        obeys_key_model::<K>(),
    ensures
        final(m)@ == old(m)@.insert(k),
{
    m.insert(k);
}

/// `HashSet::clear`: empties the set.
#[verifier::external_body]
pub(crate) fn fxset_clear<K>(m: &mut FxHashSet<K>)
    ensures
        final(m)@ == Set::<K>::empty(),
{
    m.clear();
}

/// A set of strings seen through their characters.
pub open spec fn set_by_view(s: Set<String>) -> Set<Seq<char>> {
    Set::new(|v: Seq<char>| exists|k: String| s.contains(k) && k@ == v)
}

/// `HashSet::contains` with a `&str`: `String`'s `Hash` and `Eq` go by the characters.
#[verifier::external_body]
pub(crate) fn fxset_contains_str(m: &FxHashSet<String>, k: &str) -> (r: bool)
    ensures
        r == set_by_view(m@).contains(k@),
{
    m.contains(k)
}

/// `HashSet::insert` with a `String`: adds the characters of `k`.
#[verifier::external_body]
pub(crate) fn fxset_insert_string(m: &mut FxHashSet<String>, k: String)
    ensures
        set_by_view(final(m)@) == set_by_view(old(m)@).insert(k@),
{
    m.insert(k);
}

} // verus!

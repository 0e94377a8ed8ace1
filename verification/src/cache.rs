//! The transposition cache: a concurrent map from the text of a position to
//! the score it was given.

use dashmap::DashMap;
use vstd::prelude::*;

verus! {

/// Trusted: declares the type `dashmap::DashMap`. Nothing inside a value of it
/// is visible here; what it holds is spoken of through `cache_entries`.
#[verifier::external_type_specification]
#[verifier::external_body]
#[verifier::reject_recursive_types(K)]
#[verifier::reject_recursive_types(V)]
#[verifier::reject_recursive_types(S)]
pub struct ExDashMap<K, V, S>(DashMap<K, V, S>);

/// The entries that a cache holds: the score stored under each key. Nothing
/// is known of them but what the functions of this module state.
pub uninterp spec fn cache_entries(cache: DashMap<String, i64>) -> Map<Seq<char>, i64>;

/// The entries of a cache that holds nothing.
pub open spec fn no_entries() -> Map<Seq<char>, i64> {
    Map::empty()
}

/// A cache without entries.
///
/// Trusted: calls `DashMap::new`, which creates a map that holds nothing.
#[verifier::external_body]
pub(crate) fn cache_new() -> (made: DashMap<String, i64>)
    ensures
        cache_entries(made) == no_entries(),
{
    DashMap::new()
}

/// Stores `value` under `key`, in place of what was stored there.
///
/// Trusted: calls `DashMap::insert`, which puts the key and the value into
/// the map and leaves every other entry as it was.
#[verifier::external_body]
pub(crate) fn cache_insert(cache: &mut DashMap<String, i64>, key: String, value: i64)
    ensures
        cache_entries(*final(cache)) == cache_entries(*old(cache)).insert(key@, value),
{
    cache.insert(key, value);
}

/// Tells whether a score is stored under `key`.
///
/// Trusted: calls `DashMap::contains_key`, which tells whether the map holds
/// the key.
#[verifier::external_body]
pub(crate) fn cache_contains(cache: &DashMap<String, i64>, key: &String) -> (r: bool)
    ensures
        r == cache_entries(*cache).contains_key(key@),
{
    cache.contains_key(key)
}

/// The score stored under `key`, which must be there.
///
/// Trusted: calls `DashMap::get`, which hands out a reference to the value
/// stored under the key when the map holds it.
#[verifier::external_body]
pub(crate) fn cache_get(cache: &DashMap<String, i64>, key: &String) -> (r: i64)
    requires
        cache_entries(*cache).contains_key(key@),
    ensures
        r == cache_entries(*cache)[key@],
{
    *cache.get(key).unwrap()
}

} // verus!

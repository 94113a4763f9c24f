//! What this crate takes on trust from `dashmap`, `serde_json` and `rand`.
//!
//! Nothing here is proved. Each item names the outside function it stands
//! for and says what is claimed of it; the rest of the crate is verified
//! against these claims.

use vstd::prelude::*;
use dashmap::DashMap;
use rand::Rng;
use serde_json::Value;
use crate::snapshot::lists_entries;

verus! {

/// A structured value as `serde_json` holds it. It is carried through the
/// store and never looked into.
#[verifier::external_type_specification]
#[verifier::external_body]
pub struct ExValue(serde_json::Value);

/// The concurrent map of `dashmap`, which holds the store's entries.
#[verifier::external_type_specification]
#[verifier::external_body]
#[verifier::reject_recursive_types(K)]
#[verifier::reject_recursive_types(V)]
#[verifier::reject_recursive_types(S)]
pub struct ExDashMap<K, V, S>(dashmap::DashMap<K, V, S>);

/// `<serde_json::Value as Clone>::clone`, which is derived: the copy is the
/// same value.
pub assume_specification[ <serde_json::Value as Clone>::clone ](
    value: &serde_json::Value,
) -> (copy: serde_json::Value)
    ensures
        copy == *value,
;

/// What a map holds: the value stored under each key, a key taken as its
/// sequence of characters.
pub uninterp spec fn map_entries(map: DashMap<String, Value>) -> Map<Seq<char>, Value>;

/// `DashMap::new`: a map that holds nothing.
#[verifier::external_body]
pub(crate) fn map_new() -> (fresh: DashMap<String, Value>)
    ensures
        map_entries(fresh) =~= Map::empty(),
{
    DashMap::new()
}

/// `DashMap::insert`, called with exclusive access: afterwards `key` holds
/// `value` and every other key holds what it held before.
#[verifier::external_body]
pub(crate) fn map_insert(map: &mut DashMap<String, Value>, key: String, value: Value)
    ensures
        map_entries(*final(map)) == map_entries(*old(map)).insert(key@, value),
{
    map.insert(key, value);
}

/// `DashMap::get`: a copy of the value stored under `key`, if there is one.
#[verifier::external_body]
pub(crate) fn map_get(map: &DashMap<String, Value>, key: &str) -> (found: Option<Value>)
    ensures
        found == if map_entries(*map).contains_key(key@) {
            Some(map_entries(*map)[key@])
        } else {
            None::<Value>
        },
{
    map.get(key).map(|entry| entry.value().clone())
}

/// `DashMap::iter`, collected: a copy of every entry, each key once, in an
/// order that is not fixed.
#[verifier::external_body]
pub(crate) fn map_pairs(map: &DashMap<String, Value>) -> (pairs: Vec<(String, Value)>)
    ensures
        lists_entries(pairs@, map_entries(*map)),
{
    map.iter().map(|entry| (entry.key().clone(), entry.value().clone())).collect()
}

/// `rand::Rng::gen_range` on `rand::thread_rng()`, the generator of the
/// calling thread, for the range `low..high`, which must not be empty: some
/// index of that range. Nothing is claimed of which one.
#[verifier::external_body]
pub(crate) fn random_between(low: usize, high: usize) -> (pick: usize)
    requires
        low < high,
    ensures
        low <= pick < high,
{
    rand::thread_rng().gen_range(low..high)
}

} // verus!

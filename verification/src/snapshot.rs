//! Versioned store contents as values: what a store holds at one instant,
//! and the list of pairs that carries it between nodes.

use vstd::prelude::*;
use serde_json::Value;

verus! {

/// The contents of a store at one instant: the version counter that covers
/// the whole store, and the value under each key.
#[verifier::ext_equal]
pub struct Contents {
    pub counter: nat,
    pub entries: Map<Seq<char>, Value>,
}

/// The mapping that a list of key/value pairs stands for: the pairs are
/// written one after the other, so the last pair of a key gives its value.
pub open spec fn entries_map(pairs: Seq<(String, Value)>) -> Map<Seq<char>, Value>
    decreases pairs.len(),
{
    if pairs.len() == 0 {
        Map::empty()
    } else {
        entries_map(pairs.drop_last()).insert(pairs.last().0@, pairs.last().1)
    }
}

/// Whether `key` occurs in `pairs`.
pub open spec fn mentions(pairs: Seq<(String, Value)>, key: Seq<char>) -> bool {
    exists|i: int| 0 <= i < pairs.len() && #[trigger] pairs[i].0@ == key
}

/// `pairs` lists `entries` exactly: every pair is an entry, every key of
/// `entries` has a pair, and no key has two.
pub open spec fn lists_entries(
    pairs: Seq<(String, Value)>,
    entries: Map<Seq<char>, Value>,
) -> bool {
    &&& forall|i: int|
        0 <= i < pairs.len() ==> entries.contains_pair(#[trigger] pairs[i].0@, pairs[i].1)
    &&& forall|key: Seq<char>| #[trigger] entries.contains_key(key) ==> mentions(pairs, key)
    &&& forall|i: int, j: int|
        0 <= i < j < pairs.len() ==> #[trigger] pairs[i].0@ != #[trigger] pairs[j].0@
}

/// The keys of `entries_map(pairs)` are the keys that occur in `pairs`.
pub proof fn lemma_entries_map_keys(pairs: Seq<(String, Value)>)
    ensures
        forall|key: Seq<char>|
            #[trigger] entries_map(pairs).contains_key(key) <==> mentions(pairs, key),
    decreases pairs.len(),
{
    if pairs.len() > 0 {
        let front = pairs.drop_last();
        lemma_entries_map_keys(front);
        assert forall|key: Seq<char>| #[trigger]
            entries_map(pairs).contains_key(key) <==> mentions(pairs, key) by {
            if entries_map(pairs).contains_key(key) {
                if key == pairs.last().0@ {
                    assert(pairs[pairs.len() - 1].0@ == key);
                } else {
                    assert(entries_map(front).contains_key(key));
                    let i = choose|i: int| 0 <= i < front.len() && #[trigger] front[i].0@ == key;
                    assert(pairs[i].0@ == key);
                }
            }
            if mentions(pairs, key) {
                let i = choose|i: int| 0 <= i < pairs.len() && #[trigger] pairs[i].0@ == key;
                if i < pairs.len() - 1 {
                    assert(front[i].0@ == key);
                    assert(entries_map(front).contains_key(key));
                }
            }
        }
    }
}

/// A pair whose key does not occur again after it gives its key's value.
pub proof fn lemma_entries_map_value(pairs: Seq<(String, Value)>, i: int)
    requires
        0 <= i < pairs.len(),
        forall|j: int| i < j < pairs.len() ==> #[trigger] pairs[j].0@ != pairs[i].0@,
    ensures
        entries_map(pairs).contains_pair(pairs[i].0@, pairs[i].1),
    decreases pairs.len(),
{
    if i < pairs.len() - 1 {
        let front = pairs.drop_last();
        assert(front[i] == pairs[i]);
        assert forall|j: int| i < j < front.len() implies #[trigger] front[j].0@ != front[i].0@ by {
            assert(front[j] == pairs[j]);
        }
        lemma_entries_map_value(front, i);
        assert(pairs[pairs.len() - 1].0@ != pairs[i].0@);
    }
}

/// A list that lists a mapping exactly stands for that mapping.
pub proof fn lemma_listed_entries(pairs: Seq<(String, Value)>, entries: Map<Seq<char>, Value>)
    requires
        lists_entries(pairs, entries),
    ensures
        entries_map(pairs) == entries,
{
    lemma_entries_map_keys(pairs);
    assert forall|key: Seq<char>| entries_map(pairs).contains_key(key) implies entries.contains_key(
        key,
    ) && entries_map(pairs)[key] == entries[key] by {
        let i = choose|i: int| 0 <= i < pairs.len() && #[trigger] pairs[i].0@ == key;
        assert(entries.contains_pair(pairs[i].0@, pairs[i].1));
        lemma_entries_map_value(pairs, i);
    }
    assert forall|key: Seq<char>| entries.contains_key(key) implies entries_map(
        pairs,
    ).contains_key(key) by {
        assert(mentions(pairs, key));
    }
    assert(entries_map(pairs) =~= entries);
}

/// A snapshot of a store: its version counter and all of its entries.
/// Where a key has two pairs, the later one counts.
#[derive(Debug, PartialEq, Eq)]
pub struct Update {
    pub counter: u64,
    pub entries: Vec<(String, Value)>,
}

impl View for Update {
    type V = Contents;

    open spec fn view(&self) -> Contents {
        Contents { counter: self.counter as nat, entries: entries_map(self.entries@) }
    }
}

} // verus!

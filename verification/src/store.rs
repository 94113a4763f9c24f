//! The replicated store: string keys, structured values and one version
//! counter for the whole store.

use vstd::prelude::*;
use dashmap::DashMap;
use serde_json::Value;
use crate::snapshot::{entries_map, lemma_listed_entries, lists_entries, Contents, Update};
use crate::trusted::{map_entries, map_get, map_insert, map_new, map_pairs};

verus! {

/// The store after a local write of `value` under `key`: the entry is set and
/// the version goes up by exactly one.
pub open spec fn written(store: Contents, key: Seq<char>, value: Value) -> Contents {
    Contents { counter: store.counter + 1, entries: store.entries.insert(key, value) }
}

/// The store after a remote snapshot was offered to it. A snapshot with a
/// higher version is adopted: the version becomes the snapshot's and each of
/// its entries overwrites the local one, while keys that it lacks stay as they
/// are. Any other snapshot is discarded whole.
pub open spec fn merged(store: Contents, remote: Contents) -> Contents {
    if remote.counter > store.counter {
        Contents {
            counter: remote.counter,
            entries: store.entries.union_prefer_right(remote.entries),
        }
    } else {
        store
    }
}

/// The store after the local writes `writes`, made one after the other.
pub open spec fn written_all(store: Contents, writes: Seq<(Seq<char>, Value)>) -> Contents
    decreases writes.len(),
{
    if writes.len() == 0 {
        store
    } else {
        written(written_all(store, writes.drop_last()), writes.last().0, writes.last().1)
    }
}

/// Merging a snapshot with a higher version adopts it: the version becomes
/// the snapshot's, every key of the snapshot holds the snapshot's value, every
/// other local key keeps its value, and no other key appears.
pub proof fn lemma_merge_adopts_newer(local: Contents, remote: Contents)
    requires
        remote.counter > local.counter,
    ensures
        merged(local, remote).counter == remote.counter,
        forall|key: Seq<char>| remote.entries.contains_key(key)
            ==> #[trigger] merged(local, remote).entries.contains_pair(key, remote.entries[key]),
        forall|key: Seq<char>| local.entries.contains_key(key) && !remote.entries.contains_key(key)
            ==> #[trigger] merged(local, remote).entries.contains_pair(key, local.entries[key]),
        forall|key: Seq<char>| #[trigger] merged(local, remote).entries.contains_key(key)
            ==> local.entries.contains_key(key) || remote.entries.contains_key(key),
{
}

/// Merging the same snapshot a second time changes nothing.
pub proof fn lemma_merge_idempotent(local: Contents, remote: Contents)
    ensures
        merged(merged(local, remote), remote) == merged(local, remote),
{
}

/// A snapshot whose version is not higher than the local one changes
/// neither the entries nor the version, whatever it holds.
pub proof fn lemma_merge_discards_stale(local: Contents, remote: Contents)
    requires
        remote.counter <= local.counter,
    ensures
        merged(local, remote) == local,
{
}

/// A merge never lowers the version.
pub proof fn lemma_merge_never_regresses(local: Contents, remote: Contents)
    ensures
        merged(local, remote).counter >= local.counter,
        merged(local, remote).counter >= remote.counter,
{
}

/// After `n` local writes the version is higher by exactly `n`.
pub proof fn lemma_writes_count(store: Contents, writes: Seq<(Seq<char>, Value)>)
    ensures
        written_all(store, writes).counter == store.counter + writes.len(),
    decreases writes.len(),
{
    if writes.len() > 0 {
        lemma_writes_count(store, writes.drop_last());
    }
}

/// The write at position `i` of a run of local writes leaves the version at
/// `i + 1` above the start, so no two writes of the run see the same version.
pub proof fn lemma_writes_see_distinct_versions(
    store: Contents,
    writes: Seq<(Seq<char>, Value)>,
    i: int,
    j: int,
)
    requires
        0 <= i < j < writes.len(),
    ensures
        written_all(store, writes.take(i + 1)).counter == store.counter + i + 1,
        written_all(store, writes.take(j + 1)).counter == store.counter + j + 1,
        written_all(store, writes.take(i + 1)).counter != written_all(
            store,
            writes.take(j + 1),
        ).counter,
{
    lemma_writes_count(store, writes.take(i + 1));
    lemma_writes_count(store, writes.take(j + 1));
}

/// The key-value data of a node with the single version counter that
/// covers all of it.
#[derive(Debug)]
pub struct Kv {
    store: DashMap<String, Value>,
    counter: u64,
}

impl View for Kv {
    type V = Contents;

    closed spec fn view(&self) -> Contents {
        Contents { counter: self.counter as nat, entries: map_entries(self.store) }
    }
}

impl Kv {
    /// An empty store at version 0.
    pub fn new() -> (kv: Kv)
        ensures
            kv@ == (Contents { counter: 0, entries: Map::empty() }),
    {
        Kv { store: map_new(), counter: 0 }
    }

    /// The current version.
    pub fn counter(&self) -> (counter: u64)
        ensures
            counter == self@.counter,
    {
        self.counter
    }

    /// The value stored under `key`, if any.
    pub fn get(&self, key: &str) -> (found: Option<Value>)
        ensures
            found == if self@.entries.contains_key(key@) {
                Some(self@.entries[key@])
            } else {
                None::<Value>
            },
    {
        map_get(&self.store, key)
    }

    /// Stores `value` under `key` and raises the version by one. Returns the
    /// new version.
    pub fn local_write(&mut self, key: String, value: Value) -> (version: u64)
        requires
            old(self)@.counter < u64::MAX,
        ensures
            final(self)@ == written(old(self)@, key@, value),
            version == final(self)@.counter,
    {
        map_insert(&mut self.store, key, value);
        self.counter = self.counter + 1;
        self.counter
    }

    /// The version and a copy of every entry. No key is listed twice; the
    /// order of the entries is not fixed.
    pub fn snapshot(&self) -> (update: Update)
        ensures
            update@.counter == self@.counter,
            update@.entries == self@.entries,
            lists_entries(update.entries@, self@.entries),
    {
        let entries = map_pairs(&self.store);
        proof {
            lemma_listed_entries(entries@, map_entries(self.store));
        }
        Update { counter: self.counter, entries }
    }

    /// Offers a remote snapshot to the store. Returns whether it was adopted,
    /// which is when its version is higher than the local one.
    pub fn merge_remote(&mut self, remote: &Update) -> (adopted: bool)
        ensures
            final(self)@ == merged(old(self)@, remote@),
            adopted == (remote@.counter > old(self)@.counter),
    {
        if remote.counter <= self.counter {
            return false;
        }
        self.counter = remote.counter;
        let mut i: usize = 0;
        while i < remote.entries.len()
            invariant
                i <= remote.entries@.len(),
                self.counter == remote.counter,
                map_entries(self.store) == map_entries(old(self).store).union_prefer_right(
                    entries_map(remote.entries@.take(i as int)),
                ),
            decreases remote.entries@.len() - i,
        {
            let key = remote.entries[i].0.clone();
            let value = remote.entries[i].1.clone();
            proof {
                let done = remote.entries@.take(i as int);
                let next = remote.entries@.take(i + 1);
                assert(next.drop_last() == done);
                assert(next.last() == remote.entries@[i as int]);
                let before = map_entries(old(self).store);
                assert(before.union_prefer_right(entries_map(next))
                    =~= before.union_prefer_right(entries_map(done)).insert(key@, value));
            }
            map_insert(&mut self.store, key, value);
            i += 1;
        }
        proof {
            assert(remote.entries@.take(i as int) == remote.entries@);
        }
        true
    }
}

} // verus!

//! The cache itself: a bounded store of entries that expire.

use std::collections::HashMap;
use vstd::prelude::*;
use crate::entry::Entry;
use crate::error::{ComputeError, InsertError};
use crate::model::{
    after_compute, after_get, after_insert, is_live, is_victim, leaves_before,
    lemma_sweep_shrinks, lemma_victim_unique, settles, sweep, victim,
};

verus! {

broadcast use vstd::std_specs::hash::group_hash_axioms;

/// A bounded key/value store whose entries expire.
///
/// The cache never reads a clock. Each operation that depends on time takes
/// the current tick, and a time-to-live is a number of ticks.
pub struct Cache<V> {
    store: HashMap<u64, Entry<V>>,
    default_ttl: u64,
    max_size: usize,
}

impl<V> View for Cache<V> {
    type V = Map<u64, Entry<V>>;

    /// The entries the cache holds, stale ones that no operation has yet
    /// removed included.
    closed spec fn view(&self) -> Map<u64, Entry<V>> {
        self.store@
    }
}

impl<V> Cache<V> {
    #[verifier::type_invariant]
    spec fn within_capacity(&self) -> bool {
        self.store@.len() <= self.max_size
    }

    /// The largest number of entries the cache holds.
    pub closed spec fn capacity(&self) -> usize {
        self.max_size
    }

    /// The time-to-live given to entries written without one of their own.
    pub closed spec fn ttl(&self) -> u64 {
        self.default_ttl
    }

    /// Creates an empty cache that holds at most `max_size` entries and gives
    /// each entry `default_ttl` ticks to live unless told otherwise.
    pub fn new(default_ttl: u64, max_size: usize) -> (cache: Self)
        ensures
            cache@ == Map::<u64, Entry<V>>::empty(),
            cache.ttl() == default_ttl,
            cache.capacity() == max_size,
    {
        Cache { store: HashMap::new(), default_ttl, max_size }
    }

    /// Moves the entries out, leaving the cache empty, so that they can be
    /// worked on while the cache itself stays within its bound.
    fn take_store(&mut self) -> (store: HashMap<u64, Entry<V>>)
        ensures
            store@ == old(self)@,
            store@.len() <= old(self).capacity(),
            final(self)@ == Map::<u64, Entry<V>>::empty(),
            final(self).capacity() == old(self).capacity(),
            final(self).ttl() == old(self).ttl(),
    {
        proof {
            use_type_invariant(&*self);
        }
        let mut store = HashMap::new();
        std::mem::swap(&mut self.store, &mut store);
        store
    }

    /// The bound on the number of entries.
    pub fn max_size(&self) -> (bound: usize)
        ensures
            bound == self.capacity(),
    {
        self.max_size
    }

    /// The time-to-live used by [`Cache::insert`].
    pub fn default_ttl(&self) -> (ticks: u64)
        ensures
            ticks == self.ttl(),
    {
        self.default_ttl
    }

    /// The number of entries held, counting stale ones not yet removed.
    pub fn size(&self) -> (count: usize)
        ensures
            count == self@.len(),
            count <= self.capacity(),
            self@.dom().finite(),
    {
        proof {
            use_type_invariant(self);
        }
        self.store.len()
    }

    /// Drops every entry, fresh or stale.
    pub fn clear(&mut self)
        ensures
            final(self)@ == Map::<u64, Entry<V>>::empty(),
            final(self).capacity() == old(self).capacity(),
            final(self).ttl() == old(self).ttl(),
    {
        self.store = HashMap::new();
    }

    /// Removes every entry that is stale at tick `now` and reports how many
    /// were removed.
    pub fn cleanup(&mut self, now: u64) -> (removed: usize)
        ensures
            final(self)@ == sweep(old(self)@, now),
            removed == old(self)@.len() - final(self)@.len(),
            final(self).capacity() == old(self).capacity(),
            final(self).ttl() == old(self).ttl(),
    {
        let mut store = self.take_store();
        let removed = purge(&mut store, now);
        self.store = store;
        removed
    }

    /// The key that the next eviction would remove: the least read entry,
    /// among equally read ones the first to expire, among those the smallest
    /// key. `None` exactly when the cache is empty.
    pub fn eviction_candidate(&self) -> (candidate: Option<u64>)
        ensures
            match candidate {
                Some(key) => is_victim(self@, key) && key == victim(self@),
                None => self@.len() == 0,
            },
    {
        let candidate = find_victim(&self.store);
        proof {
            if let Some(key) = candidate {
                lemma_victim_unique(self@, key, victim(self@));
            }
        }
        candidate
    }

    /// Stores `value` under `key` at tick `now` with time-to-live `ttl`,
    /// replacing any entry the key had.
    ///
    /// Stale entries are swept first. If the store is then still full, the
    /// eviction victim leaves, whether or not `key` was already present. The
    /// new entry has served no reads. The write is refused exactly when the
    /// cache has no capacity at all.
    pub fn insert_with_ttl(&mut self, key: u64, value: V, ttl: u64, now: u64) -> (outcome: Result<
        (),
        InsertError,
    >)
        ensures
            final(self).capacity() == old(self).capacity(),
            final(self).ttl() == old(self).ttl(),
            old(self).capacity() > 0 ==> outcome is Ok && final(self)@ == after_insert(
                old(self)@,
                old(self).capacity() as nat,
                key,
                value,
                ttl,
                now,
            ),
            old(self).capacity() == 0 ==> outcome == Err::<(), InsertError>(
                InsertError::InvariantViolation,
            ) && final(self)@ == sweep(old(self)@, now),
            final(self)@.len() <= final(self).capacity(),
    {
        let mut store = self.take_store();
        purge(&mut store, now);
        if store.len() >= self.max_size {
            match find_victim(&store) {
                None => {
                    self.store = store;
                    return Err(InsertError::InvariantViolation);
                },
                Some(evicted) => {
                    proof {
                        lemma_victim_unique(store@, evicted, victim(store@));
                    }
                    store.remove(&evicted);
                },
            }
        }
        store.insert(key, Entry::new(value, now, ttl));
        self.store = store;
        Ok(())
    }

    /// Stores `value` under `key` at tick `now` with the default time-to-live.
    /// See [`Cache::insert_with_ttl`].
    pub fn insert(&mut self, key: u64, value: V, now: u64) -> (outcome: Result<(), InsertError>)
        ensures
            final(self).capacity() == old(self).capacity(),
            final(self).ttl() == old(self).ttl(),
            old(self).capacity() > 0 ==> outcome is Ok && final(self)@ == after_insert(
                old(self)@,
                old(self).capacity() as nat,
                key,
                value,
                old(self).ttl(),
                now,
            ),
            old(self).capacity() == 0 ==> outcome == Err::<(), InsertError>(
                InsertError::InvariantViolation,
            ) && final(self)@ == sweep(old(self)@, now),
            final(self)@.len() <= final(self).capacity(),
    {
        let ttl = self.default_ttl;
        self.insert_with_ttl(key, value, ttl, now)
    }

    /// Deletes the entry under `key`, stale or not, and hands back its value.
    /// No other entry is touched.
    pub fn remove(&mut self, key: u64) -> (previous: Option<V>)
        ensures
            final(self)@ == old(self)@.remove(key),
            final(self).capacity() == old(self).capacity(),
            final(self).ttl() == old(self).ttl(),
            previous == if old(self)@.contains_key(key) {
                Some(old(self)@[key].value)
            } else {
                None
            },
            !old(self)@.contains_key(key) ==> final(self)@ == old(self)@,
    {
        let mut store = self.take_store();
        let taken = store.remove(&key);
        self.store = store;
        match taken {
            Some(entry) => Some(entry.value),
            None => None,
        }
    }

    /// Reads the value under `key` at tick `now`.
    ///
    /// A fresh entry yields a clone of its value and has its counter advanced,
    /// on every hit. A stale entry is removed and the key reads as absent.
    pub fn get(&mut self, key: u64, now: u64) -> (found: Option<V>) where V: Clone
        ensures
            final(self)@ == after_get(old(self)@, key, now),
            final(self).capacity() == old(self).capacity(),
            final(self).ttl() == old(self).ttl(),
            match found {
                Some(v) => is_live(old(self)@, key, now) && cloned(old(self)@[key].value, v),
                None => !is_live(old(self)@, key, now),
            },
    {
        let mut store = self.take_store();
        let found = match store.remove(&key) {
            None => None,
            Some(mut entry) => {
                if entry.is_expired(now) {
                    None
                } else {
                    entry.touch();
                    let value = entry.value.clone();
                    store.insert(key, entry);
                    Some(value)
                }
            },
        };
        self.store = store;
        found
    }
    /// Settles a missed read of `key` with the `outcome` of the caller's
    /// computation, at tick `now`.
    ///
    /// A computed value is stored with the default time-to-live and a clone
    /// of it is returned. A failed computation is handed back unchanged and
    /// the store is left as it was.
    pub fn finish_compute<E>(&mut self, key: u64, outcome: Result<V, E>, now: u64) -> (result:
        Result<V, ComputeError<E>>) where V: Clone
        ensures
            final(self).capacity() == old(self).capacity(),
            final(self).ttl() == old(self).ttl(),
            final(self)@ == after_compute(
                old(self)@,
                old(self).capacity() as nat,
                key,
                outcome,
                old(self).ttl(),
                now,
            ),
            settles(outcome, old(self).capacity() as nat, result),
            final(self)@.len() <= final(self).capacity(),
    {
        proof {
            use_type_invariant(&*self);
        }
        match outcome {
            Err(error) => Err(ComputeError::ComputationFailure(error)),
            Ok(value) => {
                let returned = value.clone();
                match self.insert(key, value, now) {
                    Ok(()) => Ok(returned),
                    Err(_) => Err(ComputeError::InvariantViolation),
                }
            },
        }
    }

    /// Returns the value under `key` if it is fresh at tick `now`; otherwise
    /// runs `compute`, stores what it produced with the default time-to-live,
    /// and returns that.
    ///
    /// On a hit the computation is not run and the read counts as any other.
    /// On a miss it is run once; its failure is handed back unchanged and
    /// nothing is stored under `key`.
    pub fn get_or_compute<E, F>(&mut self, key: u64, now: u64, compute: F) -> (result: Result<
        V,
        ComputeError<E>,
    >) where V: Clone, F: FnOnce() -> Result<V, E>
        requires
            compute.requires(()),
        ensures
            final(self).capacity() == old(self).capacity(),
            final(self).ttl() == old(self).ttl(),
            is_live(old(self)@, key, now) ==> {
                &&& final(self)@ == after_get(old(self)@, key, now)
                &&& result matches Ok(value) && cloned(old(self)@[key].value, value)
            },
            !is_live(old(self)@, key, now) ==> exists|outcome: Result<V, E>|
                {
                    &&& compute.ensures((), outcome)
                    &&& final(self)@ == after_compute(
                        after_get(old(self)@, key, now),
                        old(self).capacity() as nat,
                        key,
                        outcome,
                        old(self).ttl(),
                        now,
                    )
                    &&& settles(outcome, old(self).capacity() as nat, result)
                },
            final(self)@.len() <= final(self).capacity(),
    {
        match self.get(key, now) {
            Some(value) => {
                proof {
                    use_type_invariant(&*self);
                }
                Ok(value)
            },
            None => {
                let outcome = compute();
                self.finish_compute(key, outcome, now)
            },
        }
    }
}

/// Whether `items` walks the whole of `m`: every item is an entry of `m`
/// under its key, and every key of `m` is among the items.
spec fn lists<V>(items: Seq<(&u64, &Entry<V>)>, m: Map<u64, Entry<V>>) -> bool {
    &&& forall|k: u64| #[trigger]
        m.contains_key(k) ==> exists|i: int| 0 <= i < items.len() && *(#[trigger] items[i]).0 == k
    &&& forall|i: int|
        0 <= i < items.len() ==> m.contains_key(*(#[trigger] items[i]).0) && m[*items[i].0]
            == *items[i].1
}

/// Finds the entry that eviction removes: the least read one, among those the
/// one that expires first, among those the one with the smallest key.
fn find_victim<V>(store: &HashMap<u64, Entry<V>>) -> (candidate: Option<u64>)
    ensures
        match candidate {
            Some(key) => is_victim(store@, key),
            None => store@.len() == 0,
        },
{
    let mut best: Option<(u64, u64, u64)> = None;
    for (key, entry) in it: store.iter()
        invariant
            lists(it.seq(), store@),
            match best {
                None => it.index() == 0,
                Some((k, hits, expiry)) => {
                    &&& store@.contains_key(k)
                    &&& store@[k].hit_count == hits
                    &&& store@[k].expires_at == expiry
                    &&& forall|i: int|
                        0 <= i < it.index() ==> *it.seq()[i].0 == k || leaves_before(
                            k,
                            store@[k],
                            *it.seq()[i].0,
                            #[trigger] store@[*it.seq()[i].0],
                        )
                },
            },
    {
        let better = match best {
            None => true,
            Some((k, hits, expiry)) => entry.hit_count < hits || (entry.hit_count == hits && (
            entry.expires_at < expiry || (entry.expires_at == expiry && *key < k))),
        };
        if better {
            best = Some((*key, entry.hit_count, entry.expires_at));
        }
    }
    match best {
        None => None,
        Some((k, _, _)) => Some(k),
    }
}

/// Removes from `store` every entry that is stale at tick `now` and says how
/// many entries left.
fn purge<V>(store: &mut HashMap<u64, Entry<V>>, now: u64) -> (removed: usize)
    ensures
        final(store)@ == sweep(old(store)@, now),
        final(store)@.len() <= old(store)@.len(),
        removed == old(store)@.len() - final(store)@.len(),
{
    let before = store.len();
    let mut stale: Vec<u64> = Vec::new();
    for (key, entry) in it: store.iter()
        invariant
            lists(it.seq(), store@),
            forall|i: int|
                0 <= i < it.index() && (#[trigger] store@[*it.seq()[i].0]).expired_at(now)
                    ==> stale@.contains(*it.seq()[i].0),
            forall|j: int|
                0 <= j < stale@.len() ==> store@.contains_key(#[trigger] stale@[j])
                    && store@[stale@[j]].expired_at(now),
    {
        if entry.is_expired(now) {
            let ghost earlier = stale@;
            stale.push(*key);
            assert(stale@[earlier.len() as int] == *key);
            assert forall|i: int|
                0 <= i < it.index() && (#[trigger] store@[*it.seq()[i].0]).expired_at(
                    now,
                ) implies stale@.contains(*it.seq()[i].0) by {
                let k = *it.seq()[i].0;
                if earlier.contains(k) {
                    let j = choose|j: int| 0 <= j < earlier.len() && earlier[j] == k;
                    assert(stale@[j] == k);
                }
            }
        }
    }
    let ghost orig = store@;
    let mut done: usize = 0;
    while done < stale.len()
        invariant
            done <= stale.len(),
            orig.dom().finite(),
            forall|k: u64| is_live(orig, k, now) ==> #[trigger] store@.contains_key(k),
            forall|k: u64| #[trigger]
                store@.contains_key(k) ==> orig.contains_key(k) && store@[k] == orig[k],
            forall|j: int| 0 <= j < done ==> !store@.contains_key(#[trigger] stale@[j]),
            forall|j: int|
                0 <= j < stale@.len() ==> orig.contains_key(#[trigger] stale@[j])
                    && orig[stale@[j]].expired_at(now),
            forall|k: u64|
                orig.contains_key(k) && (#[trigger] orig[k]).expired_at(now) ==> stale@.contains(k),
        decreases stale.len() - done,
    {
        store.remove(&stale[done]);
        done += 1;
    }
    proof {
        assert forall|k: u64| store@.contains_key(k) implies is_live(orig, k, now) by {
            if orig[k].expired_at(now) {
                let j = choose|j: int| 0 <= j < stale@.len() && stale@[j] == k;
                assert(!store@.contains_key(stale@[j]));
            }
        }
        assert(store@ =~= sweep(orig, now));
        lemma_sweep_shrinks(orig, now);
    }
    before - store.len()
}

} // verus!

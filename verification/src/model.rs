//! The mathematical model of the cache: what a store holds and how each
//! operation transforms it.
//!
//! A store is a finite map from key to [`Entry`]. Every executable operation
//! of the cache is specified by one of the functions below.

use vstd::prelude::*;
use crate::entry::Entry;
use crate::error::ComputeError;

verus! {

/// Whether `key` is present in `m` and still fresh at tick `now`.
pub open spec fn is_live<V>(m: Map<u64, Entry<V>>, key: u64, now: u64) -> bool {
    m.contains_key(key) && !m[key].expired_at(now)
}

/// The store with every entry that is stale at tick `now` removed.
pub open spec fn sweep<V>(m: Map<u64, Entry<V>>, now: u64) -> Map<u64, Entry<V>> {
    Map::new(|k: u64| is_live(m, k, now), |k: u64| m[k])
}

/// The eviction order: entry `a` under key `ka` leaves before entry `b` under
/// key `kb` when it has served fewer reads; among equally read entries, when
/// it expires earlier; and among entries equal in both, when its key is smaller.
pub open spec fn leaves_before<V>(ka: u64, a: Entry<V>, kb: u64, b: Entry<V>) -> bool {
    ||| a.hit_count < b.hit_count
    ||| a.hit_count == b.hit_count && a.expires_at < b.expires_at
    ||| a.hit_count == b.hit_count && a.expires_at == b.expires_at && ka < kb
}

/// Whether `key` is the entry of `m` that eviction removes: it is present and
/// leaves before every other entry.
pub open spec fn is_victim<V>(m: Map<u64, Entry<V>>, key: u64) -> bool {
    &&& m.contains_key(key)
    &&& forall|other: u64|
        m.contains_key(other) && other != key ==> leaves_before(key, m[key], other, #[trigger] m[other])
}

/// The key that eviction removes from a non-empty store.
pub open spec fn victim<V>(m: Map<u64, Entry<V>>) -> u64 {
    choose|key: u64| is_victim(m, key)
}

/// The store after a read of `key` at tick `now`: a stale entry is dropped, a
/// fresh one has its counter advanced, and an absent key changes nothing.
pub open spec fn after_get<V>(m: Map<u64, Entry<V>>, key: u64, now: u64) -> Map<u64, Entry<V>> {
    if !m.contains_key(key) {
        m
    } else if m[key].expired_at(now) {
        m.remove(key)
    } else {
        m.insert(key, m[key].touched())
    }
}

/// The store once room has been made for a write at tick `now`: stale entries
/// are swept, and if the store is still at or over `capacity` the victim leaves.
pub open spec fn make_room<V>(m: Map<u64, Entry<V>>, capacity: nat, now: u64) -> Map<u64, Entry<V>> {
    let swept = sweep(m, now);
    if swept.len() >= capacity && swept.len() > 0 {
        swept.remove(victim(swept))
    } else {
        swept
    }
}

/// The store after writing `value` under `key` at tick `now` with
/// time-to-live `ttl`, in a cache that holds at most `capacity` entries.
pub open spec fn after_insert<V>(
    m: Map<u64, Entry<V>>,
    capacity: nat,
    key: u64,
    value: V,
    ttl: u64,
    now: u64,
) -> Map<u64, Entry<V>> {
    make_room(m, capacity, now).insert(key, Entry::fresh(value, now, ttl))
}

/// The store after a missed read has been settled with the `outcome` of the
/// caller's computation: a computed value is written with time-to-live `ttl`,
/// a failure changes nothing. A cache without capacity only sweeps.
pub open spec fn after_compute<V, E>(
    m: Map<u64, Entry<V>>,
    capacity: nat,
    key: u64,
    outcome: Result<V, E>,
    ttl: u64,
    now: u64,
) -> Map<u64, Entry<V>> {
    match outcome {
        Ok(value) => if capacity > 0 {
            after_insert(m, capacity, key, value, ttl, now)
        } else {
            sweep(m, now)
        },
        Err(_) => m,
    }
}

/// Whether `result` is what settling a missed read with `outcome` returns: a
/// clone of the computed value once it is stored, the computation's own error
/// unchanged, or the refusal of a cache without capacity.
pub open spec fn settles<V: Clone, E>(
    outcome: Result<V, E>,
    capacity: nat,
    result: Result<V, ComputeError<E>>,
) -> bool {
    match outcome {
        Ok(value) => if capacity > 0 {
            result matches Ok(returned) && cloned(value, returned)
        } else {
            result == Err::<V, ComputeError<E>>(ComputeError::InvariantViolation)
        },
        Err(error) => result == Err::<V, ComputeError<E>>(ComputeError::ComputationFailure(error)),
    }
}

/// No two keys are both the victim of one store.
pub proof fn lemma_victim_unique<V>(m: Map<u64, Entry<V>>, a: u64, b: u64)
    requires
        is_victim(m, a),
        is_victim(m, b),
    ensures
        a == b,
{
    if a != b {
        assert(leaves_before(a, m[a], b, m[b]));
        assert(leaves_before(b, m[b], a, m[a]));
    }
}

/// A finite, non-empty store has a victim, and `victim` names it.
pub proof fn lemma_victim_exists<V>(m: Map<u64, Entry<V>>)
    requires
        m.dom().finite(),
        m.len() > 0,
    ensures
        is_victim(m, victim(m)),
    decreases m.len(),
{
    let a = m.dom().choose();
    let rest = m.remove(a);
    if rest.len() == 0 {
        assert forall|other: u64| m.contains_key(other) && other != a implies leaves_before(
            a,
            m[a],
            other,
            #[trigger] m[other],
        ) by {
            assert(rest.contains_key(other));
            assert(rest.dom().contains(other));
        }
        assert(is_victim(m, a));
    } else {
        lemma_victim_exists(rest);
        let b = victim(rest);
        assert(rest.contains_key(b));
        if leaves_before(a, m[a], b, m[b]) {
            assert forall|other: u64| m.contains_key(other) && other != a implies leaves_before(
                a,
                m[a],
                other,
                #[trigger] m[other],
            ) by {
                if other != b {
                    assert(rest.contains_key(other));
                    assert(leaves_before(b, rest[b], other, rest[other]));
                }
            }
            assert(is_victim(m, a));
        } else {
            assert forall|other: u64| m.contains_key(other) && other != b implies leaves_before(
                b,
                m[b],
                other,
                #[trigger] m[other],
            ) by {
                if other != a {
                    assert(rest.contains_key(other));
                    assert(leaves_before(b, rest[b], other, rest[other]));
                }
            }
            assert(is_victim(m, b));
        }
    }
}

/// Sweeping keeps a store finite and never makes it larger.
pub proof fn lemma_sweep_shrinks<V>(m: Map<u64, Entry<V>>, now: u64)
    requires
        m.dom().finite(),
    ensures
        sweep(m, now).dom().finite(),
        sweep(m, now).len() <= m.len(),
{
    vstd::set_lib::lemma_len_subset(sweep(m, now).dom(), m.dom());
}

} // verus!

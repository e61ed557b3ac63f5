//! What holds of the cache whatever it is asked to do, proved over the model
//! that the operations' contracts are written in.

use vstd::prelude::*;
use crate::entry::Entry;
use crate::model::{
    after_compute, after_get, after_insert, is_live, is_victim, leaves_before,
    lemma_sweep_shrinks, lemma_victim_exists, lemma_victim_unique, make_room, sweep, victim,
};

verus! {

/// A value written under a key is read back from that key at every tick up to
/// and including the entry's deadline.
pub proof fn law_insert_then_get<V>(
    m: Map<u64, Entry<V>>,
    capacity: nat,
    key: u64,
    value: V,
    ttl: u64,
    now: u64,
    later: u64,
)
    requires
        later <= now + ttl,
    ensures
        is_live(after_insert(m, capacity, key, value, ttl, now), key, later),
        after_insert(m, capacity, key, value, ttl, now)[key].value == value,
{
}

/// An entry written at tick `now` with time-to-live `ttl` is fresh at exactly
/// the ticks that do not lie after `now + ttl`: the deadline itself is fresh,
/// the tick after it is stale.
pub proof fn law_expiry_boundary<V>(
    m: Map<u64, Entry<V>>,
    capacity: nat,
    key: u64,
    value: V,
    ttl: u64,
    now: u64,
    later: u64,
)
    ensures
        is_live(after_insert(m, capacity, key, value, ttl, now), key, later) <==> later <= now
            + ttl,
{
}

/// A read at a stale tick removes the entry, so the key stays absent at every
/// tick after.
pub proof fn law_stale_read_removes<V>(m: Map<u64, Entry<V>>, key: u64, now: u64, later: u64)
    requires
        !is_live(m, key, now),
    ensures
        !after_get(m, key, now).contains_key(key),
        !is_live(after_get(m, key, now), key, later),
{
}

/// A read changes nothing but the counter of the entry it hits: the value
/// and the deadline stay, the counter never falls, and no other key is
/// affected.
pub proof fn law_read_only_counts<V>(m: Map<u64, Entry<V>>, key: u64, now: u64, other: u64)
    requires
        is_live(m, key, now),
        other != key,
    ensures
        after_get(m, key, now)[key].value == m[key].value,
        after_get(m, key, now)[key].expires_at == m[key].expires_at,
        after_get(m, key, now)[key].hit_count >= m[key].hit_count,
        after_get(m, key, now).contains_key(other) == m.contains_key(other),
        m.contains_key(other) ==> after_get(m, key, now)[other] == m[other],
{
}

/// A write never leaves more entries than the cache may hold.
pub proof fn law_capacity_bound<V>(
    m: Map<u64, Entry<V>>,
    capacity: nat,
    key: u64,
    value: V,
    ttl: u64,
    now: u64,
)
    requires
        m.dom().finite(),
        m.len() <= capacity,
        capacity > 0,
    ensures
        after_insert(m, capacity, key, value, ttl, now).dom().finite(),
        after_insert(m, capacity, key, value, ttl, now).len() <= capacity,
{
    lemma_sweep_shrinks(m, now);
    let swept = sweep(m, now);
    if swept.len() >= capacity {
        lemma_victim_exists(swept);
    }
}

/// Of two entries that have served equally many reads, the one that expires
/// later is never the one evicted.
pub proof fn law_eviction_tie_break<V>(m: Map<u64, Entry<V>>, earlier: u64, later: u64)
    requires
        m.dom().finite(),
        m.contains_key(earlier),
        m.contains_key(later),
        m[earlier].hit_count == m[later].hit_count,
        m[earlier].expires_at < m[later].expires_at,
    ensures
        victim(m) != later,
        is_victim(m, victim(m)),
{
    lemma_victim_exists(m);
    if victim(m) == later {
        assert(leaves_before(later, m[later], earlier, m[earlier]));
    }
}

/// Among entries that have all served equally many reads, the one with the
/// strictly earliest deadline is the one evicted.
pub proof fn law_earliest_deadline_leaves_first<V>(m: Map<u64, Entry<V>>, first: u64)
    requires
        m.dom().finite(),
        m.contains_key(first),
        forall|k: u64|
            m.contains_key(k) && k != first ==> (#[trigger] m[k]).hit_count == m[first].hit_count
                && m[first].expires_at < m[k].expires_at,
    ensures
        victim(m) == first,
{
    assert(is_victim(m, first));
    lemma_victim_exists(m);
    lemma_victim_unique(m, first, victim(m));
}

/// A write leaves every entry it does not remove as it was: whatever is
/// present afterwards under another key was present before, unchanged and
/// fresh.
pub proof fn law_write_keeps_the_rest<V>(
    m: Map<u64, Entry<V>>,
    capacity: nat,
    key: u64,
    value: V,
    ttl: u64,
    now: u64,
    other: u64,
)
    requires
        other != key,
        after_insert(m, capacity, key, value, ttl, now).contains_key(other),
    ensures
        is_live(m, other, now),
        after_insert(m, capacity, key, value, ttl, now)[other] == m[other],
{
}

/// A write to a store that is full of fresh entries evicts exactly the
/// victim: it is gone afterwards unless it is the key written, and every
/// other entry is still there, unchanged unless it is the key written.
pub proof fn law_full_store_evicts_victim<V>(
    m: Map<u64, Entry<V>>,
    capacity: nat,
    key: u64,
    value: V,
    ttl: u64,
    now: u64,
    other: u64,
)
    requires
        m.dom().finite(),
        m.len() == capacity,
        capacity > 0,
        forall|k: u64| m.contains_key(k) ==> is_live(m, k, now),
        m.contains_key(other),
        other != key,
    ensures
        is_victim(m, victim(m)),
        other == victim(m) ==> !after_insert(m, capacity, key, value, ttl, now).contains_key(other),
        other != victim(m) ==> after_insert(m, capacity, key, value, ttl, now).contains_key(other)
            && after_insert(m, capacity, key, value, ttl, now)[other] == m[other],
{
    assert(sweep(m, now) =~= m);
    lemma_victim_exists(m);
}

/// Removing a key that is absent changes nothing, the size included.
pub proof fn law_remove_absent<V>(m: Map<u64, Entry<V>>, key: u64)
    requires
        !m.contains_key(key),
    ensures
        m.remove(key) == m,
        m.remove(key).len() == m.len(),
{
    assert(m.remove(key) =~= m);
}

/// Removing a key twice is removing it once.
pub proof fn law_remove_idempotent<V>(m: Map<u64, Entry<V>>, key: u64)
    ensures
        m.remove(key).remove(key) == m.remove(key),
{
    assert(m.remove(key).remove(key) =~= m.remove(key));
}

/// A cleared cache is empty, and every key reads as absent from it at every
/// tick, without the read changing anything.
pub proof fn law_clear_forgets<V>(key: u64, now: u64)
    ensures
        Map::<u64, Entry<V>>::empty().len() == 0,
        !is_live(Map::<u64, Entry<V>>::empty(), key, now),
        after_get(Map::<u64, Entry<V>>::empty(), key, now) == Map::<u64, Entry<V>>::empty(),
{
}

/// Once a missed read has been settled with a computed value, the key is
/// fresh until that value's deadline and holds that value: a second
/// compute-if-absent call in that time is a hit and runs no computation.
pub proof fn law_computed_value_is_cached<V, E>(
    m: Map<u64, Entry<V>>,
    capacity: nat,
    key: u64,
    value: V,
    ttl: u64,
    now: u64,
    later: u64,
)
    requires
        capacity > 0,
        later <= now + ttl,
    ensures
        is_live(after_compute(m, capacity, key, Ok::<V, E>(value), ttl, now), key, later),
        after_compute(m, capacity, key, Ok::<V, E>(value), ttl, now)[key].value == value,
{
}

/// A failed computation leaves no trace: after a missed read settled with a
/// failure, the key is absent, so it reads as absent at every later tick.
pub proof fn law_failed_compute_leaves_no_trace<V, E>(
    m: Map<u64, Entry<V>>,
    capacity: nat,
    key: u64,
    error: E,
    ttl: u64,
    now: u64,
    later: u64,
)
    requires
        !is_live(m, key, now),
    ensures
        !after_compute(after_get(m, key, now), capacity, key, Err::<V, E>(error), ttl, now)
            .contains_key(key),
        !is_live(
            after_compute(after_get(m, key, now), capacity, key, Err::<V, E>(error), ttl, now),
            key,
            later,
        ),
{
}

/// Sweeping removes exactly the stale entries: a key is present afterwards
/// when and only when it was present and fresh, and it keeps its entry.
pub proof fn law_sweep_keeps_the_fresh<V>(m: Map<u64, Entry<V>>, now: u64, key: u64)
    ensures
        sweep(m, now).contains_key(key) <==> is_live(m, key, now),
        is_live(m, key, now) ==> sweep(m, now)[key] == m[key],
{
}

/// Making room in a store that respects its bound leaves it strictly under
/// the bound, so that the write that follows fits.
pub proof fn law_make_room_frees_a_slot<V>(m: Map<u64, Entry<V>>, capacity: nat, now: u64)
    requires
        m.dom().finite(),
        m.len() <= capacity,
        capacity > 0,
    ensures
        make_room(m, capacity, now).dom().finite(),
        make_room(m, capacity, now).len() < capacity,
{
    lemma_sweep_shrinks(m, now);
    let swept = sweep(m, now);
    if swept.len() >= capacity {
        lemma_victim_exists(swept);
    }
}

} // verus!

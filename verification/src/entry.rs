//! A single cached value with its deadline and usage counter.

use vstd::prelude::*;

verus! {

/// One cached value, the tick after which it is stale, and the number of
/// successful reads it has served.
pub struct Entry<V> {
    /// The cached payload; the cache never inspects it.
    pub value: V,
    /// The last tick at which the entry is still fresh.
    pub expires_at: u64,
    /// How many successful reads the entry has served.
    pub hit_count: u64,
}

/// The deadline of an entry created at tick `now` with time-to-live `ttl`:
/// `now + ttl`, held at the last representable tick when the sum would pass it.
pub open spec fn deadline(now: u64, ttl: u64) -> u64 {
    if now + ttl <= u64::MAX {
        (now + ttl) as u64
    } else {
        u64::MAX
    }
}

impl<V> Entry<V> {
    /// Whether the entry is stale at tick `now`. The deadline itself is still fresh.
    pub open spec fn expired_at(self, now: u64) -> bool {
        now > self.expires_at
    }

    /// The entry after one more successful read. The counter stops at its
    /// largest value instead of wrapping.
    pub open spec fn touched(self) -> Self {
        Entry {
            value: self.value,
            expires_at: self.expires_at,
            hit_count: if self.hit_count < u64::MAX {
                (self.hit_count + 1) as u64
            } else {
                self.hit_count
            },
        }
    }

    /// A fresh, never-read entry created at tick `now` that lives for `ttl` ticks.
    pub open spec fn fresh(value: V, now: u64, ttl: u64) -> Self {
        Entry { value, expires_at: deadline(now, ttl), hit_count: 0 }
    }

    /// Creates a never-read entry at tick `now` that lives for `ttl` ticks.
    pub fn new(value: V, now: u64, ttl: u64) -> (entry: Self)
        ensures
            entry == Self::fresh(value, now, ttl),
    {
        Entry { value, expires_at: now.saturating_add(ttl), hit_count: 0 }
    }

    /// Whether the entry is stale at tick `now`: true exactly when `now` lies
    /// strictly after the deadline.
    pub fn is_expired(&self, now: u64) -> (stale: bool)
        ensures
            stale == self.expired_at(now),
    {
        now > self.expires_at
    }

    /// Records one successful read. Nothing but the counter changes.
    pub fn touch(&mut self)
        ensures
            *final(self) == old(self).touched(),
    {
        self.hit_count = self.hit_count.saturating_add(1);
    }
}

} // verus!

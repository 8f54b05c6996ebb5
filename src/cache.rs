//! Key-value caches whose entries live for a fixed time after they are stored.
//!
//! Time is passed in by the caller as a number of seconds on any clock that
//! all calls share; the cache keeps no clock of its own.
use vstd::prelude::*;

verus! {

/// A cached value, with the instant it was stored and the lifetime it was given.
pub struct CacheEntry<V> {
    pub value: V,
    pub inserted_at: u64,
    pub ttl: u64,
}

impl<V> CacheEntry<V> {
    /// The first instant at which the entry is no longer served.
    pub open spec fn expires_at(&self) -> int {
        self.inserted_at + self.ttl
    }

    /// Whether the entry is still served at `now`.
    pub open spec fn is_live(&self, now: int) -> bool {
        now < self.expires_at()
    }
}

/// What a cache with contents `m` serves for `key` at `now`: the stored value
/// while its entry lives, nothing before it is stored or once it has expired.
pub open spec fn live_in<V>(m: Map<Seq<char>, CacheEntry<V>>, key: Seq<char>, now: int) -> Option<V> {
    if m.contains_key(key) && m[key].is_live(now) {
        Some(m[key].value)
    } else {
        None
    }
}

/// The entry held by the last slot whose key is `key`.
pub open spec fn latest_entry<V>(slots: Seq<(String, CacheEntry<V>)>, key: Seq<char>) -> Option<
    CacheEntry<V>,
>
    decreases slots.len(),
{
    if slots.len() == 0 {
        None
    } else if slots.last().0@ == key {
        Some(slots.last().1)
    } else {
        latest_entry(slots.drop_last(), key)
    }
}

/// Replacing the last slot of a key replaces that key's entry and no other.
proof fn lemma_latest_after_update<V>(
    slots: Seq<(String, CacheEntry<V>)>,
    i: int,
    slot: (String, CacheEntry<V>),
    k: Seq<char>,
)
    requires
        0 <= i < slots.len(),
        slots[i].0@ == slot.0@,
        forall|j: int| i < j < slots.len() ==> (#[trigger] slots[j]).0@ != slot.0@,
    ensures
        latest_entry(slots.update(i, slot), k) == if k == slot.0@ {
            Some(slot.1)
        } else {
            latest_entry(slots, k)
        },
    decreases slots.len(),
{
    let updated = slots.update(i, slot);
    if i == slots.len() - 1 {
        assert(updated.drop_last() =~= slots.drop_last());
    } else {
        assert(updated.drop_last() =~= slots.drop_last().update(i, slot));
        assert(slots.last() == slots[slots.len() - 1]);
        lemma_latest_after_update(slots.drop_last(), i, slot, k);
    }
}

/// Key-value cache whose entries expire a fixed time after they were stored.
/// Reading never renews an entry; storing a key again replaces its entry and
/// its lifetime.
pub struct TtlCache<V> {
    slots: Vec<(String, CacheEntry<V>)>,
}

impl<V> View for TtlCache<V> {
    type V = Map<Seq<char>, CacheEntry<V>>;

    closed spec fn view(&self) -> Map<Seq<char>, CacheEntry<V>> {
        Map::new(
            |k: Seq<char>| latest_entry(self.slots@, k) is Some,
            |k: Seq<char>| latest_entry(self.slots@, k).unwrap(),
        )
    }
}

impl<V> TtlCache<V> {
    /// An empty cache.
    pub fn new() -> (r: TtlCache<V>)
        ensures
            r@ == Map::<Seq<char>, CacheEntry<V>>::empty(),
    {
        let r = TtlCache { slots: Vec::new() };
        assert(r@ =~= Map::<Seq<char>, CacheEntry<V>>::empty());
        r
    }

    /// Index of the last slot for `key`, if any.
    fn position(&self, key: &String) -> (r: Option<usize>)
        ensures
            match r {
                Some(i) => {
                    &&& i < self.slots@.len()
                    &&& self.slots@[i as int].0@ == key@
                    &&& forall|j: int|
                        i < j < self.slots@.len() ==> (#[trigger] self.slots@[j]).0@ != key@
                    &&& latest_entry(self.slots@, key@) == Some(self.slots@[i as int].1)
                },
                None => latest_entry(self.slots@, key@) is None,
            },
    {
        let mut i = self.slots.len();
        assert(self.slots@.take(i as int) =~= self.slots@);
        while i > 0
            invariant
                i <= self.slots@.len(),
                latest_entry(self.slots@, key@) == latest_entry(self.slots@.take(i as int), key@),
                forall|j: int| i <= j < self.slots@.len() ==> (#[trigger] self.slots@[j]).0@ != key@,
            decreases i,
        {
            assert(self.slots@.take(i as int).drop_last() =~= self.slots@.take(i - 1));
            assert(self.slots@.take(i as int).last() == self.slots@[i - 1]);
            if self.slots[i - 1].0 == *key {
                return Some(i - 1);
            }
            i = i - 1;
        }
        None
    }

    /// The value stored under `key`, if its entry is still live at `now`.
    pub fn get(&self, key: &String, now: u64) -> (r: Option<&V>)
        ensures
            match r {
                Some(v) => live_in(self@, key@, now as int) == Some(*v),
                None => live_in(self@, key@, now as int) is None,
            },
    {
        match self.position(key) {
            Some(i) => {
                let entry = &self.slots[i].1;
                if now < entry.inserted_at || now - entry.inserted_at < entry.ttl {
                    Some(&entry.value)
                } else {
                    None
                }
            },
            None => None,
        }
    }

    /// Stores `value` under `key` at `now`, to live for `ttl`; an earlier
    /// entry for `key` is replaced.
    pub fn set(&mut self, key: String, value: V, ttl: u64, now: u64)
        ensures
            final(self)@ == old(self)@.insert(key@, CacheEntry { value, inserted_at: now, ttl }),
    {
        let ghost old_slots = self.slots@;
        let ghost k = key@;
        let ghost entry = CacheEntry { value, inserted_at: now, ttl };
        let found = self.position(&key);
        let slot = (key, CacheEntry { value, inserted_at: now, ttl });
        match found {
            Some(i) => {
                self.slots.set(i, slot);
                assert forall|q: Seq<char>| #[trigger]
                    latest_entry(self.slots@, q) == (if q == k {
                        Some(entry)
                    } else {
                        latest_entry(old_slots, q)
                    }) by {
                    lemma_latest_after_update(old_slots, i as int, slot, q);
                }
            },
            None => {
                self.slots.push(slot);
                assert forall|q: Seq<char>| #[trigger]
                    latest_entry(self.slots@, q) == (if q == k {
                        Some(entry)
                    } else {
                        latest_entry(old_slots, q)
                    }) by {
                    assert(self.slots@.drop_last() =~= old_slots);
                }
            },
        }
        assert(self@ =~= old(self)@.insert(k, entry));
    }
}

/// An entry stored with lifetime `ttl` at `now` is served at every instant
/// before `now + ttl` and at none from then on.
pub proof fn lemma_entry_lifetime<V>(
    m: Map<Seq<char>, CacheEntry<V>>,
    key: Seq<char>,
    value: V,
    ttl: u64,
    now: u64,
    later: int,
)
    ensures
        live_in(m.insert(key, CacheEntry { value, inserted_at: now, ttl }), key, later) == if later
            < now + ttl {
            Some(value)
        } else {
            None
        },
{
}

} // verus!

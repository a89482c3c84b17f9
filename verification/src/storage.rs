use vstd::prelude::*;

use std::collections::HashMap;

verus! {

/// The value a slot mapping yields for `key`: the stored value, or zero when
/// the key has never been stored. Absence is not a failure mode.
pub open spec fn slot_or_zero(slots: Map<u8, u8>, key: u8) -> u8 {
    if slots.contains_key(key) {
        slots[key]
    } else {
        0
    }
}

/// Unbounded key-to-value mapping backing the persistent storage. Keys are
/// unique; there is no ordering.
pub struct KeyValue {
    storage: HashMap<u8, u8>,
}

impl View for KeyValue {
    type V = Map<u8, u8>;

    closed spec fn view(&self) -> Map<u8, u8> {
        self.storage@
    }
}

impl KeyValue {
    /// A new mapping is empty.
    pub fn new() -> (kv: KeyValue)
        ensures
            kv@ == Map::<u8, u8>::empty(),
    {
        KeyValue { storage: HashMap::new() }
    }

    /// Looks `key` up: the stored value, or nothing when the key is absent.
    pub fn load(&self, key: u8) -> (r: Option<u8>)
        ensures
            r == (if self@.contains_key(key) {
                Some(self@[key])
            } else {
                None::<u8>
            }),
    {
        match self.storage.get(&key) {
            Some(value) => Some(*value),
            None => None,
        }
    }

    /// Unconditionally upserts `value` under `key`.
    pub fn store(&mut self, key: u8, value: u8)
        ensures
            final(self)@ == old(self)@.insert(key, value),
    {
        self.storage.insert(key, value);
    }
}

/// Persistent storage: a slot mapping plus the access cache that classifies
/// each key as warm (touched earlier in this execution) or cold. The cache
/// drives differential gas pricing only; it never caches values.
pub struct Storage {
    storage: KeyValue,
    cache: Vec<u8>,
}

impl Storage {
    /// The stored slots.
    pub closed spec fn slots(&self) -> Map<u8, u8> {
        self.storage@
    }

    /// Whether `key` has been touched by a load or store of this execution.
    pub closed spec fn is_warm(&self, key: u8) -> bool {
        self.cache@.contains(key)
    }

    /// A new storage holds nothing and every key is cold.
    pub fn new() -> (s: Storage)
        ensures
            s.slots() == Map::<u8, u8>::empty(),
            forall|k: u8| !s.is_warm(k),
    {
        Storage { storage: KeyValue::new(), cache: Vec::new() }
    }

    /// Marks `key` warm. Private: `load` and `store` share this bookkeeping.
    fn touch(&mut self, key: u8)
        ensures
            forall|k: u8| final(self).is_warm(k) == (old(self).is_warm(k) || k == key),
            final(self).slots() == old(self).slots(),
    {
        let mut i: usize = 0;
        let n = self.cache.len();
        while i < n
            invariant
                i <= n,
                n == self.cache@.len(),
                forall|j: int| 0 <= j < i ==> self.cache@[j] != key,
            decreases n - i,
        {
            if self.cache[i] == key {
                proof {
                    assert(self.cache@.contains(key)) by {
                        assert(self.cache@[i as int] == key);
                    }
                }
                return ;
            }
            i = i + 1;
        }
        self.cache.push(key);
        proof {
            broadcast use vstd::seq_lib::lemma_seq_contains_after_push;

        }
    }

    /// Looks `key` up, reporting whether it was already warm. The key is
    /// unconditionally warm afterwards, so a second load of the same key
    /// reports warm. A key with no stored value yields zero, not an error.
    pub fn load(&mut self, key: u8) -> (r: (bool, u8))
        ensures
            r.0 == old(self).is_warm(key),
            r.1 == slot_or_zero(old(self).slots(), key),
            forall|k: u8| final(self).is_warm(k) == (old(self).is_warm(k) || k == key),
            final(self).slots() == old(self).slots(),
    {
        let warm = self.lookup_warm(key);
        self.touch(key);
        match self.storage.load(key) {
            Some(value) => (warm, value),
            None => (warm, 0x00),
        }
    }

    /// Unconditionally upserts `value` under `key`. The key is also marked
    /// warm, so that the access cache names every key touched by a load or a
    /// store of this execution.
    pub fn store(&mut self, key: u8, value: u8)
        ensures
            final(self).slots() == old(self).slots().insert(key, value),
            forall|k: u8| final(self).is_warm(k) == (old(self).is_warm(k) || k == key),
    {
        self.touch(key);
        self.storage.store(key, value);
    }

    /// Whether `key` is warm, without touching it. Private: `load` reports
    /// warmth through this.
    fn lookup_warm(&self, key: u8) -> (warm: bool)
        ensures
            warm == self.is_warm(key),
    {
        let mut i: usize = 0;
        let n = self.cache.len();
        while i < n
            invariant
                i <= n,
                n == self.cache@.len(),
                forall|j: int| 0 <= j < i ==> self.cache@[j] != key,
            decreases n - i,
        {
            if self.cache[i] == key {
                return true;
            }
            i = i + 1;
        }
        false
    }
}

/// A second load of one key reports warm and returns the same value: once a
/// load of `key` has taken a storage from `pre` to `post` (the effect its
/// contract states — the key marked warm, the slots untouched), `key` is warm
/// in `post` and a load of it from `post` yields the value it yielded from
/// `pre`.
pub proof fn lemma_second_load_is_warm(pre: Storage, post: Storage, key: u8)
    requires
        forall|k: u8| post.is_warm(k) == (pre.is_warm(k) || k == key),
        post.slots() == pre.slots(),
    ensures
        post.is_warm(key),
        slot_or_zero(post.slots(), key) == slot_or_zero(pre.slots(), key),
{
}

/// A value stored under a key is exactly what a later load of that key
/// yields.
pub proof fn lemma_store_then_load(slots: Map<u8, u8>, key: u8, value: u8)
    ensures
        slot_or_zero(slots.insert(key, value), key) == value,
{
}

} // verus!

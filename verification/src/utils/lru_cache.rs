//! A cache of bounded size that drops the entry which has gone unused for the
//! longest time.
//!
//! The entries stand in the order of their last access, the least recently
//! used one first. The position of an entry is its time stamp: reading or
//! writing an entry moves it to the end, and the entry to evict is the first.

use vstd::prelude::*;

verus! {

/// One entry of the cache.
pub struct CacheEntry<V> {
    key: String,
    value: V,
}

/// A cache from text to values of type `V` that holds `max_size` entries.
pub struct LruCache<V: Clone> {
    cache: Vec<CacheEntry<V>>,
    max_size: usize,
}

/// Whether no key stands twice in `entries`.
pub open spec fn distinct_keys<V>(entries: Seq<(Seq<char>, V)>) -> bool {
    forall|i: int, j: int|
        0 <= i < entries.len() && 0 <= j < entries.len() && i != j ==> entries[i].0 != entries[j].0
}

/// Whether `key` stands at the position `at` in `entries`.
pub open spec fn key_at<V>(entries: Seq<(Seq<char>, V)>, key: Seq<char>, at: int) -> bool {
    0 <= at < entries.len() && entries[at].0 == key
}

/// Whether `entries` holds `key`.
pub open spec fn has_key<V>(entries: Seq<(Seq<char>, V)>, key: Seq<char>) -> bool {
    exists|at: int| key_at(entries, key, at)
}

/// The position of `key` in `entries` that hold it.
pub open spec fn position_of<V>(entries: Seq<(Seq<char>, V)>, key: Seq<char>) -> int {
    choose|at: int| key_at(entries, key, at)
}

/// `entries` after the entry at `at` has been used: it has moved to the end.
pub open spec fn touched<V>(entries: Seq<(Seq<char>, V)>, at: int) -> Seq<(Seq<char>, V)> {
    entries.remove(at).push(entries[at])
}

/// `entries` after a read of `key`: a hit moves the entry to the end, a miss
/// changes nothing.
pub open spec fn after_get<V>(entries: Seq<(Seq<char>, V)>, key: Seq<char>) -> Seq<
    (Seq<char>, V),
> {
    if has_key(entries, key) {
        touched(entries, position_of(entries, key))
    } else {
        entries
    }
}

/// Whether a cache of `max_size` entries has to evict before it takes `key`:
/// it is full and the key is new.
pub open spec fn must_evict<V>(entries: Seq<(Seq<char>, V)>, max_size: nat, key: Seq<char>)
    -> bool {
    entries.len() >= max_size && !has_key(entries, key) && entries.len() > 0
}

/// `entries` after a write of `value` under `key` to a cache of `max_size`
/// entries. A key that is there gets the new value and moves to the end. A new
/// key goes to the end, after the first entry has left if the cache is full.
pub open spec fn after_put<V>(
    entries: Seq<(Seq<char>, V)>,
    max_size: nat,
    key: Seq<char>,
    value: V,
) -> Seq<(Seq<char>, V)> {
    if has_key(entries, key) {
        entries.remove(position_of(entries, key)).push((key, value))
    } else if must_evict(entries, max_size, key) {
        entries.drop_first().push((key, value))
    } else {
        entries.push((key, value))
    }
}

/// The bytes that `entries` hold in all.
pub open spec fn total_bytes(entries: Seq<(Seq<char>, Vec<u8>)>) -> nat
    decreases entries.len(),
{
    if entries.len() == 0 {
        0
    } else {
        total_bytes(entries.drop_last()) + entries.last().1@.len()
    }
}

/// Among distinct keys a key has one position.
pub proof fn lemma_position_of<V>(entries: Seq<(Seq<char>, V)>, key: Seq<char>, at: int)
    requires
        distinct_keys(entries),
        key_at(entries, key, at),
    ensures
        has_key(entries, key),
        position_of(entries, key) == at,
{
}

/// What was written is there: after a write under `key` the keys are still
/// distinct, the entry of `key` is the most recently used one and holds the
/// value that was written, and a read of `key` changes nothing.
pub proof fn lemma_put_stores<V>(
    entries: Seq<(Seq<char>, V)>,
    max_size: nat,
    key: Seq<char>,
    value: V,
)
    requires
        distinct_keys(entries),
    ensures
        distinct_keys(after_put(entries, max_size, key, value)),
        has_key(after_put(entries, max_size, key, value), key),
        position_of(after_put(entries, max_size, key, value), key) == after_put(
            entries,
            max_size,
            key,
            value,
        ).len() - 1,
        after_put(entries, max_size, key, value).last() == (key, value),
        after_get(after_put(entries, max_size, key, value), key) == after_put(
            entries,
            max_size,
            key,
            value,
        ),
        forall|k: Seq<char>|
            has_key(after_put(entries, max_size, key, value), k) ==> k == key || has_key(
                entries,
                k,
            ),
{
    let after = after_put(entries, max_size, key, value);
    let last = after.len() - 1;
    assert(key_at(after, key, last));
    assert forall|k: Seq<char>| has_key(after, k) implies k == key || has_key(entries, k) by {
        let p = position_of(after, k);
        if p < last {
            if has_key(entries, key) {
                let at = position_of(entries, key);
                lemma_after_remove_push(entries, at, (key, value), p);
                if p < at {
                    assert(key_at(entries, k, p));
                } else {
                    assert(key_at(entries, k, p + 1));
                }
            } else if must_evict(entries, max_size, key) {
                assert(key_at(entries, k, p + 1));
            } else {
                assert(key_at(entries, k, p));
            }
        }
    }
    if has_key(entries, key) {
        let at = position_of(entries, key);
        assert forall|i: int, j: int|
            0 <= i < after.len() && 0 <= j < after.len() && i != j implies after[i].0
            != after[j].0 by {
            lemma_after_remove_push(entries, at, (key, value), i);
            lemma_after_remove_push(entries, at, (key, value), j);
        }
    } else {
        let shift = if must_evict(entries, max_size, key) {
            1int
        } else {
            0int
        };
        assert forall|i: int, j: int|
            0 <= i < after.len() && 0 <= j < after.len() && i != j implies after[i].0
            != after[j].0 by {
            if i < last {
                assert(key_at(entries, after[i].0, i + shift));
            }
            if j < last {
                assert(key_at(entries, after[j].0, j + shift));
            }
        }
    }
    lemma_position_of(after, key, last);
    assert(after.remove(last).push(after[last]) =~= after);
}

/// The size of a cache never exceeds its capacity: a write to a cache of at
/// least one entry that is within its capacity leaves it within its capacity.
pub proof fn lemma_put_within_capacity<V>(
    entries: Seq<(Seq<char>, V)>,
    max_size: nat,
    key: Seq<char>,
    value: V,
)
    requires
        distinct_keys(entries),
        entries.len() <= max_size,
        max_size >= 1,
    ensures
        after_put(entries, max_size, key, value).len() <= max_size,
{
}

proof fn lemma_after_remove_push<V>(
    entries: Seq<(Seq<char>, V)>,
    at: int,
    last: (Seq<char>, V),
    i: int,
)
    requires
        0 <= at < entries.len(),
        0 <= i < entries.len(),
    ensures
        entries.remove(at).push(last).len() == entries.len(),
        i < at ==> entries.remove(at).push(last)[i] == entries[i],
        at <= i < entries.len() - 1 ==> entries.remove(at).push(last)[i] == entries[i + 1],
        i == entries.len() - 1 ==> entries.remove(at).push(last)[i] == last,
{
}

/// A full cache that takes a new key evicts exactly the entry that has gone
/// unused for the longest time: the first entry leaves, and every other entry
/// stays, in its order, before the new one.
pub proof fn lemma_put_evicts_least_recent<V>(
    entries: Seq<(Seq<char>, V)>,
    max_size: nat,
    key: Seq<char>,
    value: V,
)
    requires
        distinct_keys(entries),
        entries.len() == max_size,
        max_size >= 1,
        !has_key(entries, key),
    ensures
        after_put(entries, max_size, key, value) == entries.drop_first().push((key, value)),
        !has_key(after_put(entries, max_size, key, value), entries[0].0),
        forall|i: int|
            1 <= i < entries.len() ==> after_put(entries, max_size, key, value)[i - 1]
                == entries[i],
{
    let after = after_put(entries, max_size, key, value);
    assert(key_at(entries, entries[0].0, 0));
    assert forall|at: int| !key_at(after, entries[0].0, at) by {
        if 0 <= at < after.len() - 1 {
            assert(after[at] == entries[at + 1]);
        }
    }
}

/// A read changes neither the size nor the set of keys, and keeps the keys
/// distinct.
pub proof fn lemma_get_keeps_entries<V>(entries: Seq<(Seq<char>, V)>, key: Seq<char>)
    requires
        distinct_keys(entries),
    ensures
        after_get(entries, key).len() == entries.len(),
        distinct_keys(after_get(entries, key)),
        forall|k: Seq<char>| has_key(after_get(entries, key), k) == has_key(entries, k),
{
    let after = after_get(entries, key);
    if has_key(entries, key) {
        let at = position_of(entries, key);
        assert forall|i: int, j: int|
            0 <= i < after.len() && 0 <= j < after.len() && i != j implies after[i].0
            != after[j].0 by {
            lemma_after_remove_push(entries, at, entries[at], i);
            lemma_after_remove_push(entries, at, entries[at], j);
        }
        assert forall|k: Seq<char>| has_key(after, k) == has_key(entries, k) by {
            if has_key(entries, k) {
                let p = position_of(entries, k);
                if p < at {
                    lemma_after_remove_push(entries, at, entries[at], p);
                    assert(key_at(after, k, p));
                } else if p == at {
                    assert(key_at(after, k, after.len() - 1));
                } else {
                    lemma_after_remove_push(entries, at, entries[at], p - 1);
                    assert(key_at(after, k, p - 1));
                }
            }
            if has_key(after, k) {
                let p = position_of(after, k);
                lemma_after_remove_push(entries, at, entries[at], p);
                if p < at {
                    assert(key_at(entries, k, p));
                } else if p < after.len() - 1 {
                    assert(key_at(entries, k, p + 1));
                } else {
                    assert(key_at(entries, k, at));
                }
            }
        }
    }
}

/// What is done to a cache.
pub enum CacheOp<V> {
    /// A read of the key.
    Get(Seq<char>),
    /// A write of the value under the key.
    Put(Seq<char>, V),
}

/// `entries` after `op` was done to a cache of `max_size` entries.
pub open spec fn after_op<V>(entries: Seq<(Seq<char>, V)>, max_size: nat, op: CacheOp<V>) -> Seq<
    (Seq<char>, V),
> {
    match op {
        CacheOp::Get(key) => after_get(entries, key),
        CacheOp::Put(key, value) => after_put(entries, max_size, key, value),
    }
}

/// The entries of a cache of `max_size` entries that started empty, after
/// `ops` were done to it one after the other.
pub open spec fn after_ops<V>(max_size: nat, ops: Seq<CacheOp<V>>) -> Seq<(Seq<char>, V)>
    decreases ops.len(),
{
    if ops.len() == 0 {
        Seq::empty()
    } else {
        after_op(after_ops(max_size, ops.drop_last()), max_size, ops.last())
    }
}

/// Whatever is read and written, in whatever order: a cache that is meant to
/// hold at least one entry never holds more entries than it is meant to, and
/// never holds a key twice.
pub proof fn lemma_size_never_exceeds_capacity<V>(max_size: nat, ops: Seq<CacheOp<V>>)
    requires
        max_size >= 1,
    ensures
        after_ops(max_size, ops).len() <= max_size,
        distinct_keys(after_ops(max_size, ops)),
    decreases ops.len(),
{
    if ops.len() > 0 {
        let before = after_ops(max_size, ops.drop_last());
        lemma_size_never_exceeds_capacity(max_size, ops.drop_last());
        match ops.last() {
            CacheOp::Get(key) => {
                lemma_get_keeps_entries(before, key);
            },
            CacheOp::Put(key, value) => {
                lemma_put_stores(before, max_size, key, value);
                lemma_put_within_capacity(before, max_size, key, value);
            },
        }
    }
}

impl<V> CacheEntry<V> {
    /// The entry as a pair of key and value.
    pub closed spec fn view(&self) -> (Seq<char>, V) {
        (self.key@, self.value)
    }
}

/// The entries of a vector as pairs.
pub closed spec fn pairs<V>(cache: Seq<CacheEntry<V>>) -> Seq<(Seq<char>, V)> {
    Seq::new(cache.len(), |i: int| cache[i]@)
}

/// The most entries that a cache of `max_size` entries ever holds: its
/// capacity, and one entry where the capacity is zero.
pub open spec fn size_bound(max_size: nat) -> nat {
    if max_size == 0 {
        1
    } else {
        max_size
    }
}

impl<V: Clone> LruCache<V> {
    #[verifier::type_invariant]
    spec fn well_formed(self) -> bool {
        &&& distinct_keys(pairs(self.cache@))
        &&& self.cache@.len() <= size_bound(self.max_size as nat)
    }

    /// The entries, the least recently used one first.
    pub closed spec fn view(&self) -> Seq<(Seq<char>, V)> {
        pairs(self.cache@)
    }

    /// The number of entries that the cache is meant to hold.
    pub closed spec fn capacity(&self) -> nat {
        self.max_size as nat
    }

    /// An empty cache that holds `max_size` entries.
    pub fn new(max_size: usize) -> (cache: Self)
        ensures
            cache@ == Seq::<(Seq<char>, V)>::empty(),
            cache.capacity() == max_size,
    {
        let cache = LruCache { cache: Vec::new(), max_size };
        assert(cache@ =~= Seq::<(Seq<char>, V)>::empty());
        cache
    }

    /// The number of entries.
    pub fn len(&self) -> (len: usize)
        ensures
            len == self@.len(),
            len <= size_bound(self.capacity()),
            distinct_keys(self@),
    {
        proof {
            use_type_invariant(self);
        }
        self.cache.len()
    }

    /// The number of entries that the cache is meant to hold.
    pub fn max_size(&self) -> (max_size: usize)
        ensures
            max_size == self.capacity(),
    {
        self.max_size
    }

    fn take_entries(&mut self) -> (entries: Vec<CacheEntry<V>>)
        ensures
            entries@ == old(self).cache@,
            final(self).cache@.len() == 0,
            final(self).max_size == old(self).max_size,
            distinct_keys(pairs(entries@)),
            entries@.len() <= size_bound(old(self).max_size as nat),
    {
        proof {
            use_type_invariant(&*self);
        }
        let mut entries: Vec<CacheEntry<V>> = Vec::new();
        core::mem::swap(&mut self.cache, &mut entries);
        entries
    }

    fn find(entries: &Vec<CacheEntry<V>>, key: &String) -> (found: Option<usize>)
        requires
            distinct_keys(pairs(entries@)),
        ensures
            match found {
                Some(at) => key_at(pairs(entries@), key@, at as int) && position_of(
                    pairs(entries@),
                    key@,
                ) == at,
                None => !has_key(pairs(entries@), key@),
            },
    {
        let mut i: usize = 0;
        while i < entries.len()
            invariant
                i <= entries.len(),
                distinct_keys(pairs(entries@)),
                forall|k: int| 0 <= k < i ==> !key_at(pairs(entries@), key@, k),
            decreases entries.len() - i,
        {
            if entries[i].key == *key {
                proof {
                    lemma_position_of(pairs(entries@), key@, i as int);
                }
                return Some(i);
            }
            i += 1;
        }
        None
    }

    /// Removes every entry.
    pub fn clear(&mut self)
        ensures
            final(self)@ == Seq::<(Seq<char>, V)>::empty(),
            final(self).capacity() == old(self).capacity(),
    {
        let _ = self.take_entries();
        assert(self@ =~= Seq::<(Seq<char>, V)>::empty());
    }

    /// Reads the value under `key`. A hit gives a clone of the value and
    /// makes the entry the most recently used one; a miss changes nothing.
    pub fn get(&mut self, key: &String) -> (value: Option<V>)
        ensures
            final(self)@ == after_get(old(self)@, key@),
            final(self).capacity() == old(self).capacity(),
            value is Some == has_key(old(self)@, key@),
            value is Some ==> cloned(old(self)@[position_of(old(self)@, key@)].1, value->0),
            final(self)@.len() <= size_bound(final(self).capacity()),
            distinct_keys(old(self)@),
            distinct_keys(final(self)@),
    {
        let mut entries = self.take_entries();
        let ghost before = pairs(entries@);
        match Self::find(&entries, key) {
            Some(at) => {
                let entry = entries.remove(at);
                let value = entry.value.clone();
                entries.push(entry);
                proof {
                    assert(pairs(entries@) =~= touched(before, at as int));
                    lemma_get_keeps_entries(before, key@);
                }
                self.cache = entries;
                proof {
                    use_type_invariant(&*self);
                }
                Some(value)
            },
            None => {
                self.cache = entries;
                proof {
                    use_type_invariant(&*self);
                }
                None
            },
        }
    }

    /// Removes the entry that has gone unused for the longest time, if there
    /// is an entry.
    pub fn evict_oldest(&mut self)
        ensures
            final(self)@ == if old(self)@.len() > 0 {
                old(self)@.drop_first()
            } else {
                old(self)@
            },
            final(self).capacity() == old(self).capacity(),
    {
        let mut entries = self.take_entries();
        let ghost before = pairs(entries@);
        if entries.len() > 0 {
            let _ = entries.remove(0);
            proof {
                assert(pairs(entries@) =~= before.drop_first());
                assert forall|i: int, j: int|
                    0 <= i < entries@.len() && 0 <= j < entries@.len() && i != j implies pairs(
                    entries@,
                )[i].0 != pairs(entries@)[j].0 by {
                    assert(pairs(entries@)[i] == before[i + 1]);
                    assert(pairs(entries@)[j] == before[j + 1]);
                }
            }
        }
        self.cache = entries;
    }

    /// Writes `value` under `key` and makes the entry the most recently used
    /// one. A key that is there gets the new value. For a new key a full cache
    /// first evicts its least recently used entry.
    pub fn put(&mut self, key: String, value: V)
        ensures
            final(self)@ == after_put(old(self)@, old(self).capacity(), key@, value),
            final(self).capacity() == old(self).capacity(),
            final(self)@.len() <= size_bound(final(self).capacity()),
            distinct_keys(old(self)@),
            distinct_keys(final(self)@),
    {
        let mut entries = self.take_entries();
        let ghost before = pairs(entries@);
        let ghost max_size = self.max_size as nat;
        match Self::find(&entries, &key) {
            Some(at) => {
                let _ = entries.remove(at);
                entries.push(CacheEntry { key, value });
                proof {
                    let after = pairs(entries@);
                    assert(after =~= before.remove(at as int).push((key@, value)));
                    assert forall|i: int, j: int|
                        0 <= i < after.len() && 0 <= j < after.len() && i != j implies after[i].0
                        != after[j].0 by {
                        lemma_after_remove_push(before, at as int, (key@, value), i);
                        lemma_after_remove_push(before, at as int, (key@, value), j);
                    }
                }
            },
            None => {
                if entries.len() >= self.max_size && entries.len() > 0 {
                    let _ = entries.remove(0);
                    assert(pairs(entries@) =~= before.drop_first());
                }
                let ghost kept = pairs(entries@);
                entries.push(CacheEntry { key, value });
                proof {
                    let after = pairs(entries@);
                    assert(after =~= kept.push((key@, value)));
                    assert forall|i: int| 0 <= i < kept.len() implies has_key(
                        before,
                        #[trigger] kept[i].0,
                    ) by {
                        if kept.len() == before.len() {
                            assert(key_at(before, kept[i].0, i));
                        } else {
                            assert(key_at(before, kept[i].0, i + 1));
                        }
                    }
                    assert forall|i: int, j: int|
                        0 <= i < after.len() && 0 <= j < after.len() && i != j implies after[i].0
                        != after[j].0 by {
                        if i < kept.len() && j < kept.len() {
                            if kept.len() == before.len() {
                                assert(kept[i] == before[i] && kept[j] == before[j]);
                            } else {
                                assert(kept[i] == before[i + 1] && kept[j] == before[j + 1]);
                            }
                        } else if i < kept.len() {
                            assert(has_key(before, kept[i].0));
                        } else if j < kept.len() {
                            assert(has_key(before, kept[j].0));
                        }
                    }
                }
            },
        }
        self.cache = entries;
        proof {
            use_type_invariant(&*self);
        }
    }
}

impl LruCache<Vec<u8>> {
    /// The bytes that the values hold in all, as far as the number fits.
    pub fn memory_usage(&self) -> (bytes: usize)
        ensures
            bytes == if total_bytes(self@) <= usize::MAX {
                total_bytes(self@)
            } else {
                usize::MAX as nat
            },
    {
        let mut bytes: usize = 0;
        let mut i: usize = 0;
        while i < self.cache.len()
            invariant
                i <= self.cache.len(),
                bytes == if total_bytes(self@.take(i as int)) <= usize::MAX {
                    total_bytes(self@.take(i as int))
                } else {
                    usize::MAX as nat
                },
            decreases self.cache.len() - i,
        {
            proof {
                assert(self@.take(i + 1).drop_last() =~= self@.take(i as int));
                assert(self@.take(i + 1).last() == self@[i as int]);
            }
            bytes = bytes.saturating_add(self.cache[i].value.len());
            i += 1;
        }
        proof {
            assert(self@.take(self.cache.len() as int) =~= self@);
        }
        bytes
    }
}

} // verus!

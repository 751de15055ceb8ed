//! A cache whose entries expire, with a record written for every value that
//! is put into it.
//!
//! The cache reads no clock: every operation is told the time. It writes no
//! file either: the records collect in the cache until the caller takes them
//! and appends them to the backing store.

use vstd::prelude::*;
use crate::record::{debug_text, format_record, record_text, Describe};

verus! {

/// A cached value and the time up to which it is good.
///
/// `expires_at` is a reading of the monotonic clock, in nanoseconds.
pub struct CacheEntry<V> {
    pub value: V,
    pub expires_at: u128,
}

impl<V> CacheEntry<V> {
    /// An entry is expired once the clock has passed its deadline.
    pub open spec fn expired_at(&self, now: u64) -> bool {
        now > self.expires_at
    }

    /// An entry made at `now` that lives for `ttl` nanoseconds.
    pub fn new(value: V, now: u64, ttl: u64) -> (entry: Self)
        ensures
            entry == (CacheEntry { value, expires_at: (now + ttl) as u128 }),
    {
        CacheEntry { value, expires_at: now as u128 + ttl as u128 }
    }

    /// Tells whether the entry is expired at `now`.
    pub fn is_expired(&self, now: u64) -> (expired: bool)
        ensures
            expired == self.expired_at(now),
    {
        now as u128 > self.expires_at
    }
}

/// An entry under its key.
struct Slot<V> {
    key: String,
    entry: CacheEntry<V>,
}

/// The entries of `entries` that are not expired at `now`.
pub open spec fn live_entries<V>(entries: Map<Seq<char>, CacheEntry<V>>, now: u64) -> Map<
    Seq<char>,
    CacheEntry<V>,
> {
    Map::new(
        |key: Seq<char>| entries.contains_key(key) && !entries[key].expired_at(now),
        |key: Seq<char>| entries[key],
    )
}

/// A cache from text keys to values of type `V`.
pub struct ConcurrentCache<V> {
    slots: Vec<Slot<V>>,
    unwritten: Vec<String>,
    backing_store_path: String,
    default_ttl: u64,
}

impl<V> View for ConcurrentCache<V> {
    type V = Map<Seq<char>, CacheEntry<V>>;

    /// The entries of the cache, expired ones included, by key.
    closed spec fn view(&self) -> Map<Seq<char>, CacheEntry<V>> {
        Map::new(
            |key: Seq<char>| self.keys().contains(key),
            |key: Seq<char>| self.slots@[self.keys().index_of(key)].entry,
        )
    }
}

impl<V> ConcurrentCache<V> {
    /// The keys in the order of the slots.
    closed spec fn keys(&self) -> Seq<Seq<char>> {
        self.slots@.map_values(|slot: Slot<V>| slot.key@)
    }

    /// What holds of every cache: no key has two entries.
    pub closed spec fn well_formed(&self) -> bool {
        self.keys().no_duplicates()
    }

    /// The records that have been made and not yet taken, oldest first.
    pub closed spec fn records(&self) -> Seq<Seq<char>> {
        self.unwritten@.map_values(|line: String| line@)
    }

    /// How long a new entry lives, in nanoseconds.
    pub closed spec fn ttl(&self) -> u64 {
        self.default_ttl
    }

    /// Where the records are to be appended.
    pub closed spec fn path(&self) -> Seq<char> {
        self.backing_store_path@
    }

    /// Whether the cache holds an entry for `key` that is good at `now`.
    pub open spec fn is_live(&self, key: Seq<char>, now: u64) -> bool {
        self@.contains_key(key) && !self@[key].expired_at(now)
    }

    /// Everything but the entries is as in `before`.
    pub open spec fn same_store_as(&self, before: &Self) -> bool {
        &&& self.records() == before.records()
        &&& self.ttl() == before.ttl()
        &&& self.path() == before.path()
    }

    /// The slot of a key is found under that key.
    proof fn lemma_slot(&self, index: int)
        requires
            self.well_formed(),
            0 <= index < self.slots@.len(),
        ensures
            self@.contains_key(self.slots@[index].key@),
            self@[self.slots@[index].key@] == self.slots@[index].entry,
    {
        let keys = self.keys();
        let key = keys[index];
        assert(keys.contains(key));
        let found = keys.index_of(key);
        assert(0 <= found < keys.len() && keys[found] == key);
    }

    /// An empty cache for the given backing store and time to live.
    pub fn new(backing_store_path: String, default_ttl: u64) -> (cache: Self)
        ensures
            cache.well_formed(),
            cache@ == Map::<Seq<char>, CacheEntry<V>>::empty(),
            cache.records() == Seq::<Seq<char>>::empty(),
            cache.ttl() == default_ttl,
            cache.path() == backing_store_path@,
    {
        let cache = ConcurrentCache {
            slots: Vec::new(),
            unwritten: Vec::new(),
            backing_store_path,
            default_ttl,
        };
        assert(cache@ =~= Map::<Seq<char>, CacheEntry<V>>::empty());
        assert(cache.records() =~= Seq::<Seq<char>>::empty());
        cache
    }

    /// The time to live of new entries, in nanoseconds.
    pub fn default_ttl(&self) -> (ttl: u64)
        ensures
            ttl == self.ttl(),
    {
        self.default_ttl
    }

    /// The path of the backing store.
    pub fn backing_store_path(&self) -> (path: &String)
        ensures
            path@ == self.path(),
    {
        &self.backing_store_path
    }

    /// The place of a key among the slots.
    fn position(&self, key: &String) -> (found: Option<usize>)
        requires
            self.well_formed(),
        ensures
            match found {
                Some(index) => index < self.slots@.len() && self.slots@[index as int].key@
                    == key@ && self@.contains_key(key@),
                None => !self@.contains_key(key@),
            },
    {
        let mut i: usize = 0;
        while i < self.slots.len()
            invariant
                self.well_formed(),
                i <= self.slots@.len(),
                forall|k: int| 0 <= k < i ==> self.keys()[k] != key@,
            decreases self.slots@.len() - i,
        {
            if self.slots[i].key == *key {
                proof {
                    self.lemma_slot(i as int);
                }
                return Some(i);
            }
            i = i + 1;
        }
        proof {
            if self.keys().contains(key@) {
                let k = self.keys().index_of(key@);
                assert(self.keys()[k] == key@);
            }
        }
        None
    }

    /// The number of entries, expired ones included.
    pub fn size(&self) -> (n: usize)
        requires
            self.well_formed(),
        ensures
            n == self@.len(),
            self@.dom().finite(),
    {
        self.count()
    }

    /// The number of slots, which is the number of entries.
    fn count(&self) -> (n: usize)
        requires
            self.well_formed(),
        ensures
            n == self.slots@.len(),
            n == self@.len(),
            self@.dom().finite(),
    {
        proof {
            self.keys().unique_seq_to_set();
            assert(self@.dom() =~= self.keys().to_set());
        }
        self.slots.len()
    }

    /// The view, slot by slot: every slot is found under its key, and every
    /// key of the view has its slot.
    proof fn lemma_slots(&self)
        requires
            self.well_formed(),
        ensures
            forall|i: int|
                0 <= i < self.slots@.len() ==> self@.contains_key(
                    (#[trigger] self.slots@[i]).key@,
                ) && self@[self.slots@[i].key@] == self.slots@[i].entry,
            forall|key: Seq<char>| #[trigger]
                self@.contains_key(key) ==> 0 <= self.keys().index_of(key) < self.slots@.len()
                    && self.slots@[self.keys().index_of(key)].key@ == key,
    {
        assert forall|i: int| 0 <= i < self.slots@.len() implies self@.contains_key(
            (#[trigger] self.slots@[i]).key@,
        ) && self@[self.slots@[i].key@] == self.slots@[i].entry by {
            self.lemma_slot(i);
        }
        assert forall|key: Seq<char>| #[trigger] self@.contains_key(key) implies 0
            <= self.keys().index_of(key) < self.slots@.len() && self.slots@[self.keys().index_of(
            key,
        )].key@ == key by {
            let k = self.keys().index_of(key);
            assert(self.keys()[k] == key);
        }
    }

    /// Puts an entry under a key, in place of the one that was there if
    /// there was one.
    fn install(&mut self, key: String, entry: CacheEntry<V>)
        requires
            old(self).well_formed(),
        ensures
            final(self).well_formed(),
            final(self).same_store_as(old(self)),
            final(self)@ == old(self)@.insert(key@, entry),
    {
        let found = self.position(&key);
        let ghost k = key@;
        let ghost place: int = match found {
            Some(index) => index as int,
            None => self.slots@.len() as int,
        };
        match found {
            Some(index) => {
                self.slots.set(index, Slot { key, entry });
                proof {
                    assert(self.keys() =~= old(self).keys());
                }
            },
            None => {
                self.slots.push(Slot { key, entry });
                proof {
                    assert(self.keys() =~= old(self).keys().push(k));
                    assert forall|i: int, j: int|
                        0 <= i < self.keys().len() && 0 <= j < self.keys().len() && i
                            != j implies self.keys()[i] != self.keys()[j] by {
                        if i < old(self).keys().len() {
                            assert(old(self).keys()[i] == self.keys()[i]);
                            assert(old(self).keys().contains(self.keys()[i]));
                        }
                        if j < old(self).keys().len() {
                            assert(old(self).keys()[j] == self.keys()[j]);
                            assert(old(self).keys().contains(self.keys()[j]));
                        }
                    }
                }
            },
        }
        proof {
            self.lemma_slots();
            old(self).lemma_slots();
            let after = self@;
            let wanted = old(self)@.insert(k, entry);
            assert forall|key: Seq<char>| after.contains_key(key) == wanted.contains_key(
                key,
            ) by {
                if after.contains_key(key) {
                    let i = self.keys().index_of(key);
                    if i < old(self).slots@.len() && key != k {
                        assert(old(self).slots@[i].key@ == key);
                    }
                }
                if wanted.contains_key(key) && key != k {
                    let i = old(self).keys().index_of(key);
                    assert(self.slots@[i].key@ == key);
                }
                if key == k {
                    assert(self.slots@[place].key@ == k);
                }
            }
            assert forall|key: Seq<char>| after.contains_key(key) implies after[key]
                == wanted[key] by {
                let i = self.keys().index_of(key);
                if key != k {
                    assert(old(self).slots@[i].key@ == key);
                    assert(old(self).slots@[i].entry == self.slots@[i].entry);
                } else {
                    self.lemma_slot(place);
                }
            }
            assert(after =~= wanted);
        }
    }

    /// Forgets the entry in one slot.
    fn evict(&mut self, index: usize)
        requires
            old(self).well_formed(),
            index < old(self).slots@.len(),
        ensures
            final(self).well_formed(),
            final(self).same_store_as(old(self)),
            final(self).slots@ == old(self).slots@.remove(index as int),
            final(self)@ == old(self)@.remove(old(self).slots@[index as int].key@),
    {
        let _ = self.slots.remove(index);
        proof {
            let gone = old(self).slots@[index as int].key@;
            assert(self.keys() =~= old(self).keys().remove(index as int));
            assert forall|i: int, j: int|
                0 <= i < self.keys().len() && 0 <= j < self.keys().len() && i
                    != j implies self.keys()[i] != self.keys()[j] by {
                let oi = if i < index { i } else { i + 1 };
                let oj = if j < index { j } else { j + 1 };
                assert(self.keys()[i] == old(self).keys()[oi]);
                assert(self.keys()[j] == old(self).keys()[oj]);
            }
            self.lemma_slots();
            old(self).lemma_slots();
            let after = self@;
            let wanted = old(self)@.remove(gone);
            assert forall|key: Seq<char>| after.contains_key(key) == wanted.contains_key(
                key,
            ) by {
                if after.contains_key(key) {
                    let i = self.keys().index_of(key);
                    let oi = if i < index { i } else { i + 1 };
                    assert(old(self).slots@[oi].key@ == key);
                    assert(old(self).keys()[oi] == key);
                    assert(old(self).keys()[index as int] == gone);
                }
                if wanted.contains_key(key) {
                    let oi = old(self).keys().index_of(key);
                    let i = if oi < index { oi } else { oi - 1 };
                    assert(self.slots@[i].key@ == key);
                }
            }
            assert forall|key: Seq<char>| after.contains_key(key) implies after[key]
                == wanted[key] by {
                let i = self.keys().index_of(key);
                let oi = if i < index { i } else { i + 1 };
                assert(old(self).slots@[oi].key@ == key);
                assert(old(self).slots@[oi].entry == self.slots@[i].entry);
            }
            assert(after =~= wanted);
        }
    }

    /// Drops every entry that is expired at `now`, and says how many went.
    /// By that number the size has gone down.
    pub fn cleanup_expired(&mut self, now: u64) -> (removed: usize)
        requires
            old(self).well_formed(),
        ensures
            final(self).well_formed(),
            final(self).same_store_as(old(self)),
            final(self)@ == live_entries(old(self)@, now),
            old(self)@.dom().finite(),
            final(self)@.dom().finite(),
            final(self)@.len() == old(self)@.len() - removed,
    {
        let ghost before = self@;
        let size_before: usize = self.count();
        let mut removed: usize = 0;
        let mut i: usize = 0;
        while i < self.slots.len()
            invariant
                self.well_formed(),
                self.same_store_as(old(self)),
                before == old(self)@,
                i <= self.slots@.len(),
                removed + self.slots@.len() == size_before,
                forall|k: int| 0 <= k < i ==> !(#[trigger] self.slots@[k]).entry.expired_at(now),
                forall|key: Seq<char>| #[trigger]
                    self@.contains_key(key) ==> before.contains_key(key) && before[key]
                        == self@[key],
                forall|key: Seq<char>|
                    before.contains_key(key) && !before[key].expired_at(now)
                        ==> #[trigger] self@.contains_key(key),
            decreases self.slots@.len() - i,
        {
            if self.slots[i].entry.is_expired(now) {
                proof {
                    self.lemma_slot(i as int);
                }
                self.evict(i);
                removed = removed + 1;
            } else {
                i = i + 1;
            }
        }
        proof {
            self.lemma_slots();
            assert forall|key: Seq<char>| self@.contains_key(key) implies !self@[key].expired_at(
                now,
            ) by {
                let k = self.keys().index_of(key);
                assert(self.slots@[k].key@ == key);
            }
            assert(self@ =~= live_entries(before, now));
        }
        let _ = self.count();
        removed
    }

    /// One round of the garbage collector: drops the expired entries and
    /// returns the size of the cache after the sweep.
    pub fn collect_garbage(&mut self, now: u64) -> (remaining: usize)
        requires
            old(self).well_formed(),
        ensures
            final(self).well_formed(),
            final(self).same_store_as(old(self)),
            final(self)@ == live_entries(old(self)@, now),
            remaining == final(self)@.len(),
    {
        let _ = self.cleanup_expired(now);
        self.size()
    }

    /// Hands out the records made since they were last taken, oldest first,
    /// for the caller to append to the backing store.
    pub fn take_records(&mut self) -> (lines: Vec<String>)
        requires
            old(self).well_formed(),
        ensures
            final(self).well_formed(),
            final(self)@ == old(self)@,
            final(self).ttl() == old(self).ttl(),
            final(self).path() == old(self).path(),
            final(self).records() == Seq::<Seq<char>>::empty(),
            lines@.map_values(|line: String| line@) == old(self).records(),
    {
        let mut lines: Vec<String> = Vec::new();
        std::mem::swap(&mut lines, &mut self.unwritten);
        assert(self.keys() == old(self).keys());
        assert(self@ =~= old(self)@);
        assert(self.records() =~= Seq::<Seq<char>>::empty());
        lines
    }
}

impl<V: Describe> ConcurrentCache<V> {
    /// Puts a value under a key, to live from `now` for the cache's time to
    /// live, and makes the record of it, stamped with the wall-clock second
    /// given.
    pub fn put(&mut self, key: String, value: V, now: u64, unix_seconds: u64)
        requires
            old(self).well_formed(),
        ensures
            final(self).well_formed(),
            final(self).ttl() == old(self).ttl(),
            final(self).path() == old(self).path(),
            final(self)@ == old(self)@.insert(
                key@,
                CacheEntry { value, expires_at: (now + old(self).ttl()) as u128 },
            ),
            final(self).records() == old(self).records().push(
                record_text(unix_seconds, debug_text(key@), value.description()),
            ),
    {
        let line = self.write_to_backing_store(&key, &value, unix_seconds);
        let entry = CacheEntry::new(value, now, self.default_ttl);
        self.install(key, entry);
        let ghost installed = self@;
        let ghost keys = self.keys();
        self.unwritten.push(line);
        proof {
            assert(self.keys() == keys);
            assert(self@ =~= installed);
            assert(self.records() =~= old(self).records().push(line@));
        }
    }

    /// Makes the record of one value put under one key.
    fn write_to_backing_store(&self, key: &String, value: &V, unix_seconds: u64) -> (line: String)
        ensures
            line@ == record_text(unix_seconds, debug_text(key@), value.description()),
    {
        let key_text = key.describe();
        let value_text = value.describe();
        format_record(unix_seconds, key_text.as_str(), value_text.as_str())
    }
}

impl<V: Clone> ConcurrentCache<V> {
    /// The fast path of a read: a copy of the value under `key`, if there is
    /// one and it is good at `now`.
    pub fn lookup(&self, key: &String, now: u64) -> (hit: Option<V>)
        requires
            self.well_formed(),
        ensures
            match hit {
                Some(value) => self.is_live(key@, now) && cloned(self@[key@].value, value),
                None => !self.is_live(key@, now),
            },
    {
        match self.position(key) {
            Some(index) => {
                proof {
                    self.lemma_slot(index as int);
                }
                if self.slots[index].entry.is_expired(now) {
                    None
                } else {
                    Some(self.slots[index].entry.value.clone())
                }
            },
            None => None,
        }
    }
}

/// What a read that found no good entry leaves behind, given how the
/// recomputation ended. A failure is passed on and changes nothing. A value
/// is returned, and a copy of it is put under the key, with its record.
pub open spec fn recomputed<V: Clone + Describe>(
    before: &ConcurrentCache<V>,
    after: &ConcurrentCache<V>,
    key: Seq<char>,
    now: u64,
    unix_seconds: u64,
    outcome: Result<V, String>,
    result: Result<V, String>,
) -> bool {
    match outcome {
        Err(failure) => {
            &&& result == Err::<V, String>(failure)
            &&& after@ == before@
            &&& after.records() == before.records()
        },
        Ok(value) => {
            &&& result == Ok::<V, String>(value)
            &&& after@.contains_key(key)
            &&& cloned(value, after@[key].value)
            &&& after@ == before@.insert(
                key,
                CacheEntry { value: after@[key].value, expires_at: (now + before.ttl()) as u128 },
            )
            &&& after.records() == before.records().push(
                record_text(unix_seconds, debug_text(key), after@[key].value.description()),
            )
        },
    }
}

impl<V: Clone + Describe> ConcurrentCache<V> {
    /// Reads the value under `key`. If the cache holds an entry that is good
    /// at `now`, a copy of its value is returned, nothing changes, and
    /// `recompute_fn` is not called: it need not even be callable. Otherwise
    /// `recompute_fn` is called once; its failure is passed on unchanged and
    /// nothing is cached, its value is put into the cache and returned.
    pub fn get<F: FnOnce() -> Result<V, String>>(
        &mut self,
        key: &String,
        now: u64,
        unix_seconds: u64,
        recompute_fn: F,
    ) -> (result: Result<V, String>)
        requires
            old(self).well_formed(),
            old(self).is_live(key@, now) || call_requires(recompute_fn, ()),
        ensures
            final(self).well_formed(),
            final(self).ttl() == old(self).ttl(),
            final(self).path() == old(self).path(),
            old(self).is_live(key@, now) ==> {
                &&& result matches Ok(value) && cloned(old(self)@[key@].value, value)
                &&& final(self)@ == old(self)@
                &&& final(self).records() == old(self).records()
            },
            !old(self).is_live(key@, now) ==> exists|outcome: Result<V, String>|
                {
                    &&& #[trigger] call_ensures(recompute_fn, (), outcome)
                    &&& recomputed(old(self), final(self), key@, now, unix_seconds, outcome, result)
                },
    {
        match self.lookup(key, now) {
            Some(value) => {
                return Ok(value);
            },
            None => {},
        }
        // Where readers compete, the caller holds the key's own lock from
        // here on, and looks a second time: another reader may have filled
        // the entry while this one waited.
        match self.lookup(key, now) {
            Some(value) => {
                return Ok(value);
            },
            None => {},
        }
        let outcome = recompute_fn();
        match outcome {
            Err(failure) => {
                let result = Err(failure);
                assert(recomputed(old(self), self, key@, now, unix_seconds, outcome, result));
                result
            },
            Ok(value) => {
                let stored = value.clone();
                self.put(key.clone(), stored, now, unix_seconds);
                let result = Ok(value);
                proof {
                    assert(self@[key@].value == stored);
                    assert(recomputed(old(self), self, key@, now, unix_seconds, outcome, result));
                }
                result
            },
        }
    }
}

/// What has been put can be read back: up to the end of its time to live the
/// entry put under a key is there, is good, and holds the value that was put;
/// a read then returns a copy of it and recomputes nothing. After that time
/// the entry is expired.
pub proof fn law_put_then_read<V>(
    before: Map<Seq<char>, CacheEntry<V>>,
    key: Seq<char>,
    value: V,
    now: u64,
    ttl: u64,
    later: u64,
)
    ensures
        ({
            let after = before.insert(key, CacheEntry { value, expires_at: (now + ttl) as u128 });
            &&& after.contains_key(key)
            &&& after[key].value == value
            &&& later <= now + ttl ==> !after[key].expired_at(later)
            &&& later > now + ttl ==> after[key].expired_at(later)
        }),
{
}

/// Putting the same value twice under one key leaves the entries as one put
/// would, with the deadline of the second put; each of the two puts has made
/// its record.
pub proof fn law_put_twice<V>(
    before: Map<Seq<char>, CacheEntry<V>>,
    records: Seq<Seq<char>>,
    key: Seq<char>,
    value: V,
    first: u64,
    second: u64,
    ttl: u64,
    first_record: Seq<char>,
    second_record: Seq<char>,
)
    ensures
        before.insert(key, CacheEntry { value, expires_at: (first + ttl) as u128 }).insert(
            key,
            CacheEntry { value, expires_at: (second + ttl) as u128 },
        ) == before.insert(key, CacheEntry { value, expires_at: (second + ttl) as u128 }),
        records.push(first_record).push(second_record).len() == records.len() + 2,
        records.push(first_record).push(second_record).subrange(0, records.len() as int)
            == records,
{
    assert(before.insert(key, CacheEntry { value, expires_at: (first + ttl) as u128 }).insert(
        key,
        CacheEntry { value, expires_at: (second + ttl) as u128 },
    ) =~= before.insert(key, CacheEntry { value, expires_at: (second + ttl) as u128 }));
    assert(records.push(first_record).push(second_record).subrange(0, records.len() as int)
        =~= records);
}

/// A sweep keeps exactly the entries that are still good, each as it was,
/// and any entry that a read finds after a sweep at the same time was found
/// good by the sweep.
pub proof fn law_sweep_keeps_live<V>(entries: Map<Seq<char>, CacheEntry<V>>, now: u64)
    ensures
        forall|key: Seq<char>|
            entries.contains_key(key) && !entries[key].expired_at(now) ==> #[trigger] live_entries(
                entries,
                now,
            ).contains_key(key) && live_entries(entries, now)[key] == entries[key],
        forall|key: Seq<char>| #[trigger]
            live_entries(entries, now).contains_key(key) ==> entries.contains_key(key)
                && !entries[key].expired_at(now),
        live_entries(live_entries(entries, now), now) == live_entries(entries, now),
{
    assert(live_entries(live_entries(entries, now), now) =~= live_entries(entries, now));
}

} // verus!

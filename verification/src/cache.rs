//! In-memory key/value cache whose entries expire after a fixed time to
//! live.
//!
//! Expiry is lazy: an expired entry stays in the cache, where
//! [`Cache::get`] no longer sees it and [`Cache::get_stale`] still does,
//! until [`Cache::cleanup`] or [`Cache::clear`] removes it.
//!
//! Time is a count of milliseconds. The methods whose name ends in `_at` take
//! the present time as an argument; the others read the cache's own clock.

use crate::clock::Clock;
use vstd::prelude::*;

verus! {

/// What a cache holds under one key, as contracts see it.
pub struct Slot<T> {
    /// The cached value.
    pub value: T,
    /// The first millisecond at which the entry is expired.
    pub expires_at: int,
}

/// Whether `m` holds an entry under `key` that is not expired at `now`.
pub open spec fn spec_fresh<T>(m: Map<Seq<char>, Slot<T>>, key: Seq<char>, now: u64) -> bool {
    m.contains_key(key) && now < m[key].expires_at
}

/// The value that a read at `now` sees under `key`.
pub open spec fn spec_get<T>(m: Map<Seq<char>, Slot<T>>, key: Seq<char>, now: u64) -> Option<T> {
    if spec_fresh(m, key, now) {
        Some(m[key].value)
    } else {
        None
    }
}

/// The value held under `key`, expired or not.
pub open spec fn spec_get_stale<T>(m: Map<Seq<char>, Slot<T>>, key: Seq<char>) -> Option<T> {
    if m.contains_key(key) {
        Some(m[key].value)
    } else {
        None
    }
}

/// The cache after `value` is stored under `key` at `now` with a time to
/// live of `ttl_ms`.
pub open spec fn spec_insert<T>(
    m: Map<Seq<char>, Slot<T>>,
    key: Seq<char>,
    value: T,
    now: u64,
    ttl_ms: int,
) -> Map<Seq<char>, Slot<T>> {
    m.insert(key, Slot { value, expires_at: now + ttl_ms })
}

/// The cache after the entries that are expired at `now` are removed.
pub open spec fn spec_cleanup<T>(m: Map<Seq<char>, Slot<T>>, now: u64) -> Map<
    Seq<char>,
    Slot<T>,
> {
    Map::new(|key: Seq<char>| spec_fresh(m, key, now), |key: Seq<char>| m[key])
}

/// Whether `got` is what a read hands out when the cache holds `stored`: a
/// clone of the stored value, or nothing where nothing is stored.
pub open spec fn spec_handed_out<T: Clone>(stored: Option<T>, got: Option<T>) -> bool {
    match (stored, got) {
        (Some(s), Some(g)) => cloned(s, g),
        (None, None) => true,
        _ => false,
    }
}

struct CacheEntry<T> {
    key: String,
    value: T,
    stored_at: u64,
}

impl<T> CacheEntry<T> {
    spec fn slot(self, ttl_ms: int) -> Slot<T> {
        Slot { value: self.value, expires_at: self.stored_at + ttl_ms }
    }
}

spec fn entry_keys<T>(entries: Seq<CacheEntry<T>>) -> Seq<Seq<char>> {
    entries.map_values(|e: CacheEntry<T>| e.key@)
}

spec fn entries_model<T>(entries: Seq<CacheEntry<T>>, ttl_ms: int) -> Map<Seq<char>, Slot<T>> {
    Map::new(
        |key: Seq<char>| entry_keys(entries).contains(key),
        |key: Seq<char>| entries[entry_keys(entries).index_of(key)].slot(ttl_ms),
    )
}

proof fn lemma_model_at<T>(entries: Seq<CacheEntry<T>>, ttl_ms: int, i: int)
    requires
        entry_keys(entries).no_duplicates(),
        0 <= i < entries.len(),
    ensures
        entries_model(entries, ttl_ms).contains_key(entries[i].key@),
        entries_model(entries, ttl_ms)[entries[i].key@] == entries[i].slot(ttl_ms),
{
    let keys = entry_keys(entries);
    assert(keys[i] == entries[i].key@);
    assert(keys.contains(entries[i].key@));
    let j = keys.index_of(entries[i].key@);
    assert(keys[j] == keys[i]);
}

proof fn lemma_model_absent<T>(entries: Seq<CacheEntry<T>>, ttl_ms: int, key: Seq<char>)
    requires
        forall|j: int| 0 <= j < entries.len() ==> entries[j].key@ != key,
    ensures
        !entries_model(entries, ttl_ms).contains_key(key),
{
    let keys = entry_keys(entries);
    if keys.contains(key) {
        let j = choose|j: int| 0 <= j < keys.len() && keys[j] == key;
        assert(entries[j].key@ == key);
    }
}

proof fn lemma_model_size<T>(entries: Seq<CacheEntry<T>>, ttl_ms: int)
    requires
        entry_keys(entries).no_duplicates(),
    ensures
        entries_model(entries, ttl_ms).dom().finite(),
        entries_model(entries, ttl_ms).dom().len() == entries.len(),
{
    let keys = entry_keys(entries);
    keys.unique_seq_to_set();
    vstd::seq_lib::seq_to_set_is_finite(keys);
    assert(entries_model(entries, ttl_ms).dom() =~= keys.to_set());
}

fn fresh_at(stored_at: u64, ttl_seconds: u64, now: u64) -> (fresh: bool)
    ensures
        fresh == (now < stored_at + ttl_seconds * 1000),
{
    let expires_at: u128 = stored_at as u128 + ttl_seconds as u128 * 1000;
    (now as u128) < expires_at
}

/// In-memory cache from text keys to values of `T`, each kept fresh for the
/// cache's time to live.
///
/// The entries stand in a vector, no two of them under the same key, and
/// are found by comparing keys.
pub struct Cache<T> {
    entries: Vec<CacheEntry<T>>,
    ttl_seconds: u64,
    clock: Clock,
}

impl<T> View for Cache<T> {
    type V = Map<Seq<char>, Slot<T>>;

    /// The entries by key, expired ones included.
    closed spec fn view(&self) -> Map<Seq<char>, Slot<T>> {
        entries_model(self.entries@, self.ttl_ms())
    }
}

impl<T> Cache<T> {
    /// The time to live of an entry, in milliseconds.
    pub closed spec fn ttl_ms(&self) -> int {
        self.ttl_seconds * 1000
    }

    #[verifier::type_invariant]
    spec fn keys_are_distinct(&self) -> bool {
        entry_keys(self.entries@).no_duplicates()
    }

    /// Creates an empty cache whose entries live for `ttl_seconds` seconds.
    pub fn new(ttl_seconds: u64) -> (cache: Cache<T>)
        ensures
            cache@ == Map::<Seq<char>, Slot<T>>::empty(),
            cache.ttl_ms() == ttl_seconds * 1000,
    {
        let cache = Cache { entries: Vec::new(), ttl_seconds, clock: Clock::start() };
        assert(cache@ =~= Map::<Seq<char>, Slot<T>>::empty());
        cache
    }

    /// The present time on the cache's clock, in milliseconds.
    pub fn now_ms(&self) -> (now: u64) {
        self.clock.now_ms()
    }

    fn position(&self, key: &str) -> (found: Option<usize>)
        ensures
            match found {
                Some(i) => i < self.entries@.len() && self.entries@[i as int].key@ == key@,
                None => forall|j: int| 0 <= j < self.entries@.len() ==> self.entries@[j].key@ != key@,
            },
    {
        let mut i: usize = 0;
        while i < self.entries.len()
            invariant
                i <= self.entries@.len(),
                forall|j: int| 0 <= j < i ==> self.entries@[j].key@ != key@,
            decreases self.entries@.len() - i,
        {
            if self.entries[i].key.as_str().eq(key) {
                return Some(i);
            }
            i += 1;
        }
        None
    }

    fn is_fresh(&self, i: usize, now: u64) -> (fresh: bool)
        requires
            i < self.entries@.len(),
        ensures
            fresh == (now < self.entries@[i as int].slot(self.ttl_ms()).expires_at),
    {
        fresh_at(self.entries[i].stored_at, self.ttl_seconds, now)
    }

    /// Stores `value` under `key` at time `now`, in place of whatever was
    /// there: the entry expires `ttl_ms()` milliseconds after `now`.
    pub fn insert_at(&mut self, key: String, value: T, now: u64)
        ensures
            final(self)@ == spec_insert(old(self)@, key@, value, now, old(self).ttl_ms()),
            final(self).ttl_ms() == old(self).ttl_ms(),
    {
        proof {
            use_type_invariant(&*self);
        }
        let ghost before = self.entries@;
        let ghost ttl_ms = self.ttl_ms();
        let ghost wanted = spec_insert(self@, key@, value, now, ttl_ms);
        let found = self.position(key.as_str());
        let entry = CacheEntry { key, value, stored_at: now };
        let mut entries: Vec<CacheEntry<T>> = Vec::new();
        std::mem::swap(&mut self.entries, &mut entries);
        match found {
            Some(i) => {
                proof {
                    lemma_model_at(before, ttl_ms, i as int);
                }
                entries[i] = entry;
                assert(entry_keys(entries@) =~= entry_keys(before));
            },
            None => {
                proof {
                    lemma_model_absent(before, ttl_ms, entry.key@);
                }
                entries.push(entry);
                assert(entry_keys(entries@) =~= entry_keys(before).push(entry.key@));
            },
        }
        self.entries = entries;
        proof {
            let after = self.entries@;
            assert(entry_keys(after).no_duplicates());
            assert forall|k: Seq<char>| #[trigger]
                entries_model(after, ttl_ms).contains_key(k) implies wanted.contains_key(k)
                && entries_model(after, ttl_ms)[k] == wanted[k] by {
                let keys = entry_keys(after);
                let j = keys.index_of(k);
                assert(keys[j] == k);
                let at = if found is Some {
                    found->0 as int
                } else {
                    before.len() as int
                };
                assert(keys[at] == entry.key@);
                if k != entry.key@ {
                    assert(j != at);
                    assert(after[j] == before[j]);
                    lemma_model_at(before, ttl_ms, j);
                } else {
                    assert(j == at);
                }
            }
            assert forall|k: Seq<char>| wanted.contains_key(k) implies #[trigger] entries_model(
                after,
                ttl_ms,
            ).contains_key(k) by {
                if k == entry.key@ {
                    let i = if found is Some {
                        found->0 as int
                    } else {
                        before.len() as int
                    };
                    assert(entry_keys(after)[i] == k);
                } else {
                    let j = entry_keys(before).index_of(k);
                    assert(entry_keys(after)[j] == k);
                }
            }
            assert(entries_model(after, ttl_ms) =~= wanted);
        }
    }

    /// Stores `value` under `key` at the present time of the cache's clock,
    /// in place of whatever was there. Whatever the clock says, the new
    /// entry holds `value`, and the other entries stay as they were.
    pub fn insert(&mut self, key: String, value: T)
        ensures
            exists|now: u64| final(self)@ == #[trigger] spec_insert(
                old(self)@,
                key@,
                value,
                now,
                old(self).ttl_ms(),
            ),
            final(self).ttl_ms() == old(self).ttl_ms(),
    {
        let now = self.now_ms();
        self.insert_at(key, value, now);
        assert(self@ == spec_insert(old(self)@, key@, value, now, old(self).ttl_ms()));
    }

    /// Removes the entries that are expired at `now`. Housekeeping only:
    /// no read depends on it.
    pub fn cleanup_at(&mut self, now: u64)
        ensures
            final(self)@ == spec_cleanup(old(self)@, now),
            final(self).ttl_ms() == old(self).ttl_ms(),
    {
        proof {
            use_type_invariant(&*self);
        }
        let ghost before = self.entries@;
        let ghost ttl_ms = self.ttl_ms();
        let ttl_seconds = self.ttl_seconds;
        let mut entries: Vec<CacheEntry<T>> = Vec::new();
        std::mem::swap(&mut self.entries, &mut entries);
        let mut kept: Vec<CacheEntry<T>> = Vec::new();
        let ghost mut origin: Seq<int> = Seq::empty();
        while entries.len() > 0
            invariant
                ttl_ms == ttl_seconds * 1000,
                entries@.len() <= before.len(),
                entries@ == before.subrange(0, entries@.len() as int),
                kept@.len() == origin.len(),
                forall|j: int|
                    0 <= j < kept@.len() ==> entries@.len() <= #[trigger] origin[j] < before.len()
                        && kept@[j] == before[origin[j]] && now < before[origin[j]].slot(
                        ttl_ms,
                    ).expires_at,
                forall|j1: int, j2: int|
                    0 <= j1 < j2 < origin.len() ==> #[trigger] origin[j1] > #[trigger] origin[j2],
                forall|i: int|
                    entries@.len() <= i < before.len() && now < (#[trigger] before[i]).slot(
                        ttl_ms,
                    ).expires_at ==> origin.contains(i),
            decreases entries@.len(),
        {
            let ghost at = entries@.len() - 1;
            let ghost earlier = origin;
            let entry = entries.pop().unwrap();
            assert(entry == before[at]);
            if fresh_at(entry.stored_at, ttl_seconds, now) {
                kept.push(entry);
                proof {
                    origin = origin.push(at);
                    assert forall|i: int|
                        entries@.len() <= i < before.len() && now < (#[trigger] before[i]).slot(
                            ttl_ms,
                        ).expires_at implies origin.contains(i) by {
                        if i == at {
                            assert(origin[earlier.len() as int] == at);
                        } else {
                            let j = earlier.index_of(i);
                            assert(earlier.contains(i));
                            assert(origin[j] == i);
                        }
                    }
                }
            }
        }
        proof {
            assert forall|j1: int, j2: int| 0 <= j1 < j2 < kept@.len() implies entry_keys(
                kept@,
            )[j1] != entry_keys(kept@)[j2] by {
                assert(origin[j1] > origin[j2]);
                assert(entry_keys(before)[origin[j1]] != entry_keys(before)[origin[j2]]);
            }
        }
        self.entries = kept;
        proof {
            let after = self.entries@;
            let wanted = spec_cleanup(entries_model(before, ttl_ms), now);
            assert forall|k: Seq<char>| #[trigger]
                entries_model(after, ttl_ms).contains_key(k) implies wanted.contains_key(k)
                && entries_model(after, ttl_ms)[k] == wanted[k] by {
                let j = entry_keys(after).index_of(k);
                assert(entry_keys(after)[j] == k);
                assert(after[j] == before[origin[j]]);
                lemma_model_at(before, ttl_ms, origin[j]);
            }
            assert forall|k: Seq<char>| wanted.contains_key(k) implies #[trigger] entries_model(
                after,
                ttl_ms,
            ).contains_key(k) by {
                let i = entry_keys(before).index_of(k);
                assert(entry_keys(before)[i] == k);
                lemma_model_at(before, ttl_ms, i);
                assert(origin.contains(i));
                let j = origin.index_of(i);
                assert(after[j] == before[origin[j]]);
                assert(entry_keys(after)[j] == k);
            }
            assert(entries_model(after, ttl_ms) =~= wanted);
        }
    }

    /// Removes the entries that are expired at the present time of the
    /// cache's clock. Whatever the clock says, no entry is added or changed.
    pub fn cleanup(&mut self)
        ensures
            exists|now: u64| final(self)@ == #[trigger] spec_cleanup(old(self)@, now),
            final(self).ttl_ms() == old(self).ttl_ms(),
    {
        let now = self.now_ms();
        self.cleanup_at(now);
        assert(self@ == spec_cleanup(old(self)@, now));
    }

    /// Removes every entry.
    pub fn clear(&mut self)
        ensures
            final(self)@ == Map::<Seq<char>, Slot<T>>::empty(),
            final(self).ttl_ms() == old(self).ttl_ms(),
    {
        self.entries = Vec::new();
        assert(self@ =~= Map::<Seq<char>, Slot<T>>::empty());
    }

    /// The number of entries, expired ones included.
    pub fn len(&self) -> (n: usize)
        ensures
            self@.dom().finite(),
            n == self@.dom().len(),
    {
        proof {
            use_type_invariant(self);
            lemma_model_size(self.entries@, self.ttl_ms());
        }
        self.entries.len()
    }

    /// Whether the cache holds no entry at all.
    pub fn is_empty(&self) -> (empty: bool)
        ensures
            empty == (self@ == Map::<Seq<char>, Slot<T>>::empty()),
    {
        proof {
            use_type_invariant(self);
            lemma_model_size(self.entries@, self.ttl_ms());
            if self.entries@.len() == 0 {
                assert(self@ =~= Map::<Seq<char>, Slot<T>>::empty());
            }
        }
        self.entries.len() == 0
    }
}

impl<T: Clone> Cache<T> {
    /// Reads the value under `key` at time `now`: a clone of the value if an
    /// entry is there and `now` is before its expiry, else `None`. The cache
    /// is left as it is.
    pub fn get_at(&self, key: &str, now: u64) -> (got: Option<T>)
        ensures
            spec_handed_out(spec_get(self@, key@, now), got),
    {
        proof {
            use_type_invariant(self);
        }
        match self.position(key) {
            Some(i) => {
                proof {
                    lemma_model_at(self.entries@, self.ttl_ms(), i as int);
                }
                if self.is_fresh(i, now) {
                    Some(self.entries[i].value.clone())
                } else {
                    None
                }
            },
            None => {
                proof {
                    lemma_model_absent(self.entries@, self.ttl_ms(), key@);
                }
                None
            },
        }
    }

    /// Reads the value under `key` at the present time of the cache's clock.
    /// Whatever the clock says, a value that comes back is a clone of the one
    /// stored under `key`, and a key that is not in the cache gives `None`.
    pub fn get(&self, key: &str) -> (got: Option<T>)
        ensures
            exists|now: u64| spec_handed_out(#[trigger] spec_get(self@, key@, now), got),
            got is Some ==> spec_handed_out(spec_get_stale(self@, key@), got),
    {
        let now = self.now_ms();
        let got = self.get_at(key, now);
        assert(spec_handed_out(spec_get(self@, key@, now), got));
        got
    }

    /// Reads the value under `key` whether it is expired or not: a clone of
    /// the value if an entry is there, else `None`.
    pub fn get_stale(&self, key: &str) -> (got: Option<T>)
        ensures
            spec_handed_out(spec_get_stale(self@, key@), got),
    {
        proof {
            use_type_invariant(self);
        }
        match self.position(key) {
            Some(i) => {
                proof {
                    lemma_model_at(self.entries@, self.ttl_ms(), i as int);
                }
                Some(self.entries[i].value.clone())
            },
            None => {
                proof {
                    lemma_model_absent(self.entries@, self.ttl_ms(), key@);
                }
                None
            },
        }
    }
}

/// A value stored at `stored_at` with a time to live of `ttl_ms` is read at
/// every time before `stored_at + ttl_ms` and at no time from then on, while
/// a stale read hands it out at any time.
pub proof fn law_ttl<T>(
    m: Map<Seq<char>, Slot<T>>,
    key: Seq<char>,
    value: T,
    stored_at: u64,
    ttl_ms: int,
    now: u64,
)
    ensures
        now < stored_at + ttl_ms ==> spec_get(spec_insert(m, key, value, stored_at, ttl_ms), key, now)
            == Some(value),
        now >= stored_at + ttl_ms ==> spec_get(
            spec_insert(m, key, value, stored_at, ttl_ms),
            key,
            now,
        ) is None,
        spec_get_stale(spec_insert(m, key, value, stored_at, ttl_ms), key) == Some(value),
{
}

/// An expired entry stays available to stale reads until a cleanup at or
/// after its expiry removes it; a cleanup before its expiry keeps it.
pub proof fn law_stale_until_cleanup<T>(
    m: Map<Seq<char>, Slot<T>>,
    key: Seq<char>,
    value: T,
    stored_at: u64,
    ttl_ms: int,
    cleaned_at: u64,
)
    ensures
        spec_get_stale(
            spec_cleanup(spec_insert(m, key, value, stored_at, ttl_ms), cleaned_at),
            key,
        ) == if cleaned_at < stored_at + ttl_ms {
            Some(value)
        } else {
            None
        },
{
}

/// Storing a value under one key changes no read of another key.
pub proof fn law_insert_keeps_other_keys<T>(
    m: Map<Seq<char>, Slot<T>>,
    key: Seq<char>,
    value: T,
    stored_at: u64,
    ttl_ms: int,
    other: Seq<char>,
    now: u64,
)
    requires
        other != key,
    ensures
        spec_get(spec_insert(m, key, value, stored_at, ttl_ms), other, now) == spec_get(
            m,
            other,
            now,
        ),
        spec_get_stale(spec_insert(m, key, value, stored_at, ttl_ms), other) == spec_get_stale(
            m,
            other,
        ),
{
}

/// A cleanup is housekeeping: every read at or after the time of the cleanup
/// sees what it would have seen without it.
pub proof fn law_cleanup_keeps_reads<T>(
    m: Map<Seq<char>, Slot<T>>,
    cleaned_at: u64,
    key: Seq<char>,
    now: u64,
)
    requires
        cleaned_at <= now,
    ensures
        spec_get(spec_cleanup(m, cleaned_at), key, now) == spec_get(m, key, now),
{
}

} // verus!

//! A cache of encoded values.

use crate::ranking;
use vstd::prelude::*;

verus! {

/// One cached encoding.
#[derive(Debug)]
struct CacheEntry {
    hash: u64,
    encoded: Vec<u8>,
    access_count: u32,
}

/// What one entry of a cache holds.
pub struct CachedEncoding {
    /// Hash of the original value.
    pub hash: u64,
    /// The encoded octets.
    pub encoded: Seq<u8>,
    /// How often the entry was stored or asked for.
    pub access_count: u32,
}

impl View for CacheEntry {
    type V = CachedEncoding;

    closed spec fn view(&self) -> CachedEncoding {
        CachedEncoding {
            hash: self.hash,
            encoded: self.encoded@,
            access_count: self.access_count,
        }
    }
}

/// Encoding cache for frequently used values.
#[derive(Debug)]
pub struct EncodingCache {
    cache: Vec<CacheEntry>,
    max_size: usize,
    /// Cache hit statistics
    pub hits: u64,
    /// Cache miss statistics
    pub misses: u64,
}

/// The entries with the access count of each as its key.
pub open spec fn keyed(entries: Seq<CachedEncoding>) -> Seq<(int, CachedEncoding)> {
    Seq::new(entries.len(), |i: int| (entries[i].access_count as int, entries[i]))
}

/// The entries of a keyed sequence.
pub open spec fn unkeyed(items: Seq<(int, CachedEncoding)>) -> Seq<CachedEncoding> {
    Seq::new(items.len(), |i: int| items[i].1)
}

/// The entries by rising access count; entries asked for equally often keep their
/// order.
pub open spec fn by_access(entries: Seq<CachedEncoding>) -> Seq<CachedEncoding> {
    unkeyed(ranking::ranked(keyed(entries)))
}

/// Whether an entry for `hash` is there.
pub open spec fn holds(entries: Seq<CachedEncoding>, hash: u64) -> bool {
    exists|i: int| 0 <= i < entries.len() && #[trigger] entries[i].hash == hash
}

/// Whether no two entries are for one hash.
pub open spec fn distinct(entries: Seq<CachedEncoding>) -> bool {
    forall|i: int, j: int|
        0 <= i < j < entries.len() ==> #[trigger] entries[i].hash != #[trigger] entries[j].hash
}

/// What storing an encoding makes of the entries: nothing where the hash is
/// there; otherwise it comes last, after the entry asked for least often was
/// dropped where the cache is full.
pub open spec fn stored(
    entries: Seq<CachedEncoding>,
    limit: usize,
    hash: u64,
    encoded: Seq<u8>,
) -> Seq<CachedEncoding> {
    let added = CachedEncoding { hash, encoded, access_count: 1 };
    if holds(entries, hash) {
        entries
    } else if entries.len() >= limit {
        by_access(entries).drop_first().push(added)
    } else {
        entries.push(added)
    }
}

impl EncodingCache {
    /// What is cached.
    pub closed spec fn entries(&self) -> Seq<CachedEncoding> {
        Seq::new(self.cache@.len(), |i: int| self.cache@[i]@)
    }

    /// How many entries are kept at most.
    pub closed spec fn limit(&self) -> usize {
        self.max_size
    }

    /// How often an encoding was asked for and was there.
    pub closed spec fn hit_count(&self) -> u64 {
        self.hits
    }

    /// How often an encoding was asked for and was not there.
    pub closed spec fn miss_count(&self) -> u64 {
        self.misses
    }

    /// Whether no two entries are for one hash.
    pub open spec fn wf(&self) -> bool {
        distinct(self.entries())
    }

    /// Create a new encoding cache.
    pub fn new(max_size: usize) -> (cache: EncodingCache)
        ensures
            cache.wf(),
            cache.entries() == Seq::<CachedEncoding>::empty(),
            cache.limit() == max_size,
            cache.hit_count() == 0,
            cache.miss_count() == 0,
    {
        let cache = EncodingCache { cache: Vec::new(), max_size, hits: 0, misses: 0 };
        assert(cache.entries() =~= Seq::<CachedEncoding>::empty());
        cache
    }

    /// Where the entry for `hash` stands.
    fn position_of(&self, hash: u64) -> (position: Option<usize>)
        ensures
            match position {
                Some(i) => i < self.entries().len() && self.entries()[i as int].hash == hash,
                None => !holds(self.entries(), hash),
            },
            self.entries().len() == self.cache@.len(),
    {
        let mut i: usize = 0;
        while i < self.cache.len()
            invariant
                i <= self.cache@.len(),
                forall|k: int| 0 <= k < i ==> #[trigger] self.entries()[k].hash != hash,
            decreases self.cache@.len() - i,
        {
            if self.cache[i].hash == hash {
                assert(self.entries()[i as int].hash == hash);
                return Some(i);
            }
            i = i + 1;
        }
        None
    }

    /// Get cached encoding if available.
    pub fn get(&mut self, hash: u64) -> (encoded: Option<Vec<u8>>)
        requires
            old(self).wf(),
            holds(old(self).entries(), hash) ==> old(self).hit_count() < u64::MAX,
            !holds(old(self).entries(), hash) ==> old(self).miss_count() < u64::MAX,
            forall|i: int|
                0 <= i < old(self).entries().len() && #[trigger] old(self).entries()[i].hash == hash
                    ==> old(self).entries()[i].access_count < u32::MAX,
        ensures
            final(self).wf(),
            final(self).limit() == old(self).limit(),
            match encoded {
                Some(found) => {
                    &&& final(self).hit_count() == old(self).hit_count() + 1
                    &&& final(self).miss_count() == old(self).miss_count()
                    &&& final(self).entries().len() == old(self).entries().len()
                    &&& exists|i: int|
                        {
                            &&& 0 <= i < old(self).entries().len()
                            &&& #[trigger] old(self).entries()[i].hash == hash
                            &&& old(self).entries()[i].encoded == found@
                            &&& final(self).entries() == old(self).entries().update(
                                i,
                                CachedEncoding {
                                    access_count: (old(self).entries()[i].access_count + 1) as u32,
                                    ..old(self).entries()[i]
                                },
                            )
                        }
                },
                None => {
                    &&& !holds(old(self).entries(), hash)
                    &&& final(self).hit_count() == old(self).hit_count()
                    &&& final(self).miss_count() == old(self).miss_count() + 1
                    &&& final(self).entries() == old(self).entries()
                },
            },
    {
        match self.position_of(hash) {
            Some(i) => {
                let ghost before = self.entries();
                assert(before[i as int].access_count == self.cache@[i as int].access_count);
                let encoded = self.cache[i].encoded.clone();
                assert(encoded@ =~= before[i as int].encoded);
                self.cache[i].access_count = self.cache[i].access_count + 1;
                self.hits = self.hits + 1;
                assert(self.entries() =~= before.update(
                    i as int,
                    CachedEncoding {
                        access_count: (before[i as int].access_count + 1) as u32,
                        ..before[i as int]
                    },
                ));
                Some(encoded)
            },
            None => {
                self.misses = self.misses + 1;
                assert(self.entries() =~= old(self).entries());
                None
            },
        }
    }

    /// Put the entries in order of rising access count.
    fn sort_by_access(&mut self)
        ensures
            final(self).entries() == by_access(old(self).entries()),
            final(self).max_size == old(self).max_size,
            final(self).hit_count() == old(self).hit_count(),
            final(self).miss_count() == old(self).miss_count(),
    {
        let ghost all = self.entries();
        let ghost items = keyed(all);
        let mut sorted: Vec<CacheEntry> = Vec::new();
        let mut taken: Ghost<int> = Ghost(0);
        proof {
            assert(items.take(0) =~= Seq::empty());
            assert(keyed(Seq::new(sorted@.len(), |k: int| sorted@[k]@)) =~= ranking::ranked(
                items.take(0),
            ));
        }
        while self.cache.len() > 0
            invariant
                0 <= taken@,
                taken@ + self.cache@.len() == all.len(),
                items == keyed(all),
                forall|k: int|
                    0 <= k < self.cache@.len() ==> #[trigger] self.cache@[k]@ == all[taken@ + k],
                keyed(Seq::new(sorted@.len(), |k: int| sorted@[k]@)) == ranking::ranked(
                    items.take(taken@),
                ),
                self.max_size == old(self).max_size,
                self.hit_count() == old(self).hit_count(),
                self.miss_count() == old(self).miss_count(),
            decreases self.cache@.len(),
        {
            let ghost rest = self.cache@;
            let entry = self.cache.remove(0);
            let ghost placed = keyed(Seq::new(sorted@.len(), |k: int| sorted@[k]@));
            proof {
                assert(rest[0]@ == all[taken@ + 0]);
                assert(rest[0] == entry);
                ranking::lemma_ranked_is_ranked(items.take(taken@));
            }
            let mut at: usize = sorted.len();
            while at > 0 && sorted[at - 1].access_count > entry.access_count
                invariant
                    at <= sorted@.len(),
                    placed == keyed(Seq::new(sorted@.len(), |k: int| sorted@[k]@)),
                    forall|k: int|
                        at <= k < sorted@.len() ==> #[trigger] placed[k].0 > entry.access_count,
                decreases at,
            {
                at = at - 1;
            }
            let ghost before = sorted@;
            sorted.insert(at, entry);
            proof {
                let item = (entry.access_count as int, entry@);
                assert forall|k: int| 0 <= k < at implies #[trigger] placed[k].0
                    <= entry.access_count by {
                    assert(placed[k].0 <= placed[at - 1].0);
                    assert(placed[at - 1].0 == before[at - 1].access_count);
                }
                ranking::lemma_inserted_at(placed, item, at as int);
                assert(items.take(taken@ + 1).drop_last() =~= items.take(taken@));
                assert(items.take(taken@ + 1).last() == item);
                assert(keyed(Seq::new(sorted@.len(), |k: int| sorted@[k]@)) =~= placed.insert(
                    at as int,
                    item,
                ));
                assert forall|k: int| 0 <= k < self.cache@.len() implies #[trigger] self.cache@[k]@
                    == all[taken@ + 1 + k] by {
                    assert(self.cache@[k] == rest[k + 1]);
                    assert(rest[k + 1]@ == all[taken@ + (k + 1)]);
                }
                taken@ = taken@ + 1;
            }
        }
        self.cache = sorted;
        proof {
            assert(items.take(taken@) =~= items);
            assert(self.entries() =~= unkeyed(
                keyed(Seq::new(self.cache@.len(), |k: int| self.cache@[k]@)),
            ));
        }
    }

    /// Store encoded value in cache.
    pub fn put(&mut self, hash: u64, encoded: Vec<u8>)
        requires
            old(self).wf(),
            old(self).limit() > 0,
        ensures
            final(self).wf(),
            final(self).limit() == old(self).limit(),
            final(self).hit_count() == old(self).hit_count(),
            final(self).miss_count() == old(self).miss_count(),
            final(self).entries() == stored(
                old(self).entries(),
                old(self).limit(),
                hash,
                encoded@,
            ),
    {
        let ghost before = self.entries();
        if self.position_of(hash).is_some() {
            return;
        }
        if self.cache.len() >= self.max_size {
            self.sort_by_access();
            proof {
                ranking::lemma_ranked_is_ranked(keyed(before));
                lemma_by_access_is_distinct(before);
            }
            let ghost sorted = self.entries();
            let ghost whole = self.cache@;
            let _ = self.cache.remove(0);
            assert(self.entries() =~= sorted.drop_first()) by {
                assert forall|k: int| 0 <= k < self.cache@.len() implies #[trigger] self.cache@[k]
                    == whole[k + 1] by {}
            }
            proof {
                assert forall|i: int, j: int| 0 <= i < j < self.entries().len() implies
                    #[trigger] self.entries()[i].hash != #[trigger] self.entries()[j].hash by {
                    assert(sorted[i + 1].hash != sorted[j + 1].hash);
                }
                assert forall|i: int| 0 <= i < self.entries().len() implies
                    #[trigger] self.entries()[i].hash != hash by {
                    assert(sorted.contains(sorted[i + 1]));
                    assert(before.contains(sorted[i + 1]));
                    let k = choose|k: int| 0 <= k < before.len() && before[k] == sorted[i + 1];
                    assert(before[k].hash != hash);
                }
            }
        }
        let ghost kept = self.entries();
        self.cache.push(CacheEntry { hash, encoded, access_count: 1 });
        assert(self.entries() =~= kept.push(
            CachedEncoding { hash, encoded: encoded@, access_count: 1 },
        ));
    }

    /// Hits and misses so far.
    pub fn usage(&self) -> (usage: (u64, u64))
        ensures
            usage == (self.hit_count(), self.miss_count()),
    {
        (self.hits, self.misses)
    }

    /// Clear the cache.
    pub fn clear(&mut self)
        ensures
            final(self).wf(),
            final(self).entries() == Seq::<CachedEncoding>::empty(),
            final(self).limit() == old(self).limit(),
            final(self).hit_count() == 0,
            final(self).miss_count() == 0,
    {
        self.cache.clear();
        self.hits = 0;
        self.misses = 0;
        assert(self.entries() =~= Seq::<CachedEncoding>::empty());
    }
}

/// Reordering keeps what is there, and keeps the hashes apart.
proof fn lemma_by_access_is_distinct(entries: Seq<CachedEncoding>)
    requires
        distinct(entries),
    ensures
        distinct(by_access(entries)),
        by_access(entries).len() == entries.len(),
        forall|e: CachedEncoding| by_access(entries).contains(e) ==> entries.contains(e),
{
    let items = keyed(entries);
    let sorted = ranking::ranked(items);
    ranking::law_ranking_reorders(items);
    ranking::lemma_ranked_is_ranked(items);
    broadcast use vstd::seq_lib::group_to_multiset_ensures;

    assert(items.no_duplicates()) by {
        assert forall|i: int, j: int|
            0 <= i < items.len() && 0 <= j < items.len() && i != j implies items[i]
            != items[j] by {
            if i < j {
                assert(entries[i].hash != entries[j].hash);
            } else {
                assert(entries[j].hash != entries[i].hash);
            }
        }
    }
    items.lemma_multiset_has_no_duplicates();
    assert(sorted.no_duplicates()) by {
        assert(forall|x: (int, CachedEncoding)|
            sorted.to_multiset().contains(x) ==> sorted.to_multiset().count(x) == 1);
        sorted.lemma_multiset_has_no_duplicates_conv();
    }
    assert forall|k: int| 0 <= k < sorted.len() implies items.contains(#[trigger] sorted[k]) by {
        assert(sorted.contains(sorted[k]));
        assert(sorted.to_multiset().count(sorted[k]) > 0);
        assert(items.to_multiset().count(sorted[k]) > 0);
    }
    assert forall|i: int, j: int| 0 <= i < j < by_access(entries).len() implies
        #[trigger] by_access(entries)[i].hash != #[trigger] by_access(entries)[j].hash by {
        let a = choose|a: int| 0 <= a < items.len() && items[a] == sorted[i];
        let b = choose|b: int| 0 <= b < items.len() && items[b] == sorted[j];
        assert(items.contains(sorted[i]) && items.contains(sorted[j]));
        assert(sorted[i] != sorted[j]);
        if a < b {
            assert(entries[a].hash != entries[b].hash);
        } else {
            assert(entries[b].hash != entries[a].hash);
        }
    }
    assert forall|e: CachedEncoding| by_access(entries).contains(e) implies entries.contains(e) by {
        let k = choose|k: int| 0 <= k < by_access(entries).len() && by_access(entries)[k] == e;
        assert(items.contains(sorted[k]));
        let a = choose|a: int| 0 <= a < items.len() && items[a] == sorted[k];
        assert(entries[a] == e);
    }
}

/// An encoding that was stored under a new hash is there, and the cache has not
/// grown past its limit.
pub proof fn law_stored_is_found(
    entries: Seq<CachedEncoding>,
    limit: usize,
    hash: u64,
    encoded: Seq<u8>,
)
    requires
        limit > 0,
        entries.len() <= limit,
    ensures
        holds(stored(entries, limit, hash, encoded), hash),
        stored(entries, limit, hash, encoded).len() <= limit,
        !holds(entries, hash) ==> stored(entries, limit, hash, encoded).last().encoded == encoded,
{
    let after = stored(entries, limit, hash, encoded);
    ranking::lemma_ranked_is_ranked(keyed(entries));
    if !holds(entries, hash) {
        assert(after[after.len() - 1].hash == hash);
    }
}

} // verus!

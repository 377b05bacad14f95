//! A bounded store of decoded images that gives up the entry that went
//! unused for the longest time.

use crate::imaging::share_image;
use image::DynamicImage;
use std::sync::Arc;
use crate::text::{decimal_digits, hundredths_text, push_decimal, push_hundredths};
use vstd::prelude::*;
use vstd::string::*;

verus! {

/// A stored image with the record of its use.
pub struct CachedImage {
    pub image: Arc<DynamicImage>,
    /// Reading of the cache's clock at the last access.
    pub timestamp: u64,
    pub access_count: u64,
}

/// An image under its key.
pub struct CacheSlot {
    pub key: String,
    pub cached: CachedImage,
}

/// One entry of a cache, as contracts see it.
pub struct CacheEntry {
    pub key: Seq<char>,
    pub image: Arc<DynamicImage>,
    pub timestamp: u64,
    pub access_count: u64,
}

/// The state of a cache, as contracts see it: the entries in the order in
/// which their keys first came in, the clock, and the capacity.
pub struct CacheModel {
    pub entries: Seq<CacheEntry>,
    pub clock: u64,
    pub max_size: usize,
}

/// The successor of a counter that stops at its largest value.
pub open spec fn bump(n: u64) -> u64 {
    if n < u64::MAX {
        (n + 1) as u64
    } else {
        n
    }
}

/// The index of the first entry under `key`, if there is one.
pub open spec fn key_position(entries: Seq<CacheEntry>, key: Seq<char>) -> Option<int>
    decreases entries.len(),
{
    if entries.len() == 0 {
        None
    } else if entries.last().key == key && key_position(entries.drop_last(), key) is None {
        Some(entries.len() - 1)
    } else {
        key_position(entries.drop_last(), key)
    }
}

/// The index of the entry with the smallest timestamp; of several such, the
/// first. Zero for an empty sequence.
pub open spec fn oldest_index(entries: Seq<CacheEntry>) -> int
    decreases entries.len(),
{
    if entries.len() <= 1 {
        0
    } else {
        let before = oldest_index(entries.drop_last());
        if entries.last().timestamp < entries[before].timestamp {
            entries.len() - 1
        } else {
            before
        }
    }
}

/// What `key_position` finds, said without recursion.
pub proof fn lemma_key_position(entries: Seq<CacheEntry>, key: Seq<char>)
    ensures
        match key_position(entries, key) {
            Some(i) => {
                &&& 0 <= i < entries.len()
                &&& entries[i].key == key
                &&& forall|j: int| 0 <= j < i ==> (#[trigger] entries[j]).key != key
            },
            None => forall|j: int| 0 <= j < entries.len() ==> (#[trigger] entries[j]).key != key,
        },
    decreases entries.len(),
{
    if entries.len() > 0 {
        let front = entries.drop_last();
        lemma_key_position(front, key);
        assert forall|j: int| 0 <= j < front.len() implies front[j] == entries[j] by {}
        match key_position(front, key) {
            Some(i) => {
                assert(front[i] == entries[i]);
                assert forall|j: int| 0 <= j < i implies (#[trigger] entries[j]).key != key by {
                    assert(front[j] == entries[j]);
                }
            },
            None => {
                assert forall|j: int| 0 <= j < front.len() implies (#[trigger] entries[j]).key
                    != key by {
                    assert(front[j] == entries[j]);
                }
            },
        }
    }
}

/// What `oldest_index` finds, said without recursion.
pub proof fn lemma_oldest_index(entries: Seq<CacheEntry>)
    requires
        entries.len() > 0,
    ensures
        0 <= oldest_index(entries) < entries.len(),
        forall|j: int|
            0 <= j < entries.len() ==> entries[oldest_index(entries)].timestamp <= (
            #[trigger] entries[j]).timestamp,
        forall|j: int|
            0 <= j < oldest_index(entries) ==> entries[oldest_index(entries)].timestamp < (
            #[trigger] entries[j]).timestamp,
    decreases entries.len(),
{
    if entries.len() > 1 {
        let front = entries.drop_last();
        lemma_oldest_index(front);
        let before = oldest_index(front);
        assert(front[before] == entries[before]);
        assert forall|j: int| 0 <= j < entries.len() implies entries[oldest_index(
            entries,
        )].timestamp <= (#[trigger] entries[j]).timestamp by {
            if j < front.len() {
                assert(front[j] == entries[j]);
            }
        }
        assert forall|j: int| 0 <= j < oldest_index(entries) implies entries[oldest_index(
            entries,
        )].timestamp < (#[trigger] entries[j]).timestamp by {
            assert(front[j] == entries[j]);
        }
    }
}

impl CacheModel {
    /// No key occurs twice, no timestamp is ahead of the clock, and the cache
    /// holds no more than its capacity (one entry where the capacity is zero).
    pub open spec fn wf(self) -> bool {
        &&& forall|i: int, j: int|
            0 <= i < j < self.entries.len() ==> (#[trigger] self.entries[i]).key != (
            #[trigger] self.entries[j]).key
        &&& forall|i: int|
            0 <= i < self.entries.len() ==> (#[trigger] self.entries[i]).timestamp <= self.clock
        &&& (self.entries.len() <= self.max_size || self.entries.len() <= 1)
    }

    pub open spec fn contains(self, key: Seq<char>) -> bool {
        key_position(self.entries, key) is Some
    }

    /// The image under `key`, if there is one.
    pub open spec fn lookup(self, key: Seq<char>) -> Option<Arc<DynamicImage>> {
        match key_position(self.entries, key) {
            Some(i) => Some(self.entries[i].image),
            None => None,
        }
    }

    /// The cache after a lookup of `key`: a hit advances the clock, stamps the
    /// entry with the new reading and counts the access; a miss changes nothing.
    pub open spec fn touch(self, key: Seq<char>) -> CacheModel {
        match key_position(self.entries, key) {
            Some(i) => CacheModel {
                entries: self.entries.update(
                    i,
                    CacheEntry {
                        key: self.entries[i].key,
                        image: self.entries[i].image,
                        timestamp: bump(self.clock),
                        access_count: bump(self.entries[i].access_count),
                    },
                ),
                clock: bump(self.clock),
                max_size: self.max_size,
            },
            None => self,
        }
    }

    /// Whether a new entry needs room to be made first.
    pub open spec fn is_full(self) -> bool {
        self.entries.len() >= self.max_size
    }

    /// The cache without its oldest entry, if it is full and holds any.
    pub open spec fn evict(self) -> CacheModel {
        if self.is_full() && self.entries.len() > 0 {
            CacheModel {
                entries: self.entries.remove(oldest_index(self.entries)),
                clock: self.clock,
                max_size: self.max_size,
            }
        } else {
            self
        }
    }

    /// The cache with `image` under `key`, stamped with an advanced clock and
    /// counted as accessed once. An entry already under `key` is replaced in
    /// its place; a new key goes to the end.
    pub open spec fn store(self, key: Seq<char>, image: Arc<DynamicImage>) -> CacheModel {
        let entry = CacheEntry { key, image, timestamp: bump(self.clock), access_count: 1 };
        CacheModel {
            entries: match key_position(self.entries, key) {
                Some(i) => self.entries.update(i, entry),
                None => self.entries.push(entry),
            },
            clock: bump(self.clock),
            max_size: self.max_size,
        }
    }

    /// The cache after `image` was put under `key`: room is made, then the
    /// image is stored.
    pub open spec fn put(self, key: Seq<char>, image: Arc<DynamicImage>) -> CacheModel {
        self.evict().store(key, image)
    }

    /// The cache without the entry under `key`.
    pub open spec fn remove(self, key: Seq<char>) -> CacheModel {
        match key_position(self.entries, key) {
            Some(i) => CacheModel {
                entries: self.entries.remove(i),
                clock: self.clock,
                max_size: self.max_size,
            },
            None => self,
        }
    }

    /// The cache without any entry.
    pub open spec fn clear(self) -> CacheModel {
        CacheModel { entries: Seq::empty(), clock: self.clock, max_size: self.max_size }
    }
}

/// A well-formed cache stays so when an entry leaves.
pub proof fn lemma_remove_keeps_wf(cache: CacheModel, i: int)
    requires
        cache.wf(),
        0 <= i < cache.entries.len(),
    ensures
        (CacheModel {
            entries: cache.entries.remove(i),
            clock: cache.clock,
            max_size: cache.max_size,
        }).wf(),
{
    let rest = cache.entries.remove(i);
    assert forall|a: int, b: int| 0 <= a < b < rest.len() implies (#[trigger] rest[a]).key != (
    #[trigger] rest[b]).key by {
        let a0 = if a < i { a } else { a + 1 };
        let b0 = if b < i { b } else { b + 1 };
        assert(rest[a] == cache.entries[a0]);
        assert(rest[b] == cache.entries[b0]);
    }
    assert forall|a: int| 0 <= a < rest.len() implies (#[trigger] rest[a]).timestamp
        <= cache.clock by {
        let a0 = if a < i { a } else { a + 1 };
        assert(rest[a] == cache.entries[a0]);
    }
}

/// A well-formed cache stays so when room is made, and then has room: it
/// holds fewer entries than its capacity, or none at all.
pub proof fn lemma_evict_keeps_wf(cache: CacheModel)
    requires
        cache.wf(),
    ensures
        cache.evict().wf(),
        cache.evict().entries.len() < cache.max_size || cache.evict().entries.len() == 0,
{
    if cache.is_full() && cache.entries.len() > 0 {
        lemma_oldest_index(cache.entries);
        lemma_remove_keeps_wf(cache, oldest_index(cache.entries));
    }
}

/// A well-formed cache with room stays well-formed when an image is stored.
pub proof fn lemma_store_keeps_wf(cache: CacheModel, key: Seq<char>, image: Arc<DynamicImage>)
    requires
        cache.wf(),
        cache.entries.len() < cache.max_size || cache.entries.len() == 0 || cache.contains(key),
    ensures
        cache.store(key, image).wf(),
{
    lemma_key_position(cache.entries, key);
    let after = cache.store(key, image);
    assert forall|a: int, b: int| 0 <= a < b < after.entries.len() implies (
    #[trigger] after.entries[a]).key != (#[trigger] after.entries[b]).key by {
        match key_position(cache.entries, key) {
            Some(i) => {
                assert(cache.entries[a].key != cache.entries[b].key);
            },
            None => {
                if b < cache.entries.len() {
                    assert(cache.entries[a].key != cache.entries[b].key);
                } else {
                    assert(cache.entries[a].key != key);
                }
            },
        }
    }
    assert forall|a: int| 0 <= a < after.entries.len() implies (
    #[trigger] after.entries[a]).timestamp <= after.clock by {
        if a < cache.entries.len() {
            assert(cache.entries[a].timestamp <= cache.clock);
        }
    }
}

/// A lookup changes neither which keys are in the cache nor that the cache
/// is well-formed.
pub proof fn lemma_touch_keeps_keys(cache: CacheModel, touched: Seq<char>, key: Seq<char>)
    ensures
        cache.touch(touched).contains(key) == cache.contains(key),
        cache.wf() ==> cache.touch(touched).wf(),
{
    let after = cache.touch(touched);
    lemma_key_position(cache.entries, touched);
    lemma_key_position(cache.entries, key);
    lemma_key_position(after.entries, key);
    assert(after.entries.len() == cache.entries.len());
    assert forall|j: int| 0 <= j < cache.entries.len() implies (#[trigger] after.entries[j]).key
        == cache.entries[j].key by {}
    if cache.contains(key) {
        let i = key_position(cache.entries, key)->0;
        assert(after.entries[i].key == key);
    }
    if after.contains(key) {
        let i = key_position(after.entries, key)->0;
        assert(cache.entries[i].key == key);
    }
    if cache.wf() {
        assert forall|a: int, b: int| 0 <= a < b < after.entries.len() implies (
        #[trigger] after.entries[a]).key != (#[trigger] after.entries[b]).key by {
            assert(cache.entries[a].key != cache.entries[b].key);
        }
        assert forall|a: int| 0 <= a < after.entries.len() implies (
        #[trigger] after.entries[a]).timestamp <= after.clock by {
            assert(cache.entries[a].timestamp <= cache.clock);
        }
    }
}

/// A lookup does not change which image stands under a key.
pub proof fn lemma_touch_keeps_images(cache: CacheModel, touched: Seq<char>, key: Seq<char>)
    ensures
        cache.touch(touched).lookup(key) == cache.lookup(key),
{
    let after = cache.touch(touched);
    lemma_key_position(cache.entries, touched);
    lemma_key_position(cache.entries, key);
    lemma_key_position(after.entries, key);
    assert forall|j: int| 0 <= j < cache.entries.len() implies (#[trigger] after.entries[j]).key
        == cache.entries[j].key && after.entries[j].image == cache.entries[j].image by {}
    match key_position(cache.entries, key) {
        Some(i) => {
            assert(after.entries[i].key == key);
            let found = key_position(after.entries, key)->0;
            if found < i {
                assert(cache.entries[found].key == key);
            } else if found > i {
                assert(after.entries[i].key == key);
            }
        },
        None => {
            if key_position(after.entries, key) is Some {
                let found = key_position(after.entries, key)->0;
                assert(cache.entries[found].key == key);
            }
        },
    }
}

/// A key is in the cache exactly when some entry stands under it.
pub proof fn lemma_contains(cache: CacheModel, key: Seq<char>)
    ensures
        cache.contains(key) <==> exists|j: int|
            0 <= j < cache.entries.len() && (#[trigger] cache.entries[j]).key == key,
{
    lemma_key_position(cache.entries, key);
    if cache.contains(key) {
        let i = key_position(cache.entries, key)->0;
        assert(cache.entries[i].key == key);
    }
}

/// What was put into a cache is found there, whatever the cache held.
pub proof fn law_lookup_finds_what_was_put(
    cache: CacheModel,
    key: Seq<char>,
    image: Arc<DynamicImage>,
)
    requires
        cache.wf(),
    ensures
        cache.put(key, image).lookup(key) == Some(image),
        cache.put(key, image).wf(),
{
    let evicted = cache.evict();
    let after = cache.put(key, image);
    lemma_evict_keeps_wf(cache);
    lemma_store_keeps_wf(evicted, key, image);
    lemma_key_position(evicted.entries, key);
    lemma_key_position(after.entries, key);
    let at = match key_position(evicted.entries, key) {
        Some(i) => i,
        None => evicted.entries.len() as int,
    };
    assert(after.entries[at].key == key);
    let found = key_position(after.entries, key)->0;
    if found < at {
        assert(after.entries[found].key != after.entries[at].key);
    } else if found > at {
        assert(after.entries[at].key != after.entries[found].key);
    }
}

/// Putting an image into a full cache makes exactly one entry leave: the one
/// with the smallest timestamp. Every other entry stays, the new key is in,
/// and a later lookup of the key that left finds nothing and changes nothing.
pub proof fn law_put_evicts_least_recently_used(
    cache: CacheModel,
    key: Seq<char>,
    image: Arc<DynamicImage>,
)
    requires
        cache.wf(),
        cache.is_full(),
        cache.entries.len() > 0,
    ensures
        ({
            let oldest = oldest_index(cache.entries);
            let victim = cache.entries[oldest];
            let after = cache.put(key, image);
            &&& 0 <= oldest < cache.entries.len()
            &&& forall|j: int|
                0 <= j < cache.entries.len() ==> victim.timestamp <= (
                #[trigger] cache.entries[j]).timestamp
            &&& victim.key != key ==> {
                &&& !after.contains(victim.key)
                &&& after.lookup(victim.key) is None
                &&& after.touch(victim.key) == after
            }
            &&& forall|j: int|
                0 <= j < cache.entries.len() && j != oldest ==> after.contains(
                    (#[trigger] cache.entries[j]).key,
                )
            &&& after.contains(key)
            &&& after.lookup(key) == Some(image)
            &&& after.entries.len() <= cache.entries.len()
            &&& after.wf()
        }),
{
    let oldest = oldest_index(cache.entries);
    lemma_oldest_index(cache.entries);
    let victim = cache.entries[oldest];
    let evicted = cache.evict();
    let after = cache.put(key, image);
    lemma_evict_keeps_wf(cache);
    lemma_store_keeps_wf(evicted, key, image);
    lemma_key_position(evicted.entries, key);
    assert forall|j: int| 0 <= j < evicted.entries.len() implies (
    #[trigger] evicted.entries[j]).key != victim.key by {
        let j0 = if j < oldest { j } else { j + 1 };
        assert(evicted.entries[j] == cache.entries[j0]);
        if j0 < oldest {
            assert(cache.entries[j0].key != cache.entries[oldest].key);
        } else {
            assert(cache.entries[oldest].key != cache.entries[j0].key);
        }
    }
    let new_entry = CacheEntry { key, image, timestamp: bump(evicted.clock), access_count: 1 };
    assert forall|j: int| 0 <= j < after.entries.len() implies (#[trigger] after.entries[j])
        == new_entry || exists|k: int|
        0 <= k < evicted.entries.len() && after.entries[j] == evicted.entries[k] by {
        match key_position(evicted.entries, key) {
            Some(i) => {
                if j != i {
                    assert(after.entries[j] == evicted.entries[j]);
                }
            },
            None => {
                if j < evicted.entries.len() {
                    assert(after.entries[j] == evicted.entries[j]);
                }
            },
        }
    }
    if victim.key != key {
        lemma_contains(after, victim.key);
        if after.contains(victim.key) {
            let j = choose|j: int|
                0 <= j < after.entries.len() && (#[trigger] after.entries[j]).key == victim.key;
            assert(after.entries[j] != new_entry);
            let k = choose|k: int|
                0 <= k < evicted.entries.len() && after.entries[j] == evicted.entries[k];
            assert(evicted.entries[k].key != victim.key);
        }
    }
    let at = match key_position(evicted.entries, key) {
        Some(i) => i,
        None => evicted.entries.len() as int,
    };
    assert(after.entries[at] == new_entry);
    lemma_contains(after, key);
    lemma_key_position(after.entries, key);
    let found = key_position(after.entries, key)->0;
    if found != at {
        if found < at {
            assert(after.entries[found].key != after.entries[at].key);
        } else {
            assert(after.entries[at].key != after.entries[found].key);
        }
    }
    assert forall|j: int| 0 <= j < cache.entries.len() && j != oldest implies after.contains(
        (#[trigger] cache.entries[j]).key,
    ) by {
        let k = if j < oldest { j } else { j - 1 };
        assert(evicted.entries[k] == cache.entries[j]);
        lemma_contains(after, cache.entries[j].key);
        match key_position(evicted.entries, key) {
            Some(i) => {
                if k == i {
                    assert(after.entries[k].key == cache.entries[j].key);
                } else {
                    assert(after.entries[k] == evicted.entries[k]);
                }
            },
            None => {
                assert(after.entries[k] == evicted.entries[k]);
            },
        }
    }
}

/// What contracts see of one slot.
pub open spec fn entry_of(slot: CacheSlot) -> CacheEntry {
    CacheEntry {
        key: slot.key@,
        image: slot.cached.image,
        timestamp: slot.cached.timestamp,
        access_count: slot.cached.access_count,
    }
}

/// What contracts see of a row of slots.
pub open spec fn entries_of(slots: Seq<CacheSlot>) -> Seq<CacheEntry> {
    Seq::new(slots.len(), |i: int| entry_of(slots[i]))
}

/// Bounded key-to-image store with least-recently-used eviction.
pub struct ImageCache {
    slots: Vec<CacheSlot>,
    max_size: usize,
    clock: u64,
}

impl View for ImageCache {
    type V = CacheModel;

    closed spec fn view(&self) -> CacheModel {
        CacheModel { entries: entries_of(self.slots@), clock: self.clock, max_size: self.max_size }
    }
}

/// A counter's successor, stopping at the largest value.
fn bumped(n: u64) -> (r: u64)
    ensures
        r == bump(n),
{
    if n < u64::MAX {
        n + 1
    } else {
        n
    }
}

impl ImageCache {
    pub fn new(max_size: usize) -> (cache: ImageCache)
        ensures
            cache@ == (CacheModel { entries: Seq::empty(), clock: 0, max_size }),
            cache@.wf(),
    {
        let cache = ImageCache { slots: Vec::new(), max_size, clock: 0 };
        assert(cache@.entries =~= Seq::empty());
        cache
    }

    /// Where the first slot under `key` stands.
    fn find(&self, key: &String) -> (found: Option<usize>)
        ensures
            match found {
                Some(i) => key_position(self@.entries, key@) == Some(i as int) && i < self.slots@.len(),
                None => key_position(self@.entries, key@) is None,
            },
    {
        proof {
            lemma_key_position(self@.entries, key@);
        }
        let mut i: usize = 0;
        while i < self.slots.len()
            invariant
                i <= self.slots.len(),
                forall|j: int| 0 <= j < i ==> (#[trigger] self@.entries[j]).key != key@,
            decreases self.slots.len() - i,
        {
            if self.slots[i].key == *key {
                proof {
                    lemma_key_position(self@.entries, key@);
                    assert(self@.entries[i as int].key == key@);
                }
                return Some(i);
            }
            i += 1;
        }
        None
    }

    /// Looks `key` up. A hit counts as an access and makes the entry the most
    /// recently used one; the image comes back as a shared handle.
    pub fn get(&mut self, key: &str) -> (found: Option<Arc<DynamicImage>>)
        ensures
            found == old(self)@.lookup(key@),
            final(self)@ == old(self)@.touch(key@),
            old(self)@.wf() ==> final(self)@.wf(),
    {
        let wanted = key.to_owned();
        match self.find(&wanted) {
            Some(i) => {
                let now = bumped(self.clock);
                let ghost before = self.slots@;
                let slot = &mut self.slots[i];
                slot.cached.access_count = bumped(slot.cached.access_count);
                slot.cached.timestamp = now;
                let image = share_image(&slot.cached.image);
                self.clock = now;
                proof {
                    assert(self@.entries =~= old(self)@.touch(key@).entries);
                    if old(self)@.wf() {
                        assert forall|a: int, b: int| 0 <= a < b < self@.entries.len() implies (
                        #[trigger] self@.entries[a]).key != (#[trigger] self@.entries[b]).key by {
                            assert(old(self)@.entries[a].key != old(self)@.entries[b].key);
                        }
                        assert forall|a: int| 0 <= a < self@.entries.len() implies (
                        #[trigger] self@.entries[a]).timestamp <= self@.clock by {
                            assert(old(self)@.entries[a].timestamp <= old(self)@.clock);
                        }
                    }
                }
                Some(image)
            },
            None => None,
        }
    }

    /// Removes the entry that was accessed the longest time ago, if the cache
    /// holds any.
    fn evict_lru(&mut self)
        ensures
            old(self)@.entries.len() > 0 ==> final(self)@ == (CacheModel {
                entries: old(self)@.entries.remove(oldest_index(old(self)@.entries)),
                clock: old(self)@.clock,
                max_size: old(self)@.max_size,
            }),
            old(self)@.entries.len() == 0 ==> final(self)@ == old(self)@,
    {
        if self.slots.len() == 0 {
            return;
        }
        let mut oldest: usize = 0;
        let mut i: usize = 1;
        while i < self.slots.len()
            invariant
                1 <= i <= self.slots.len(),
                oldest < i,
                oldest as int == oldest_index(self@.entries.subrange(0, i as int)),
            decreases self.slots.len() - i,
        {
            proof {
                let longer = self@.entries.subrange(0, i as int + 1);
                assert(longer.drop_last() =~= self@.entries.subrange(0, i as int));
                assert(longer.last() == self@.entries[i as int]);
                assert(longer[oldest as int] == self@.entries[oldest as int]);
            }
            if self.slots[i].cached.timestamp < self.slots[oldest].cached.timestamp {
                oldest = i;
            }
            i += 1;
        }
        proof {
            assert(self@.entries.subrange(0, self.slots@.len() as int) =~= self@.entries);
        }
        self.slots.remove(oldest);
        assert(self@.entries =~= old(self)@.entries.remove(oldest as int));
    }

    /// Puts `image` under `key` and hands back a shared handle to it. A full
    /// cache first gives up its least recently used entry.
    pub fn put(&mut self, key: String, image: DynamicImage) -> (stored: Arc<DynamicImage>)
        ensures
            *stored == image,
            final(self)@ == old(self)@.put(key@, stored),
            old(self)@.wf() ==> final(self)@.wf(),
    {
        if self.slots.len() >= self.max_size {
            self.evict_lru();
        }
        assert(self@ == old(self)@.evict());
        proof {
            if old(self)@.wf() {
                lemma_evict_keeps_wf(old(self)@);
            }
        }
        let ghost evicted = self@;
        let now = bumped(self.clock);
        let handle = Arc::new(image);
        let stored = share_image(&handle);
        let cached = CachedImage { image: handle, timestamp: now, access_count: 1 };
        match self.find(&key) {
            Some(i) => {
                self.slots[i] = CacheSlot { key, cached };
            },
            None => {
                self.slots.push(CacheSlot { key, cached });
            },
        }
        self.clock = now;
        proof {
            assert(self@.entries =~= evicted.store(key@, stored).entries);
            if old(self)@.wf() {
                lemma_store_keeps_wf(evicted, key@, stored);
            }
        }
        stored
    }

    /// Takes the entry under `key` out; says whether there was one.
    pub fn remove(&mut self, key: &str) -> (removed: bool)
        ensures
            removed == old(self)@.contains(key@),
            final(self)@ == old(self)@.remove(key@),
            old(self)@.wf() ==> final(self)@.wf(),
    {
        let wanted = key.to_owned();
        match self.find(&wanted) {
            Some(i) => {
                self.slots.remove(i);
                proof {
                    assert(self@.entries =~= old(self)@.entries.remove(i as int));
                    if old(self)@.wf() {
                        lemma_remove_keeps_wf(old(self)@, i as int);
                    }
                }
                true
            },
            None => false,
        }
    }

    pub fn size(&self) -> (n: usize)
        ensures
            n == self@.entries.len(),
    {
        self.slots.len()
    }

    pub fn clear(&mut self)
        ensures
            final(self)@ == old(self)@.clear(),
            final(self)@.wf(),
    {
        self.slots.clear();
        assert(self@.entries =~= Seq::empty());
    }
}

/// A zoom factor in thousandths, rounded to the nearest hundredth.
pub open spec fn zoom_hundredths(zoom: u32) -> nat {
    ((zoom as int + 5) / 10) as nat
}

/// The key of a full-resolution page image: `page_`, the page index, an
/// underscore, and the zoom factor with two decimals.
pub open spec fn page_image_key(page_index: usize, zoom: u32) -> Seq<char> {
    "page_"@ + decimal_digits(page_index as nat) + seq!['_'] + hundredths_text(
        zoom_hundredths(zoom),
    )
}

/// The key of a page's thumbnail: `thumb_` and the page index.
pub open spec fn thumbnail_key(page_index: usize) -> Seq<char> {
    "thumb_"@ + decimal_digits(page_index as nat)
}

/// Writes the key of a full-resolution page image.
pub fn make_page_image_key(page_index: usize, zoom: u32) -> (key: String)
    ensures
        key@ == page_image_key(page_index, zoom),
{
    proof {
        reveal_strlit("_");
    }
    let mut key = String::from_str("page_");
    push_decimal(&mut key, page_index as u64);
    key.append("_");
    push_hundredths(&mut key, (zoom as u64 + 5) / 10);
    assert(key@ =~= page_image_key(page_index, zoom));
    key
}

/// Writes the key of a page's thumbnail.
pub fn make_thumbnail_key(page_index: usize) -> (key: String)
    ensures
        key@ == thumbnail_key(page_index),
{
    let mut key = String::from_str("thumb_");
    push_decimal(&mut key, page_index as u64);
    key
}

/// The two caches of a document: full-resolution images and thumbnails.
pub struct PageCache {
    pub image_cache: ImageCache,
    pub thumbnail_cache: ImageCache,
}

impl PageCache {
    /// Both caches are well-formed.
    pub open spec fn wf(self) -> bool {
        self.image_cache@.wf() && self.thumbnail_cache@.wf()
    }

    pub fn new(max_images: usize, max_thumbnails: usize) -> (cache: PageCache)
        ensures
            cache.image_cache@ == (CacheModel {
                entries: Seq::empty(),
                clock: 0,
                max_size: max_images,
            }),
            cache.thumbnail_cache@ == (CacheModel {
                entries: Seq::empty(),
                clock: 0,
                max_size: max_thumbnails,
            }),
            cache.wf(),
    {
        PageCache {
            image_cache: ImageCache::new(max_images),
            thumbnail_cache: ImageCache::new(max_thumbnails),
        }
    }

    pub fn get_page_image(&mut self, page_index: usize, zoom: u32) -> (found: Option<Arc<DynamicImage>>)
        ensures
            found == old(self).image_cache@.lookup(page_image_key(page_index, zoom)),
            final(self).image_cache@ == old(self).image_cache@.touch(
                page_image_key(page_index, zoom),
            ),
            final(self).thumbnail_cache == old(self).thumbnail_cache,
            old(self).wf() ==> final(self).wf(),
    {
        let key = make_page_image_key(page_index, zoom);
        self.image_cache.get(key.as_str())
    }

    pub fn put_page_image(&mut self, page_index: usize, zoom: u32, image: DynamicImage) -> (stored: Arc<
        DynamicImage,
    >)
        ensures
            *stored == image,
            final(self).image_cache@ == old(self).image_cache@.put(
                page_image_key(page_index, zoom),
                stored,
            ),
            final(self).thumbnail_cache == old(self).thumbnail_cache,
            old(self).wf() ==> final(self).wf(),
    {
        let key = make_page_image_key(page_index, zoom);
        self.image_cache.put(key, image)
    }

    pub fn get_thumbnail(&mut self, page_index: usize) -> (found: Option<Arc<DynamicImage>>)
        ensures
            found == old(self).thumbnail_cache@.lookup(thumbnail_key(page_index)),
            final(self).thumbnail_cache@ == old(self).thumbnail_cache@.touch(
                thumbnail_key(page_index),
            ),
            final(self).image_cache == old(self).image_cache,
            old(self).wf() ==> final(self).wf(),
    {
        let key = make_thumbnail_key(page_index);
        self.thumbnail_cache.get(key.as_str())
    }

    pub fn put_thumbnail(&mut self, page_index: usize, image: DynamicImage) -> (stored: Arc<
        DynamicImage,
    >)
        ensures
            *stored == image,
            final(self).thumbnail_cache@ == old(self).thumbnail_cache@.put(
                thumbnail_key(page_index),
                stored,
            ),
            final(self).image_cache == old(self).image_cache,
            old(self).wf() ==> final(self).wf(),
    {
        let key = make_thumbnail_key(page_index);
        self.thumbnail_cache.put(key, image)
    }

    pub fn clear(&mut self)
        ensures
            final(self).image_cache@ == old(self).image_cache@.clear(),
            final(self).thumbnail_cache@ == old(self).thumbnail_cache@.clear(),
            final(self).wf(),
    {
        self.image_cache.clear();
        self.thumbnail_cache.clear();
    }
}

impl Default for ImageCache {
    fn default() -> (cache: ImageCache)
        ensures
            cache@ == (CacheModel { entries: Seq::empty(), clock: 0, max_size: 10 }),
    {
        ImageCache::new(10)
    }
}

impl Default for PageCache {
    fn default() -> (cache: PageCache)
        ensures
            cache.image_cache@ == (CacheModel { entries: Seq::empty(), clock: 0, max_size: 8 }),
            cache.thumbnail_cache@ == (CacheModel { entries: Seq::empty(), clock: 0, max_size: 20 }),
    {
        PageCache::new(8, 20)
    }
}

} // verus!

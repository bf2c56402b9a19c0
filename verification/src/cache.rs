//! The caches of recently served blocks and transaction lists, by block height.
//!
//! A cache holds a bounded number of entries. It is described by their sequence, the most
//! recently used first: reading an entry brings it to the front, and adding one to a full cache
//! drops the entry at the end.

use vstd::prelude::*;

use crate::summary::{clone_summaries, summary_views, SummaryView, TxSummary};

verus! {

/// The value that `entries` hold for `key`.
pub open spec fn lookup<V>(entries: Seq<(u64, V)>, key: u64) -> Option<V>
    decreases entries.len(),
{
    if entries.len() == 0 {
        None
    } else if entries[0].0 == key {
        Some(entries[0].1)
    } else {
        lookup(entries.skip(1), key)
    }
}

/// `entries` without the one for `key`.
pub open spec fn without<V>(entries: Seq<(u64, V)>, key: u64) -> Seq<(u64, V)>
    decreases entries.len(),
{
    if entries.len() == 0 {
        entries
    } else if entries[0].0 == key {
        without(entries.skip(1), key)
    } else {
        seq![entries[0]] + without(entries.skip(1), key)
    }
}

/// `entries` after `key` was read: its entry, where there is one, stands at the front.
pub open spec fn touched<V>(entries: Seq<(u64, V)>, key: u64) -> Seq<(u64, V)> {
    match lookup(entries, key) {
        Some(value) => seq![(key, value)] + without(entries, key),
        None => entries,
    }
}

/// `entries` of a cache for `capacity` entries after `value` was stored for `key`: the new entry
/// stands at the front, in place of an older one for `key`; where there was none and the cache
/// was full, the entry at the end is gone.
pub open spec fn stored<V>(
    entries: Seq<(u64, V)>,
    capacity: nat,
    key: u64,
    value: V,
) -> Seq<(u64, V)> {
    if lookup(entries, key) is Some {
        seq![(key, value)] + without(entries, key)
    } else if entries.len() == capacity {
        seq![(key, value)] + entries.drop_last()
    } else {
        seq![(key, value)] + entries
    }
}

/// Whether no key has two entries.
pub open spec fn distinct_keys<V>(entries: Seq<(u64, V)>) -> bool {
    forall|i: int, j: int|
        0 <= i < j < entries.len() ==> (#[trigger] entries[i]).0 != (#[trigger] entries[j]).0
}

/// A block as it is kept: its hash and its bitmap.
#[derive(Debug)]
pub struct CachedBlock {
    pub hash: String,
    pub payload: Vec<u8>,
}

/// The hash and the bitmap of a block.
pub struct BlockView {
    pub hash: Seq<char>,
    pub payload: Seq<u8>,
}

impl View for CachedBlock {
    type V = BlockView;

    open spec fn view(&self) -> BlockView {
        BlockView { hash: self.hash@, payload: self.payload@ }
    }
}

/// Copies bytes.
pub fn clone_bytes(bytes: &Vec<u8>) -> (r: Vec<u8>)
    ensures
        r@ == bytes@,
{
    let copy: Vec<u8> = bytes.clone();
    assert(copy@ =~= bytes@);
    copy
}

impl Clone for CachedBlock {
    fn clone(&self) -> (r: Self)
        ensures
            r@ == self@,
    {
        CachedBlock { hash: self.hash.clone(), payload: clone_bytes(&self.payload) }
    }
}

/// What a cache keeps for a height.
pub enum CacheEntry {
    Block(CachedBlock),
    Txs(Vec<TxSummary>),
}

/// The least-recently-used cache of the `lru` crate, `lru::LruCache`.
#[verifier::external_type_specification]
#[verifier::external_body]
#[verifier::reject_recursive_types(K)]
#[verifier::reject_recursive_types(V)]
#[verifier::reject_recursive_types(S)]
pub struct ExLruCache<K, V, S>(lru::LruCache<K, V, S>);

/// The hasher that such a cache uses by default, `lru::DefaultHasher`.
#[verifier::external_type_specification]
#[verifier::external_body]
pub struct ExDefaultHasher(lru::DefaultHasher);

/// The entries of a cache, the most recently used first.
pub uninterp spec fn lru_entries(cache: lru::LruCache<u64, CacheEntry>) -> Seq<(u64, CacheEntry)>;

/// The number of entries that a cache was made for.
pub uninterp spec fn lru_capacity(cache: lru::LruCache<u64, CacheEntry>) -> nat;

/// Calls `lru::LruCache::new`, which makes an empty cache for `capacity` entries. It reserves
/// room for all of them at once, and panics where that many could not be addressed.
#[verifier::external_body]
fn lru_new(capacity: usize) -> (r: lru::LruCache<u64, CacheEntry>)
    requires
        0 < capacity <= usize::MAX / 128,
    ensures
        lru_entries(r) == Seq::<(u64, CacheEntry)>::empty(),
        lru_capacity(r) == capacity,
{
    lru::LruCache::new(std::num::NonZeroUsize::new(capacity).unwrap())
}

/// Calls `lru::LruCache::get`, which finds the value for a key and brings its entry to the front.
#[verifier::external_body]
fn lru_get<'a>(cache: &'a mut lru::LruCache<u64, CacheEntry>, key: u64) -> (r: Option<
    &'a CacheEntry,
>)
    ensures
        r is Some <==> lookup(lru_entries(*old(cache)), key) is Some,
        r matches Some(entry) ==> lookup(lru_entries(*old(cache)), key) == Some(*entry),
        lru_entries(*final(cache)) == touched(lru_entries(*old(cache)), key),
        lru_capacity(*final(cache)) == lru_capacity(*old(cache)),
{
    cache.get(&key)
}

/// Calls `lru::LruCache::put`, which stores a value for a key at the front, dropping the least
/// recently used entry where a full cache has none for the key. It returns the value that the
/// key had before.
#[verifier::external_body]
fn lru_put(
    cache: &mut lru::LruCache<u64, CacheEntry>,
    key: u64,
    entry: CacheEntry,
) -> (r: Option<CacheEntry>)
    ensures
        r == lookup(lru_entries(*old(cache)), key),
        lru_entries(*final(cache)) == stored(
            lru_entries(*old(cache)),
            lru_capacity(*old(cache)),
            key,
            entry,
        ),
        lru_capacity(*final(cache)) == lru_capacity(*old(cache)),
{
    cache.put(key, entry)
}

/// `entries` with every value replaced by what `f` makes of it.
pub open spec fn mapped<V, W>(entries: Seq<(u64, V)>, f: spec_fn(V) -> W) -> Seq<(u64, W)> {
    entries.map_values(|e: (u64, V)| (e.0, f(e.1)))
}

/// Reading and storing do not depend on what the values are.
proof fn lemma_mapped<V, W>(entries: Seq<(u64, V)>, f: spec_fn(V) -> W, key: u64)
    ensures
        lookup(mapped(entries, f), key) == (match lookup(entries, key) {
            Some(v) => Some(f(v)),
            None => None,
        }),
        without(mapped(entries, f), key) == mapped(without(entries, key), f),
        touched(mapped(entries, f), key) == mapped(touched(entries, key), f),
    decreases entries.len(),
{
    if entries.len() > 0 {
        lemma_mapped(entries.skip(1), f, key);
        assert(mapped(entries, f).skip(1) =~= mapped(entries.skip(1), f));
    }
    assert(without(mapped(entries, f), key) =~= mapped(without(entries, key), f));
    assert(touched(mapped(entries, f), key) =~= mapped(touched(entries, key), f));
}

proof fn lemma_mapped_stored<V, W>(
    entries: Seq<(u64, V)>,
    f: spec_fn(V) -> W,
    capacity: nat,
    key: u64,
    value: V,
)
    requires
        capacity > 0,
    ensures
        stored(mapped(entries, f), capacity, key, f(value)) == mapped(
            stored(entries, capacity, key, value),
            f,
        ),
{
    lemma_mapped(entries, f, key);
    assert(stored(mapped(entries, f), capacity, key, f(value)) =~= mapped(
        stored(entries, capacity, key, value),
        f,
    ));
}

/// What a cache holds: the number of entries it was made for, and its entries.
pub struct CacheView<V> {
    pub capacity: nat,
    pub entries: Seq<(u64, V)>,
}

impl<V> CacheView<V> {
    /// Whether a cache keeps within its bounds: no more entries than it was made for, which is at
    /// least one, and no two for one key.
    pub open spec fn wf(self) -> bool {
        &&& 0 < self.capacity
        &&& self.entries.len() <= self.capacity
        &&& distinct_keys(self.entries)
    }

    /// The value that the cache holds for `key`.
    pub open spec fn value(self, key: u64) -> Option<V> {
        lookup(self.entries, key)
    }

    /// The cache after `key` was read.
    pub open spec fn after_get(self, key: u64) -> CacheView<V> {
        CacheView { capacity: self.capacity, entries: touched(self.entries, key) }
    }

    /// The cache after `value` was stored for `key`.
    pub open spec fn after_put(self, key: u64, value: V) -> CacheView<V> {
        CacheView {
            capacity: self.capacity,
            entries: stored(self.entries, self.capacity, key, value),
        }
    }
}

/// What is found for a key is one of the entries.
proof fn lemma_lookup_index<V>(entries: Seq<(u64, V)>, key: u64)
    ensures
        lookup(entries, key) is Some <==> exists|i: int|
            0 <= i < entries.len() && (#[trigger] entries[i]).0 == key,
        lookup(entries, key) matches Some(v) ==> exists|i: int|
            0 <= i < entries.len() && #[trigger] entries[i] == (key, v),
    decreases entries.len(),
{
    if entries.len() > 0 {
        let rest = entries.skip(1);
        lemma_lookup_index(rest, key);
        if entries[0].0 == key {
            assert(entries[0] == (key, entries[0].1));
        } else {
            if lookup(rest, key) is Some {
                let v = lookup(rest, key)->0;
                let i = choose|i: int| 0 <= i < rest.len() && #[trigger] rest[i] == (key, v);
                assert(entries[i + 1] == (key, v));
            }
            if exists|i: int| 0 <= i < entries.len() && (#[trigger] entries[i]).0 == key {
                let i = choose|i: int| 0 <= i < entries.len() && (#[trigger] entries[i]).0 == key;
                assert(rest[i - 1].0 == key);
            }
        }
    }
}

/// Taking out a key takes out nothing else and adds nothing.
proof fn lemma_without<V>(entries: Seq<(u64, V)>, key: u64)
    ensures
        forall|i: int|
            0 <= i < without(entries, key).len() ==> {
                &&& (#[trigger] without(entries, key)[i]).0 != key
                &&& entries.contains(without(entries, key)[i])
            },
        distinct_keys(entries) ==> distinct_keys(without(entries, key)),
        distinct_keys(entries) ==> without(entries, key).len() == (if lookup(entries, key) is Some {
            entries.len() - 1
        } else {
            entries.len() as int
        }),
        forall|k: u64|
            k != key ==> #[trigger] lookup(without(entries, key), k) == lookup(entries, k),
        lookup(without(entries, key), key) is None,
    decreases entries.len(),
{
    if entries.len() > 0 {
        let rest = entries.skip(1);
        let out = without(entries, key);
        lemma_without(rest, key);
        assert forall|i: int| 0 <= i < out.len() implies {
            &&& (#[trigger] out[i]).0 != key
            &&& entries.contains(out[i])
        } by {
            if entries[0].0 == key {
                assert(rest.contains(out[i]));
                let j = choose|j: int| 0 <= j < rest.len() && rest[j] == out[i];
                assert(entries[j + 1] == out[i]);
            } else if i == 0 {
                assert(entries[0] == out[0]);
            } else {
                assert(out[i] == without(rest, key)[i - 1]);
                assert(rest.contains(out[i]));
                let j = choose|j: int| 0 <= j < rest.len() && rest[j] == out[i];
                assert(entries[j + 1] == out[i]);
            }
        }
        if distinct_keys(entries) {
            assert(distinct_keys(rest)) by {
                assert forall|i: int, j: int| 0 <= i < j < rest.len() implies (
                #[trigger] rest[i]).0 != (#[trigger] rest[j]).0 by {
                    assert(entries[i + 1].0 != entries[j + 1].0);
                }
            }
            lemma_lookup_index(rest, key);
            if entries[0].0 == key {
                if lookup(rest, key) is Some {
                    let j = choose|j: int| 0 <= j < rest.len() && (#[trigger] rest[j]).0 == key;
                    assert(entries[0].0 != entries[j + 1].0);
                }
            } else {
                assert forall|i: int, j: int| 0 <= i < j < out.len() implies (#[trigger] out[i]).0
                    != (#[trigger] out[j]).0 by {
                    assert(out[j] == without(rest, key)[j - 1]);
                    if i == 0 {
                        assert(rest.contains(out[j]));
                        let m = choose|m: int| 0 <= m < rest.len() && rest[m] == out[j];
                        assert(entries[0].0 != entries[m + 1].0);
                    } else {
                        assert(out[i] == without(rest, key)[i - 1]);
                    }
                }
            }
        }
        assert forall|k: u64| k != key implies #[trigger] lookup(out, k) == lookup(entries, k) by {
            assert(lookup(without(rest, key), k) == lookup(rest, k));
            if entries[0].0 != key {
                assert(out.skip(1) =~= without(rest, key));
            }
        }
        if entries[0].0 != key {
            assert(out.skip(1) =~= without(rest, key));
        }
    }
}

/// Reading changes nothing but the order: the cache keeps within its bounds, still holds every
/// value, and what was read is now the most recently used.
pub proof fn law_get<V>(cache: CacheView<V>, key: u64)
    requires
        cache.wf(),
    ensures
        cache.after_get(key).wf(),
        cache.after_get(key).entries.len() == cache.entries.len(),
        forall|k: u64| #[trigger] cache.after_get(key).value(k) == cache.value(k),
        cache.value(key) matches Some(v) ==> cache.after_get(key).entries[0] == (key, v),
{
    let entries = cache.entries;
    lemma_without(entries, key);
    if lookup(entries, key) is Some {
        let v = lookup(entries, key)->0;
        let rest = without(entries, key);
        lemma_fronted(rest, key, v);
        assert forall|k: u64| #[trigger] cache.after_get(key).value(k) == cache.value(k) by {
            assert(lookup(seq![(key, v)] + rest, k) == (if k == key {
                Some(v)
            } else {
                lookup(rest, k)
            }));
            if k != key {
                assert(lookup(rest, k) == lookup(entries, k));
            }
        }
    }
}

/// Putting an entry before others that do not have its key.
proof fn lemma_fronted<V>(rest: Seq<(u64, V)>, key: u64, value: V)
    requires
        distinct_keys(rest),
        forall|i: int| 0 <= i < rest.len() ==> (#[trigger] rest[i]).0 != key,
    ensures
        distinct_keys(seq![(key, value)] + rest),
        forall|k: u64|
            #[trigger] lookup(seq![(key, value)] + rest, k) == (if k == key {
                Some(value)
            } else {
                lookup(rest, k)
            }),
{
    let all = seq![(key, value)] + rest;
    assert(all.skip(1) =~= rest);
    assert forall|i: int, j: int| 0 <= i < j < all.len() implies (#[trigger] all[i]).0 != (
    #[trigger] all[j]).0 by {
        assert(all[j] == rest[j - 1]);
        if i > 0 {
            assert(all[i] == rest[i - 1]);
        }
    }
}

/// The key whose entry is dropped when `key` is stored: the least recently used one, where the
/// cache is full and has no entry for `key`.
pub open spec fn dropped_key<V>(cache: CacheView<V>, key: u64) -> Option<u64> {
    if cache.value(key) is None && cache.entries.len() == cache.capacity {
        Some(cache.entries.last().0)
    } else {
        None
    }
}

/// What was stored is found again; every other value is kept, but for the least recently used one
/// where the cache was full; and the cache keeps within its bounds.
pub proof fn law_put<V>(cache: CacheView<V>, key: u64, value: V)
    requires
        cache.wf(),
    ensures
        cache.after_put(key, value).wf(),
        cache.after_put(key, value).value(key) == Some(value),
        cache.after_put(key, value).entries[0] == (key, value),
        forall|k: u64|
            k != key ==> #[trigger] cache.after_put(key, value).value(k) == (if Some(k)
                == dropped_key(cache, key) {
                None
            } else {
                cache.value(k)
            }),
{
    let entries = cache.entries;
    lemma_without(entries, key);
    lemma_lookup_index(entries, key);
    if lookup(entries, key) is Some {
        lemma_fronted(without(entries, key), key, value);
    } else if entries.len() == cache.capacity {
        let kept = entries.drop_last();
        let gone = entries.last().0;
        assert(distinct_keys(kept));
        lemma_fronted(kept, key, value);
        assert forall|k: u64| k != key implies #[trigger] cache.after_put(key, value).value(k) == (
        if Some(k) == dropped_key(cache, key) {
            None
        } else {
            cache.value(k)
        }) by {
            lemma_drop_last(entries, k);
        }
    } else {
        lemma_fronted(entries, key, value);
    }
}

/// Dropping the last entry makes its key unknown and changes nothing for the others.
proof fn lemma_drop_last<V>(entries: Seq<(u64, V)>, k: u64)
    requires
        entries.len() > 0,
        distinct_keys(entries),
    ensures
        lookup(entries.drop_last(), k) == (if k == entries.last().0 {
            None
        } else {
            lookup(entries, k)
        }),
    decreases entries.len(),
{
    if entries.len() > 1 {
        let rest = entries.skip(1);
        assert(distinct_keys(rest)) by {
            assert forall|i: int, j: int| 0 <= i < j < rest.len() implies (#[trigger] rest[i]).0
                != (#[trigger] rest[j]).0 by {
                assert(entries[i + 1].0 != entries[j + 1].0);
            }
        }
        lemma_drop_last(rest, k);
        assert(entries.drop_last().skip(1) =~= rest.drop_last());
        assert(entries[0].0 != entries[entries.len() - 1].0);
    } else {
        assert(lookup(entries.skip(1), k) is None);
    }
}

/// A use of a cache: a height is read, or a value is stored for it.
pub enum Use<V> {
    Get(u64),
    Put(u64, V),
}

impl<V> Use<V> {
    /// The height that is read or stored.
    pub open spec fn key(self) -> u64 {
        match self {
            Use::Get(key) => key,
            Use::Put(key, _) => key,
        }
    }
}

/// The cache after some uses, in order.
pub open spec fn after_uses<V>(cache: CacheView<V>, uses: Seq<Use<V>>) -> CacheView<V>
    decreases uses.len(),
{
    if uses.len() == 0 {
        cache
    } else {
        let before = after_uses(cache, uses.drop_last());
        match uses.last() {
            Use::Get(key) => before.after_get(key),
            Use::Put(key, value) => before.after_put(key, value),
        }
    }
}

/// Taking out another key does not move an entry towards the end.
proof fn lemma_without_index<V>(entries: Seq<(u64, V)>, key: u64, i: int) -> (at: int)
    requires
        0 <= i < entries.len(),
        entries[i].0 != key,
    ensures
        0 <= at <= i,
        at < without(entries, key).len(),
        without(entries, key)[at] == entries[i],
    decreases entries.len(),
{
    if entries[0].0 == key {
        lemma_without_index(entries.skip(1), key, i - 1)
    } else if i == 0 {
        0
    } else {
        lemma_without_index(entries.skip(1), key, i - 1) + 1
    }
}

/// What was stored stays: it is still found after fewer uses of other heights than the cache has
/// room for entries, whatever those uses are.
pub proof fn law_recent_entries_stay<V>(
    cache: CacheView<V>,
    key: u64,
    value: V,
    uses: Seq<Use<V>>,
)
    requires
        cache.wf(),
        uses.len() < cache.capacity,
        forall|i: int| 0 <= i < uses.len() ==> (#[trigger] uses[i]).key() != key,
    ensures
        after_uses(cache.after_put(key, value), uses).wf(),
        after_uses(cache.after_put(key, value), uses).value(key) == Some(value),
{
    let _ = lemma_recent_index(cache, key, value, uses);
}

/// Each use of another height moves an entry at most one place towards the end.
proof fn lemma_recent_index<V>(
    cache: CacheView<V>,
    key: u64,
    value: V,
    uses: Seq<Use<V>>,
) -> (at: int)
    requires
        cache.wf(),
        uses.len() < cache.capacity,
        forall|i: int| 0 <= i < uses.len() ==> (#[trigger] uses[i]).key() != key,
    ensures
        ({
            let after = after_uses(cache.after_put(key, value), uses);
            &&& after.wf()
            &&& after.capacity == cache.capacity
            &&& after.value(key) == Some(value)
            &&& 0 <= at <= uses.len()
            &&& at < after.entries.len()
            &&& after.entries[at] == (key, value)
        }),
    decreases uses.len(),
{
    law_put(cache, key, value);
    if uses.len() == 0 {
        0
    } else {
        let at = lemma_recent_index(cache, key, value, uses.drop_last());
        let before = after_uses(cache.after_put(key, value), uses.drop_last());
        let last = uses.last();
        assert(last.key() != key);
        match last {
            Use::Get(other) => {
                law_get(before, other);
                if before.value(other) is Some {
                    lemma_without_index(before.entries, other, at) + 1
                } else {
                    at
                }
            },
            Use::Put(other, stored_value) => {
                law_put(before, other, stored_value);
                if before.value(other) is Some {
                    let next = lemma_without_index(before.entries, other, at) + 1;
                    assert(before.after_put(other, stored_value).value(key) == Some(value));
                    next
                } else {
                    if before.entries.len() == before.capacity {
                        let end = before.entries.len() - 1;
                        assert(before.entries[at].0 != before.entries[end].0);
                    }
                    assert(before.after_put(other, stored_value).value(key) == Some(value));
                    at + 1
                }
            },
        }
    }
}

/// Whether every entry satisfies `p`.
spec fn all_entries<V>(entries: Seq<(u64, V)>, p: spec_fn(V) -> bool) -> bool {
    forall|i: int| 0 <= i < entries.len() ==> p((#[trigger] entries[i]).1)
}

/// Reading and storing keep what holds of every value.
proof fn lemma_all_entries<V>(
    entries: Seq<(u64, V)>,
    p: spec_fn(V) -> bool,
    capacity: nat,
    key: u64,
    value: V,
)
    requires
        all_entries(entries, p),
        p(value),
        0 < capacity,
    ensures
        lookup(entries, key) matches Some(v) ==> p(v),
        all_entries(touched(entries, key), p),
        all_entries(stored(entries, capacity, key, value), p),
{
    lemma_lookup_index(entries, key);
    lemma_without(entries, key);
    let rest = without(entries, key);
    assert forall|i: int| 0 <= i < rest.len() implies p((#[trigger] rest[i]).1) by {
        assert(entries.contains(rest[i]));
    }
}

/// The hash and the bitmap that an entry of the block cache keeps.
spec fn block_of(entry: CacheEntry) -> BlockView {
    match entry {
        CacheEntry::Block(block) => block@,
        CacheEntry::Txs(_) => arbitrary(),
    }
}

/// The summaries that an entry of the transaction cache keeps.
spec fn txs_of(entry: CacheEntry) -> Seq<SummaryView> {
    match entry {
        CacheEntry::Txs(txs) => summary_views(txs@),
        CacheEntry::Block(_) => arbitrary(),
    }
}

/// The cache of served blocks.
pub struct BlockCache {
    lru: lru::LruCache<u64, CacheEntry>,
}

impl View for BlockCache {
    type V = CacheView<BlockView>;

    closed spec fn view(&self) -> CacheView<BlockView> {
        CacheView {
            capacity: lru_capacity(self.lru),
            entries: mapped(lru_entries(self.lru), |e: CacheEntry| block_of(e)),
        }
    }
}

impl BlockCache {
    /// Whether the cache keeps blocks only, and keeps within its bounds.
    pub closed spec fn wf(self) -> bool {
        &&& self@.wf()
        &&& all_entries(lru_entries(self.lru), |e: CacheEntry| e is Block)
    }

    /// A cache that is well-formed keeps within its bounds.
    pub proof fn lemma_wf(self)
        requires
            self.wf(),
        ensures
            self@.wf(),
    {
    }

    /// An empty cache for `capacity` blocks.
    pub fn new(capacity: usize) -> (r: BlockCache)
        requires
            0 < capacity <= usize::MAX / 128,
        ensures
            r.wf(),
            r@.capacity == capacity,
            r@.entries == Seq::<(u64, BlockView)>::empty(),
    {
        let r: BlockCache = BlockCache { lru: lru_new(capacity) };
        assert(r@.entries =~= Seq::<(u64, BlockView)>::empty());
        r
    }

    /// The block that the cache keeps for a height, which becomes the most recently used one.
    pub fn get(&mut self, height: u64) -> (r: Option<CachedBlock>)
        requires
            old(self).wf(),
        ensures
            final(self).wf(),
            final(self)@ == old(self)@.after_get(height),
            r is Some <==> old(self)@.value(height) is Some,
            r matches Some(block) ==> old(self)@.value(height) == Some(block@),
    {
        proof {
            let entries = lru_entries(self.lru);
            lemma_mapped(entries, |e: CacheEntry| block_of(e), height);
            lemma_all_entries(
                entries,
                |e: CacheEntry| e is Block,
                1,
                height,
                CacheEntry::Block(arbitrary()),
            );
            law_get(self@, height);
        }
        match lru_get(&mut self.lru, height) {
            Some(CacheEntry::Block(block)) => Some(block.clone()),
            _ => None,
        }
    }

    /// Keeps a block for a height.
    pub fn put(&mut self, height: u64, block: CachedBlock)
        requires
            old(self).wf(),
        ensures
            final(self).wf(),
            final(self)@ == old(self)@.after_put(height, block@),
    {
        let entry: CacheEntry = CacheEntry::Block(block);
        proof {
            let entries = lru_entries(self.lru);
            let capacity = lru_capacity(self.lru);
            lemma_mapped_stored(entries, |e: CacheEntry| block_of(e), capacity, height, entry);
            lemma_all_entries(entries, |e: CacheEntry| e is Block, capacity, height, entry);
            law_put(self@, height, block@);
        }
        let _ = lru_put(&mut self.lru, height, entry);
    }
}

/// The cache of served transaction lists.
pub struct TxCache {
    lru: lru::LruCache<u64, CacheEntry>,
}

impl View for TxCache {
    type V = CacheView<Seq<SummaryView>>;

    closed spec fn view(&self) -> CacheView<Seq<SummaryView>> {
        CacheView {
            capacity: lru_capacity(self.lru),
            entries: mapped(lru_entries(self.lru), |e: CacheEntry| txs_of(e)),
        }
    }
}

impl TxCache {
    /// Whether the cache keeps transaction lists only, and keeps within its bounds.
    pub closed spec fn wf(self) -> bool {
        &&& self@.wf()
        &&& all_entries(lru_entries(self.lru), |e: CacheEntry| e is Txs)
    }

    /// A cache that is well-formed keeps within its bounds.
    pub proof fn lemma_wf(self)
        requires
            self.wf(),
        ensures
            self@.wf(),
    {
    }

    /// An empty cache for `capacity` transaction lists.
    pub fn new(capacity: usize) -> (r: TxCache)
        requires
            0 < capacity <= usize::MAX / 128,
        ensures
            r.wf(),
            r@.capacity == capacity,
            r@.entries == Seq::<(u64, Seq<SummaryView>)>::empty(),
    {
        let r: TxCache = TxCache { lru: lru_new(capacity) };
        assert(r@.entries =~= Seq::<(u64, Seq<SummaryView>)>::empty());
        r
    }

    /// The transaction list that the cache keeps for a height, which becomes the most recently
    /// used one.
    pub fn get(&mut self, height: u64) -> (r: Option<Vec<TxSummary>>)
        requires
            old(self).wf(),
        ensures
            final(self).wf(),
            final(self)@ == old(self)@.after_get(height),
            r is Some <==> old(self)@.value(height) is Some,
            r matches Some(txs) ==> old(self)@.value(height) == Some(summary_views(txs@)),
    {
        proof {
            let entries = lru_entries(self.lru);
            lemma_mapped(entries, |e: CacheEntry| txs_of(e), height);
            lemma_all_entries(
                entries,
                |e: CacheEntry| e is Txs,
                1,
                height,
                CacheEntry::Txs(arbitrary()),
            );
            law_get(self@, height);
        }
        match lru_get(&mut self.lru, height) {
            Some(CacheEntry::Txs(txs)) => Some(clone_summaries(txs)),
            _ => None,
        }
    }

    /// Keeps a transaction list for a height.
    pub fn put(&mut self, height: u64, txs: Vec<TxSummary>)
        requires
            old(self).wf(),
        ensures
            final(self).wf(),
            final(self)@ == old(self)@.after_put(height, summary_views(txs@)),
    {
        let entry: CacheEntry = CacheEntry::Txs(txs);
        proof {
            let entries = lru_entries(self.lru);
            let capacity = lru_capacity(self.lru);
            lemma_mapped_stored(entries, |e: CacheEntry| txs_of(e), capacity, height, entry);
            lemma_all_entries(entries, |e: CacheEntry| e is Txs, capacity, height, entry);
            law_put(self@, height, summary_views(txs@));
        }
        let _ = lru_put(&mut self.lru, height, entry);
    }
}

/// What a cache holds for a height is the value of the entry for that height.
pub proof fn law_value<V>(cache: CacheView<V>, key: u64, value: V)
    requires
        cache.wf(),
    ensures
        cache.value(key) == Some(value) <==> cache.entries.contains((key, value)),
        cache.value(key) is None <==> forall|v: V| !#[trigger] cache.entries.contains((key, v)),
{
    let entries = cache.entries;
    lemma_lookup_index(entries, key);
    if entries.contains((key, value)) {
        let i = choose|i: int| 0 <= i < entries.len() && entries[i] == (key, value);
        assert(entries[i].0 == key);
        let v = lookup(entries, key)->0;
        let j = choose|j: int| 0 <= j < entries.len() && #[trigger] entries[j] == (key, v);
        if i < j {
            assert(entries[i].0 != entries[j].0);
        } else if j < i {
            assert(entries[j].0 != entries[i].0);
        }
    }
    if lookup(entries, key) is Some {
        assert(entries.contains((key, lookup(entries, key)->0)));
    } else {
        assert forall|v: V| !#[trigger] entries.contains((key, v)) by {
            if entries.contains((key, v)) {
                let i = choose|i: int| 0 <= i < entries.len() && entries[i] == (key, v);
                assert(entries[i].0 == key);
            }
        }
    }
}

/// Reading or storing for a height puts its entry in front of the others, which keep their order;
/// and where that is one entry too many, the one at the end goes.
pub proof fn law_order<V>(cache: CacheView<V>, key: u64, value: V)
    requires
        cache.wf(),
    ensures
        ({
            let others = cache.entries.filter(|e: (u64, V)| e.0 != key);
            let kept = if others.len() < cache.capacity {
                others
            } else {
                others.drop_last()
            };
            &&& cache.after_get(key).capacity == cache.capacity
            &&& cache.after_get(key).entries == (match cache.value(key) {
                Some(v) => seq![(key, v)] + others,
                None => cache.entries,
            })
            &&& cache.after_put(key, value).capacity == cache.capacity
            &&& cache.after_put(key, value).entries == seq![(key, value)] + kept
        }),
{
    lemma_without_filter(cache.entries, key);
    lemma_without(cache.entries, key);
    lemma_absent(cache.entries, key);
}

/// Taking out a key keeps the entries for all others.
proof fn lemma_without_filter<V>(entries: Seq<(u64, V)>, key: u64)
    ensures
        without(entries, key) == entries.filter(|e: (u64, V)| e.0 != key),
    decreases entries.len(),
{
    let other = |e: (u64, V)| e.0 != key;
    reveal(Seq::filter);
    if entries.len() > 0 {
        let rest = entries.skip(1);
        lemma_without_filter(rest, key);
        let first = seq![entries[0]];
        assert(entries =~= first + rest);
        Seq::filter_distributes_over_add(first, rest, other);
        assert(first.drop_last() =~= Seq::<(u64, V)>::empty());
        assert(Seq::<(u64, V)>::empty().filter(other) =~= Seq::<(u64, V)>::empty());
        if entries[0].0 == key {
            assert(first.filter(other) =~= Seq::<(u64, V)>::empty());
            assert(without(entries, key) =~= first.filter(other) + rest.filter(other));
        } else {
            assert(first.filter(other) =~= first);
        }
    }
}

/// Nothing is taken out for a key that has no entry.
proof fn lemma_absent<V>(entries: Seq<(u64, V)>, key: u64)
    ensures
        lookup(entries, key) is None ==> without(entries, key) == entries,
    decreases entries.len(),
{
    if entries.len() > 0 && lookup(entries, key) is None {
        lemma_absent(entries.skip(1), key);
        assert(without(entries, key) =~= entries);
    }
}

/// A kept block is described by its hash and its whole bitmap.
pub proof fn law_block_view(block: CachedBlock)
    ensures
        block@.hash == block.hash@,
        block@.payload == block.payload@,
{
}

} // verus!

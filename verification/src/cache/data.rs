//! Data block cache: file data kept in memory by block, evicting the least
//! recently used block when the memory limit would be exceeded.
//!
//! Blocks pushed out of memory are handed back to the caller. When a cache
//! directory is configured, the cache also keeps the index of a disk tier
//! (see `disk`): the caller asks it where a block may go or be found, and
//! moves the files.

use bytes::Bytes;
use vstd::prelude::*;

use crate::cache::disk::{records, reserves, DiskEntryView, DiskIndex};
use crate::config::CacheConfig;
use crate::utils::buf::{bytes_clone, bytes_contents, bytes_len};
use crate::utils::metrics::Metrics;

verus! {

/// Block key for cache lookup
#[derive(Debug, Clone, Copy, PartialEq, Eq, Hash, Structural)]
pub struct BlockKey {
    /// Inode number
    pub inode: u64,
    /// Block offset (aligned to block size)
    pub offset: u64,
}

/// The key of the block that holds byte `offset` of `inode`.
pub open spec fn key_for(inode: u64, offset: u64, block_size: u64) -> BlockKey {
    BlockKey { inode, offset: ((offset / block_size) * block_size) as u64 }
}

impl BlockKey {
    /// Create a new block key: the offset is rounded down to a multiple of the block size.
    pub fn new(inode: u64, offset: u64, block_size: u64) -> (r: Self)
        requires
            block_size > 0,
        ensures
            r == key_for(inode, offset, block_size),
            r.offset <= offset,
    {
        proof {
            assert((offset / block_size) * block_size <= offset) by (nonlinear_arith)
                requires
                    block_size > 0,
            ;
        }
        BlockKey { inode, offset: (offset / block_size) * block_size }
    }

    /// Get block number
    pub fn block_num(&self, block_size: u64) -> (r: u64)
        requires
            block_size > 0,
        ensures
            r == self.offset / block_size,
    {
        self.offset / block_size
    }
}

/// A cached block: its data, when it was last used (on the cache's use
/// counter) and how often it was read.
struct Slot {
    key: BlockKey,
    data: Bytes,
    last_access: u64,
    access_count: u64,
}

/// What a cached block holds.
pub struct SlotView {
    pub key: BlockKey,
    pub data: Seq<u8>,
    pub last_access: u64,
}

spec fn slot_view(s: Slot) -> SlotView {
    SlotView { key: s.key, data: bytes_contents(s.data), last_access: s.last_access }
}

spec fn slots_view(s: Seq<Slot>) -> Seq<SlotView> {
    s.map_values(|x: Slot| slot_view(x))
}

/// Position of the last block with key `k`, or -1.
pub open spec fn index_of(s: Seq<SlotView>, k: BlockKey) -> int
    decreases s.len(),
{
    if s.len() == 0 {
        -1
    } else if s.last().key == k {
        s.len() - 1
    } else {
        index_of(s.drop_last(), k)
    }
}

/// Total number of bytes held by the blocks.
pub open spec fn total_bytes(s: Seq<SlotView>) -> nat
    decreases s.len(),
{
    if s.len() == 0 {
        0
    } else {
        total_bytes(s.drop_last()) + s.last().data.len()
    }
}

/// No two blocks share a key.
pub open spec fn keys_unique(s: Seq<SlotView>) -> bool {
    forall|i: int, j: int| 0 <= i < s.len() && 0 <= j < s.len() && i != j ==> s[i].key != s[j].key
}

proof fn lemma_index_of(s: Seq<SlotView>, k: BlockKey)
    ensures
        -1 <= index_of(s, k) < s.len(),
        index_of(s, k) >= 0 ==> s[index_of(s, k)].key == k,
        index_of(s, k) == -1 <==> forall|j: int| 0 <= j < s.len() ==> s[j].key != k,
        keys_unique(s) ==> forall|j: int| 0 <= j < s.len() && s[j].key == k ==> index_of(s, k) == j,
    decreases s.len(),
{
    if s.len() > 0 {
        lemma_index_of(s.drop_last(), k);
        if s.last().key != k {
            assert forall|j: int| 0 <= j < s.len() - 1 implies s.drop_last()[j] == s[j] by {}
            if keys_unique(s) {
                assert(keys_unique(s.drop_last()));
            }
        }
    }
}

proof fn lemma_index_of_same_keys(s1: Seq<SlotView>, s2: Seq<SlotView>, k: BlockKey)
    requires
        s1.len() == s2.len(),
        forall|j: int| 0 <= j < s1.len() ==> #[trigger] s1[j].key == s2[j].key,
    ensures
        index_of(s1, k) == index_of(s2, k),
    decreases s1.len(),
{
    if s1.len() > 0 {
        lemma_index_of_same_keys(s1.drop_last(), s2.drop_last(), k);
    }
}

proof fn lemma_total_remove(s: Seq<SlotView>, i: int)
    requires
        0 <= i < s.len(),
    ensures
        total_bytes(s.remove(i)) + s[i].data.len() == total_bytes(s),
    decreases s.len(),
{
    if i < s.len() - 1 {
        assert(s.remove(i).drop_last() =~= s.drop_last().remove(i));
        lemma_total_remove(s.drop_last(), i);
    } else {
        assert(s.remove(i) =~= s.drop_last());
    }
}

proof fn lemma_total_update(s: Seq<SlotView>, i: int, x: SlotView)
    requires
        0 <= i < s.len(),
    ensures
        total_bytes(s.update(i, x)) + s[i].data.len() == total_bytes(s) + x.data.len(),
    decreases s.len(),
{
    if i < s.len() - 1 {
        assert(s.update(i, x).drop_last() =~= s.drop_last().update(i, x));
        lemma_total_update(s.drop_last(), i, x);
    } else {
        assert(s.update(i, x).drop_last() =~= s.drop_last());
    }
}

/// The blocks that a sequence of cached blocks holds, by key.
pub open spec fn blocks_of(s: Seq<SlotView>) -> Map<BlockKey, Seq<u8>> {
    Map::new(|k: BlockKey| index_of(s, k) >= 0, |k: BlockKey| s[index_of(s, k)].data)
}

/// The use-counter reading at which each block was last used, by key.
pub open spec fn ticks_of(s: Seq<SlotView>) -> Map<BlockKey, u64> {
    Map::new(|k: BlockKey| index_of(s, k) >= 0, |k: BlockKey| s[index_of(s, k)].last_access)
}

proof fn lemma_update_same_key(s: Seq<SlotView>, i: int, x: SlotView)
    requires
        keys_unique(s),
        0 <= i < s.len(),
        x.key == s[i].key,
    ensures
        keys_unique(s.update(i, x)),
        blocks_of(s.update(i, x)) == blocks_of(s).insert(x.key, x.data),
        ticks_of(s.update(i, x)) == ticks_of(s).insert(x.key, x.last_access),
        total_bytes(s.update(i, x)) + s[i].data.len() == total_bytes(s) + x.data.len(),
{
    let t = s.update(i, x);
    lemma_total_update(s, i, x);
    assert(keys_unique(t));
    assert forall|k: BlockKey| index_of(t, k) == #[trigger] index_of(s, k) by {
        lemma_index_of_same_keys(t, s, k);
    }
    lemma_index_of(s, x.key);
    assert forall|k: BlockKey| index_of(s, k) >= 0 implies #[trigger] t[index_of(t, k)] == (if k == x.key {
        x
    } else {
        s[index_of(s, k)]
    }) by {
        lemma_index_of(s, k);
    }
    assert(blocks_of(t) =~= blocks_of(s).insert(x.key, x.data));
    assert(ticks_of(t) =~= ticks_of(s).insert(x.key, x.last_access));
}

proof fn lemma_push_new_key(s: Seq<SlotView>, x: SlotView)
    requires
        keys_unique(s),
        index_of(s, x.key) == -1,
    ensures
        keys_unique(s.push(x)),
        blocks_of(s.push(x)) == blocks_of(s).insert(x.key, x.data),
        ticks_of(s.push(x)) == ticks_of(s).insert(x.key, x.last_access),
        total_bytes(s.push(x)) == total_bytes(s) + x.data.len(),
{
    let t = s.push(x);
    lemma_index_of(s, x.key);
    assert(t.drop_last() =~= s);
    assert(keys_unique(t));
    assert forall|k: BlockKey| #[trigger] index_of(t, k) == (if k == x.key {
        s.len() as int
    } else {
        index_of(s, k)
    }) by {}
    assert forall|k: BlockKey| index_of(s, k) >= 0 implies #[trigger] t[index_of(s, k)] == s[index_of(s, k)] by {
        lemma_index_of(s, k);
    }
    assert(blocks_of(t) =~= blocks_of(s).insert(x.key, x.data));
    assert(ticks_of(t) =~= ticks_of(s).insert(x.key, x.last_access));
}

proof fn lemma_remove_key(s: Seq<SlotView>, i: int)
    requires
        keys_unique(s),
        0 <= i < s.len(),
    ensures
        keys_unique(s.remove(i)),
        blocks_of(s.remove(i)) == blocks_of(s).remove(s[i].key),
        ticks_of(s.remove(i)) == ticks_of(s).remove(s[i].key),
        total_bytes(s.remove(i)) + s[i].data.len() == total_bytes(s),
    decreases s.len(),
{
    let t = s.remove(i);
    lemma_total_remove(s, i);
    assert(keys_unique(t));
    assert forall|k: BlockKey| k != s[i].key implies index_of(t, k) >= 0 <==> index_of(s, k) >= 0 by {
        lemma_index_of(s, k);
        lemma_index_of(t, k);
        if index_of(t, k) >= 0 {
            let j = index_of(t, k);
            if j < i {
                assert(s[j] == t[j]);
            } else {
                assert(s[j + 1] == t[j]);
            }
        }
        if index_of(s, k) >= 0 {
            let j = index_of(s, k);
            if j < i {
                assert(s[j] == t[j]);
            } else {
                assert(s[j] == t[j - 1]);
            }
        }
    }
    assert forall|k: BlockKey| k != s[i].key && index_of(s, k) >= 0 implies
        t[index_of(t, k)] == s[index_of(s, k)] by {
        lemma_index_of(s, k);
        lemma_index_of(t, k);
        let j = index_of(s, k);
        if j < i {
            assert(s[j] == t[j]);
        } else {
            assert(s[j] == t[j - 1]);
        }
    }
    lemma_index_of(t, s[i].key);
    assert forall|j: int| 0 <= j < t.len() implies t[j].key != s[i].key by {
        if j < i {
            assert(t[j] == s[j]);
        } else {
            assert(t[j] == s[j + 1]);
        }
    }
    assert(blocks_of(t) =~= blocks_of(s).remove(s[i].key));
    assert(ticks_of(t) =~= ticks_of(s).remove(s[i].key));
}

proof fn lemma_block_count(s: Seq<SlotView>)
    requires
        keys_unique(s),
    ensures
        blocks_of(s).len() == s.len(),
{
    let ks = s.map_values(|x: SlotView| x.key);
    assert(ks.no_duplicates());
    assert forall|k: BlockKey| #[trigger] blocks_of(s).contains_key(k) <==> ks.to_set().contains(k) by {
        lemma_index_of(s, k);
        if ks.to_set().contains(k) {
            let j = choose|j: int| 0 <= j < ks.len() && ks[j] == k;
            assert(s[j].key == k);
        }
        if blocks_of(s).contains_key(k) {
            assert(ks[index_of(s, k)] == k);
        }
    }
    assert(blocks_of(s).dom() =~= ks.to_set());
    ks.unique_seq_to_set();
}

/// After a block is stored, the cache holds exactly that data under its key,
/// so a read of it is a hit that gives the data back.
pub proof fn lemma_stored_block_is_cached(
    before: DataCache,
    after: DataCache,
    key: BlockKey,
    data: Seq<u8>,
    evicted: Seq<EvictedBlock>,
)
    requires
        stores(before, after, key, data, evicted),
    ensures
        after.blocks().contains_key(key),
        after.blocks()[key] == data,
{
}

proof fn lemma_evicted_bytes_last(evicted: Seq<EvictedBlock>)
    requires
        evicted.len() > 0,
    ensures
        bytes_contents(evicted.last().data).len() <= evicted_bytes(evicted),
{
}

/// What a read of the block holding byte `offset` of `inode` gives from
/// cache `c`: the cached data when the block is cached, nothing otherwise.
pub open spec fn read_gives(c: DataCache, inode: u64, offset: u64, r: Option<Seq<u8>>) -> bool {
    let key = key_for(inode, offset, c.bsize());
    if c.blocks().contains_key(key) {
        r == Some(c.blocks()[key])
    } else {
        r is None
    }
}

/// The contents of an optional block.
pub open spec fn contents_of(r: Option<Bytes>) -> Option<Seq<u8>> {
    match r {
        Some(b) => Some(bytes_contents(b)),
        None => None,
    }
}

/// Read-after-write: reading the block right after it was stored gives back
/// exactly the data stored, as a hit.
pub proof fn lemma_read_after_put(
    before: DataCache,
    after: DataCache,
    inode: u64,
    offset: u64,
    data: Seq<u8>,
    evicted: Seq<EvictedBlock>,
    r: Option<Seq<u8>>,
)
    requires
        stores(before, after, key_for(inode, offset, before.bsize()), data, evicted),
        read_gives(after, inode, offset, r),
    ensures
        r == Some(data),
{
}

/// Once the blocks of an inode are invalidated, a read of any of its blocks
/// misses, and a read of a block of another inode gives what it gave before.
pub proof fn lemma_read_after_invalidate(
    before: DataCache,
    after: DataCache,
    inode: u64,
    other: u64,
    offset: u64,
    r: Option<Seq<u8>>,
)
    requires
        after.bsize() == before.bsize(),
        after.blocks() == before.blocks().restrict(Set::new(|k: BlockKey| k.inode != inode)),
        read_gives(after, other, offset, r),
    ensures
        other == inode ==> r is None,
        other != inode ==> read_gives(before, other, offset, r),
{
}

/// The memory usage is always the total size of the blocks cached.
pub proof fn lemma_usage_is_cached_bytes(c: DataCache)
    requires
        c.wf(),
    ensures
        c.usage() == c.stored(),
{
}

/// Storing a block that fits within the memory limit next to what is in use
/// pushes nothing out.
pub proof fn lemma_fitting_block_evicts_nothing(
    before: DataCache,
    after: DataCache,
    key: BlockKey,
    data: Seq<u8>,
    evicted: Seq<EvictedBlock>,
)
    requires
        stores(before, after, key, data, evicted),
        before.usage() + data.len() <= before.limit(),
    ensures
        evicted.len() == 0,
{
    if evicted.len() > 0 {
        lemma_evicted_bytes_last(evicted);
    }
}

/// Replacing a cached block when the new one fits next to what is in use
/// pushes nothing out: the same keys stay cached, each with its block but the
/// replaced one, and the usage changes by the difference of the two sizes.
pub proof fn lemma_replacing_block_keeps_entries(
    before: DataCache,
    after: DataCache,
    key: BlockKey,
    data: Seq<u8>,
    evicted: Seq<EvictedBlock>,
)
    requires
        stores(before, after, key, data, evicted),
        before.blocks().contains_key(key),
        before.usage() + data.len() <= before.limit(),
    ensures
        evicted.len() == 0,
        after.blocks() == before.blocks().insert(key, data),
        after.blocks().dom() == before.blocks().dom(),
        after.blocks().len() == before.blocks().len(),
        after.usage() == before.usage() - before.blocks()[key].len() + data.len(),
{
    lemma_fitting_block_evicts_nothing(before, after, key, data, evicted);
    let rest = before.blocks().remove(key);
    assert(evicted_keys(evicted) =~= Set::<BlockKey>::empty());
    assert(rest.remove_keys(evicted_keys(evicted)) =~= rest);
    assert(after.blocks() =~= before.blocks().insert(key, data));
    assert(after.blocks().dom() =~= before.blocks().dom());
}

/// Every block pushed out to make room was used no later than every block
/// that stayed.
pub proof fn lemma_eviction_is_least_recent_first(
    before: DataCache,
    after: DataCache,
    key: BlockKey,
    data: Seq<u8>,
    evicted: Seq<EvictedBlock>,
    i: int,
    kept: BlockKey,
)
    requires
        stores(before, after, key, data, evicted),
        0 <= i < evicted.len(),
        before.blocks().contains_key(kept),
        after.blocks().contains_key(kept),
        kept != key,
    ensures
        before.ticks()[evicted[i].key] <= before.ticks()[kept],
{
    assert(!evicted_keys(evicted).contains(kept));
}

/// Data cache statistics
#[derive(Debug, Clone, Copy)]
pub struct DataCacheStats {
    pub memory_entries: usize,
    pub memory_usage: u64,
    pub memory_limit: u64,
    pub disk_entries: usize,
}

/// Data block cache
pub struct DataCache {
    /// Cached blocks, each key once
    slots: Vec<Slot>,
    /// Block size
    block_size: u64,
    /// Memory limit in bytes
    memory_limit: u64,
    /// Bytes counted as in use
    memory_usage: u64,
    /// Use counter: increases with each read or store
    clock: u64,
    /// Index of the disk tier, when there is one
    disk: Option<DiskIndex>,
}

/// A block pushed out of the memory cache.
pub struct EvictedBlock {
    pub key: BlockKey,
    pub data: Bytes,
}

/// The keys of a list of evicted blocks.
pub open spec fn evicted_keys(evicted: Seq<EvictedBlock>) -> Set<BlockKey> {
    Set::new(|k: BlockKey| exists|i: int| 0 <= i < evicted.len() && #[trigger] evicted[i].key == k)
}

/// Total size of a list of evicted blocks.
pub open spec fn evicted_bytes(evicted: Seq<EvictedBlock>) -> nat
    decreases evicted.len(),
{
    if evicted.len() == 0 {
        0
    } else {
        evicted_bytes(evicted.drop_last()) + bytes_contents(evicted.last().data).len()
    }
}

/// Each evicted block was cached in `before` with the same contents, and no
/// key is evicted twice.
pub open spec fn drawn_from(evicted: Seq<EvictedBlock>, before: Map<BlockKey, Seq<u8>>) -> bool {
    &&& forall|i: int|
        0 <= i < evicted.len() ==> before.contains_key(#[trigger] evicted[i].key) && bytes_contents(
            evicted[i].data,
        ) == before[evicted[i].key]
    &&& forall|i: int, j: int|
        0 <= i < j < evicted.len() ==> #[trigger] evicted[i].key != #[trigger] evicted[j].key
}

/// Every evicted block was used no later than every block of `before` that
/// was kept.
pub open spec fn least_recent_first(
    evicted: Seq<EvictedBlock>,
    before: Map<BlockKey, Seq<u8>>,
    ticks: Map<BlockKey, u64>,
) -> bool {
    forall|i: int, k: BlockKey|
        0 <= i < evicted.len() && before.contains_key(k) && !evicted_keys(evicted).contains(k)
            ==> ticks[#[trigger] evicted[i].key] <= #[trigger] ticks[k]
}

/// The size of the block that storing under `key` replaces in `before`
/// (zero when none is cached there).
pub open spec fn replaced_bytes(before: DataCache, key: BlockKey) -> nat {
    if before.blocks().contains_key(key) {
        before.blocks()[key].len()
    } else {
        0
    }
}

/// What storing `data` under `key` did to the cache: the block held under
/// `key`, if any, was replaced, and the blocks `evicted` were pushed out
/// first, least recently used first, only while the memory limit would
/// otherwise be exceeded. The memory usage goes down by the replaced and
/// evicted bytes and up by the new ones.
pub open spec fn stores(
    before: DataCache,
    after: DataCache,
    key: BlockKey,
    data: Seq<u8>,
    evicted: Seq<EvictedBlock>,
) -> bool {
    let rest = before.blocks().remove(key);
    let kept = rest.remove_keys(evicted_keys(evicted));
    &&& after.disk_tier() == before.disk_tier()
    &&& after.limit() == before.limit()
    &&& after.bsize() == before.bsize()
    &&& after.now() >= before.now()
    &&& drawn_from(evicted, rest)
    &&& least_recent_first(evicted, rest, before.ticks())
    &&& after.blocks() == kept.insert(key, data)
    &&& after.ticks() == before.ticks().remove(key).remove_keys(evicted_keys(evicted)).insert(key, after.now())
    &&& after.usage() + evicted_bytes(evicted) + replaced_bytes(before, key) == before.usage() + data.len()
    &&& after.usage() <= after.limit() || kept.is_empty()
    &&& evicted.len() > 0 ==> after.usage() + bytes_contents(evicted.last().data).len() > after.limit()
}

/// The blocks an invalidation removes: all blocks of an inode, or the
/// blocks of an inode whose block numbers lie in `first..end`.
enum Selection {
    Inode(u64),
    Blocks { inode: u64, first: u64, end: u64 },
}

spec fn selected(sel: Selection, k: BlockKey, block_size: u64) -> bool {
    match sel {
        Selection::Inode(inode) => k.inode == inode,
        Selection::Blocks { inode, first, end } => {
            &&& k.inode == inode
            &&& k.offset % block_size == 0
            &&& first <= k.offset / block_size < end
        },
    }
}

fn is_selected(sel: &Selection, k: BlockKey, block_size: u64) -> (r: bool)
    requires
        block_size > 0 || sel is Inode,
    ensures
        r == selected(*sel, k, block_size),
{
    match sel {
        Selection::Inode(inode) => k.inode == *inode,
        Selection::Blocks { inode, first, end } => {
            k.inode == *inode && k.offset % block_size == 0 && *first <= k.offset / block_size
                && k.offset / block_size < *end
        },
    }
}

/// The blocks of `m` that lie in block range `first..end` of `inode`.
pub open spec fn in_block_range(k: BlockKey, inode: u64, first: int, end: int, block_size: u64) -> bool {
    &&& k.inode == inode
    &&& k.offset % block_size == 0
    &&& first <= k.offset / block_size < end
}

impl DataCache {
    closed spec fn seq(&self) -> Seq<SlotView> {
        slots_view(self.slots@)
    }

    /// The cached blocks, by key.
    pub closed spec fn blocks(&self) -> Map<BlockKey, Seq<u8>> {
        blocks_of(self.seq())
    }

    /// When each cached block was last used, on the cache's use counter.
    pub closed spec fn ticks(&self) -> Map<BlockKey, u64> {
        ticks_of(self.seq())
    }

    /// The total size of the cached blocks.
    pub closed spec fn stored(&self) -> nat {
        total_bytes(self.seq())
    }

    /// The number of bytes counted as in use.
    pub closed spec fn usage(&self) -> u64 {
        self.memory_usage
    }

    /// The memory limit.
    pub closed spec fn limit(&self) -> u64 {
        self.memory_limit
    }

    /// The block size.
    pub closed spec fn bsize(&self) -> u64 {
        self.block_size
    }

    /// The use counter.
    pub closed spec fn now(&self) -> u64 {
        self.clock
    }

    /// Each key is cached once and the bytes counted as in use are at least
    /// the bytes stored.
    pub closed spec fn wf(&self) -> bool {
        &&& keys_unique(self.seq())
        &&& self.memory_usage == total_bytes(self.seq())
        &&& forall|i: int| 0 <= i < self.slots@.len() ==> #[trigger] self.slots@[i].last_access <= self.clock
        &&& self.disk matches Some(d) ==> d.wf()
    }

    /// The index of the disk tier, when there is one.
    pub closed spec fn disk_tier(&self) -> Option<DiskIndex> {
        self.disk
    }

    /// Create a new, empty data cache.
    pub fn new(config: &CacheConfig) -> (r: Self)
        ensures
            r.wf(),
            r.blocks() == Map::<BlockKey, Seq<u8>>::empty(),
            r.usage() == 0,
            r.limit() == config.memory_limit,
            r.bsize() == config.block_size,
            config.cache_dir is None ==> r.disk_tier() is None,
            config.cache_dir is Some ==> (r.disk_tier() matches Some(d) && d.entries() == Map::<
                BlockKey,
                DiskEntryView,
            >::empty() && d.usage() == 0 && d.limit() == config.disk_limit),
    {
        let disk = match &config.cache_dir {
            Some(_) => Some(DiskIndex::new(config.disk_limit)),
            None => None,
        };
        let r = DataCache {
            slots: Vec::new(),
            block_size: config.block_size,
            memory_limit: config.memory_limit,
            memory_usage: 0,
            clock: 0,
            disk,
        };
        assert(r.blocks() =~= Map::<BlockKey, Seq<u8>>::empty());
        r
    }

    /// Get block size
    pub fn block_size(&self) -> (r: u64)
        ensures
            r == self.bsize(),
    {
        self.block_size
    }

    /// Position of the block with key `key`, if cached.
    fn find(&self, key: BlockKey) -> (r: Option<usize>)
        requires
            self.wf(),
        ensures
            match r {
                Some(i) => i < self.slots@.len() && self.slots@[i as int].key == key && index_of(self.seq(), key)
                    == i,
                None => index_of(self.seq(), key) == -1,
            },
    {
        let mut i: usize = 0;
        while i < self.slots.len()
            invariant
                self.wf(),
                i <= self.slots@.len(),
                forall|j: int| 0 <= j < i ==> self.slots@[j].key != key,
            decreases self.slots@.len() - i,
        {
            if self.slots[i].key == key {
                proof {
                    lemma_index_of(self.seq(), key);
                    assert(self.seq()[i as int].key == key);
                }
                return Some(i);
            }
            i = i + 1;
        }
        proof {
            lemma_index_of(self.seq(), key);
            assert forall|j: int| 0 <= j < self.seq().len() implies self.seq()[j].key != key by {
                assert(self.seq()[j].key == self.slots@[j].key);
            }
        }
        None
    }

    /// Look a block up in memory. A hit marks the block as just used and is
    /// counted; a miss changes nothing.
    pub fn lookup(&mut self, inode: u64, offset: u64, metrics: &mut Metrics) -> (r: Option<Bytes>)
        requires
            old(self).wf(),
            old(self).bsize() > 0,
        ensures
            final(self).wf(),
            final(self).disk_tier() == old(self).disk_tier(),
            ({
                let key = key_for(inode, offset, old(self).bsize());
                &&& old(self).blocks().contains_key(key) ==> {
                    &&& r is Some
                    &&& bytes_contents(r->0) == old(self).blocks()[key]
                    &&& final(self).blocks() == old(self).blocks()
                    &&& final(self).usage() == old(self).usage()
                    &&& final(self).limit() == old(self).limit()
                    &&& final(self).bsize() == old(self).bsize()
                    &&& final(self).ticks() == old(self).ticks().insert(key, final(self).now())
                    &&& final(self).now() >= old(self).now()
                    &&& (*final(metrics)).same_except(&*old(metrics), 2)
                    &&& final(metrics).read_cache_hits == crate::utils::metrics::wrapped(old(metrics).read_cache_hits, 1)
                }
                &&& !old(self).blocks().contains_key(key) ==> {
                    &&& r is None
                    &&& *final(self) == *old(self)
                    &&& *final(metrics) == *old(metrics)
                }
            }),
    {
        let key = BlockKey::new(inode, offset, self.block_size);
        match self.find(key) {
            Some(i) => {
                if self.clock < u64::MAX {
                    self.clock = self.clock + 1;
                }
                let data = bytes_clone(&self.slots[i].data);
                let count = self.slots[i].access_count;
                let touched = Slot {
                    key,
                    data: bytes_clone(&self.slots[i].data),
                    last_access: self.clock,
                    access_count: if count < u64::MAX { count + 1 } else { count },
                };
                let ghost s0 = self.seq();
                self.slots.set(i, touched);
                proof {
                    let x = SlotView { key, data: s0[i as int].data, last_access: self.clock };
                    assert(self.seq() =~= s0.update(i as int, x));
                    lemma_update_same_key(s0, i as int, x);
                    lemma_index_of(s0, key);
                    assert(old(self).blocks().insert(key, x.data) =~= old(self).blocks());
                }
                metrics.inc_read_cache_hit();
                Some(data)
            },
            None => None,
        }
    }

    /// Get a block from the memory cache, counting a hit or a miss; a hit
    /// marks the block as just used.
    pub fn get(&mut self, inode: u64, offset: u64, metrics: &mut Metrics) -> (r: Option<Bytes>)
        requires
            old(self).wf(),
            old(self).bsize() > 0,
        ensures
            final(self).wf(),
            final(self).blocks() == old(self).blocks(),
            final(self).usage() == old(self).usage(),
            final(self).limit() == old(self).limit(),
            final(self).bsize() == old(self).bsize(),
            final(self).disk_tier() == old(self).disk_tier(),
            read_gives(*old(self), inode, offset, contents_of(r)),
            ({
                let key = key_for(inode, offset, old(self).bsize());
                &&& old(self).blocks().contains_key(key) ==> {
                    &&& r is Some
                    &&& bytes_contents(r->0) == old(self).blocks()[key]
                    &&& final(self).ticks() == old(self).ticks().insert(key, final(self).now())
                    &&& final(self).now() >= old(self).now()
                    &&& (*final(metrics)).same_except(&*old(metrics), 2)
                    &&& final(metrics).read_cache_hits == crate::utils::metrics::wrapped(old(metrics).read_cache_hits, 1)
                }
                &&& !old(self).blocks().contains_key(key) ==> {
                    &&& r is None
                    &&& final(self).ticks() == old(self).ticks()
                    &&& (*final(metrics)).same_except(&*old(metrics), 3)
                    &&& final(metrics).read_cache_misses == crate::utils::metrics::wrapped(old(metrics).read_cache_misses, 1)
                }
            }),
    {
        match self.lookup(inode, offset, metrics) {
            Some(d) => Some(d),
            None => {
                metrics.inc_read_cache_miss();
                None
            },
        }
    }

    /// Push the least recently used block out of memory.
    fn evict_lru(&mut self) -> (r: Option<EvictedBlock>)
        requires
            old(self).wf(),
        ensures
            final(self).wf(),
            final(self).limit() == old(self).limit(),
            final(self).bsize() == old(self).bsize(),
            final(self).now() == old(self).now(),
            final(self).disk_tier() == old(self).disk_tier(),
            r is Some <==> old(self).slots@.len() > 0,
            r is None ==> *final(self) == *old(self),
            r is Some ==> final(self).slots@.len() + 1 == old(self).slots@.len(),
            match r {
                Some(e) => {
                    &&& old(self).blocks().contains_key(e.key)
                    &&& bytes_contents(e.data) == old(self).blocks()[e.key]
                    &&& forall|k: BlockKey| #[trigger]
                        old(self).blocks().contains_key(k) ==> old(self).ticks()[e.key] <= old(
                            self,
                        ).ticks()[k]
                    &&& final(self).blocks() == old(self).blocks().remove(e.key)
                    &&& final(self).ticks() == old(self).ticks().remove(e.key)
                    &&& final(self).usage() + bytes_contents(e.data).len() == old(self).usage()
                },
                None => true,
            },
    {
        if self.slots.len() == 0 {
            return None;
        }
        let mut best: usize = 0;
        let mut i: usize = 1;
        while i < self.slots.len()
            invariant
                0 < self.slots@.len(),
                best < i <= self.slots@.len(),
                forall|j: int| 0 <= j < i ==> self.slots@[best as int].last_access <= #[trigger] self.slots@[j].last_access,
            decreases self.slots@.len() - i,
        {
            if self.slots[i].last_access < self.slots[best].last_access {
                best = i;
            }
            i = i + 1;
        }
        let ghost s0 = self.seq();
        let ghost b = best as int;
        proof {
            lemma_remove_key(s0, b);
            lemma_index_of(s0, s0[b].key);
            assert forall|k: BlockKey| #[trigger] old(self).blocks().contains_key(k) implies old(self).ticks()[s0[b].key] <= old(self).ticks()[k] by {
                lemma_index_of(s0, k);
                assert(s0[index_of(s0, k)].last_access == self.slots@[index_of(s0, k)].last_access);
            }
        }
        let slot = self.slots.remove(best);
        let size = bytes_len(&slot.data) as u64;
        self.memory_usage = self.memory_usage - size;
        proof {
            assert(self.seq() =~= s0.remove(b));
        }
        Some(EvictedBlock { key: slot.key, data: slot.data })
    }

    /// Put a block in memory under `key`, first pushing out least recently
    /// used blocks while the memory limit would be exceeded.
    fn put_memory(&mut self, key: BlockKey, data: Bytes) -> (evicted: Vec<EvictedBlock>)
        requires
            old(self).wf(),
            old(self).usage() + bytes_contents(data).len() <= u64::MAX,
        ensures
            final(self).wf(),
            stores(*old(self), *final(self), key, bytes_contents(data), evicted@),
    {
        let size = bytes_len(&data) as u64;
        match self.find(key) {
            Some(i) => {
                let ghost s0 = self.seq();
                let old_slot = self.slots.remove(i);
                let n = bytes_len(&old_slot.data) as u64;
                proof {
                    lemma_remove_key(s0, i as int);
                    assert(self.seq() =~= s0.remove(i as int));
                    lemma_index_of(s0, key);
                }
                self.memory_usage = self.memory_usage - n;
            },
            None => {
                proof {
                    lemma_index_of(self.seq(), key);
                    assert(self.blocks().remove(key) =~= self.blocks());
                    assert(self.ticks().remove(key) =~= self.ticks());
                }
            },
        }
        let ghost start = *self;
        let mut evicted: Vec<EvictedBlock> = Vec::new();
        proof {
            assert(evicted_keys(evicted@) =~= Set::<BlockKey>::empty());
            assert(start.blocks().remove_keys(evicted_keys(evicted@)) =~= start.blocks());
            assert(start.ticks().remove_keys(evicted_keys(evicted@)) =~= start.ticks());
        }
        while self.memory_usage + size > self.memory_limit && self.slots.len() > 0
            invariant
                self.wf(),
                self.limit() == start.limit(),
                self.bsize() == start.bsize(),
                self.now() == start.now(),
                self.disk_tier() == start.disk_tier(),
                size == bytes_contents(data).len(),
                self.usage() + evicted_bytes(evicted@) == start.usage(),
                start.usage() + size <= u64::MAX,
                start.usage() + replaced_bytes(*old(self), key) == old(self).usage(),
                start.blocks() == old(self).blocks().remove(key),
                start.ticks() == old(self).ticks().remove(key),
                start.now() == old(self).now(),
                start.limit() == old(self).limit(),
                start.bsize() == old(self).bsize(),
                start.disk_tier() == old(self).disk_tier(),
                drawn_from(evicted@, start.blocks()),
                least_recent_first(evicted@, start.blocks(), start.ticks()),
                self.blocks() == start.blocks().remove_keys(evicted_keys(evicted@)),
                self.ticks() == start.ticks().remove_keys(evicted_keys(evicted@)),
                evicted@.len() > 0 ==> self.usage() + bytes_contents(evicted@.last().data).len()
                    + size > self.limit(),
            decreases self.slots@.len(),
        {
            let ghost before = self.blocks();
            let ghost ev0 = evicted@;
            let e = self.evict_lru();
            match e {
                Some(e) => {
                    proof {
                        let ks = evicted_keys(ev0);
                        assert forall|k: BlockKey| #[trigger] evicted_keys(ev0.push(e)).contains(k) <==> ks.insert(e.key).contains(k) by {
                            if ks.contains(k) {
                                let i = choose|i: int| 0 <= i < ev0.len() && #[trigger] ev0[i].key == k;
                                assert(ev0.push(e)[i].key == k);
                            }
                            if k == e.key {
                                assert(ev0.push(e)[ev0.len() as int].key == k);
                            }
                            if evicted_keys(ev0.push(e)).contains(k) {
                                let i = choose|i: int| 0 <= i < ev0.len() + 1 && #[trigger] ev0.push(e)[i].key == k;
                                if i < ev0.len() {
                                    assert(ev0[i].key == k);
                                }
                            }
                        }
                        assert(evicted_keys(ev0.push(e)) =~= ks.insert(e.key));
                        assert(start.blocks().remove_keys(ks.insert(e.key)) =~= before.remove(e.key));
                        assert(start.ticks().remove_keys(ks.insert(e.key)) =~= start.ticks().remove_keys(ks).remove(e.key));
                        assert(ev0.push(e).drop_last() =~= ev0);
                        assert forall|i: int| 0 <= i < ev0.len() implies ev0[i].key != e.key by {
                            assert(ks.contains(ev0[i].key));
                        }
                        assert forall|i: int, k: BlockKey|
                            0 <= i < ev0.len() + 1 && start.blocks().contains_key(k) && !evicted_keys(ev0.push(e)).contains(k)
                            implies start.ticks()[#[trigger] ev0.push(e)[i].key] <= #[trigger] start.ticks()[k] by {
                            assert(before.contains_key(k));
                            if i < ev0.len() {
                                assert(ev0.push(e)[i] == ev0[i]);
                            }
                        }
                    }
                    evicted.push(e);
                },
                None => {},
            }
        }
        proof {
            if self.slots@.len() == 0 {
                assert(self.blocks() =~= Map::<BlockKey, Seq<u8>>::empty());
            }
            assert(!self.blocks().contains_key(key));
            lemma_index_of(self.seq(), key);
            assert forall|i: int, k: BlockKey|
                0 <= i < evicted@.len() && start.blocks().contains_key(k) && !evicted_keys(evicted@).contains(k)
                implies old(self).ticks()[#[trigger] evicted@[i].key] <= #[trigger] old(self).ticks()[k] by {
                assert(start.blocks().contains_key(evicted@[i].key));
                assert(start.ticks()[evicted@[i].key] <= start.ticks()[k]);
            }
        }
        if self.clock < u64::MAX {
            self.clock = self.clock + 1;
        }
        let ghost s0 = self.seq();
        let slot = Slot { key, data, last_access: self.clock, access_count: 1 };
        let ghost x = slot_view(slot);
        self.slots.push(slot);
        proof {
            assert(self.seq() =~= s0.push(x));
            lemma_push_new_key(s0, x);
        }
        self.memory_usage = self.memory_usage + size;
        evicted
    }
    /// Put a block in cache. Blocks pushed out of memory to make room are
    /// returned, least recently used first.
    pub fn put(&mut self, inode: u64, offset: u64, data: Bytes) -> (evicted: Vec<EvictedBlock>)
        requires
            old(self).wf(),
            old(self).bsize() > 0,
            old(self).usage() + bytes_contents(data).len() <= u64::MAX,
        ensures
            final(self).wf(),
            stores(
                *old(self),
                *final(self),
                key_for(inode, offset, old(self).bsize()),
                bytes_contents(data),
                evicted@,
            ),
    {
        let key = BlockKey::new(inode, offset, self.block_size);
        self.put_memory(key, data)
    }

    /// Finish a read that missed memory: `from_disk` is what the slower tier
    /// held for the block. A block found there is put back in memory and
    /// counts as a hit; otherwise a miss is counted.
    pub fn promote(&mut self, inode: u64, offset: u64, from_disk: Option<Bytes>, metrics: &mut Metrics) -> (r: (
        Option<Bytes>,
        Vec<EvictedBlock>,
    ))
        requires
            old(self).wf(),
            old(self).bsize() > 0,
            from_disk is Some ==> old(self).usage() + bytes_contents(from_disk->0).len() <= u64::MAX,
        ensures
            final(self).wf(),
            match from_disk {
                Some(d) => {
                    &&& r.0 is Some
                    &&& bytes_contents(r.0->0) == bytes_contents(d)
                    &&& stores(
                        *old(self),
                        *final(self),
                        key_for(inode, offset, old(self).bsize()),
                        bytes_contents(d),
                        r.1@,
                    )
                    &&& (*final(metrics)).same_except(&*old(metrics), 2)
                    &&& final(metrics).read_cache_hits == crate::utils::metrics::wrapped(old(metrics).read_cache_hits, 1)
                },
                None => {
                    &&& r.0 is None
                    &&& r.1@.len() == 0
                    &&& *final(self) == *old(self)
                    &&& (*final(metrics)).same_except(&*old(metrics), 3)
                    &&& final(metrics).read_cache_misses == crate::utils::metrics::wrapped(old(metrics).read_cache_misses, 1)
                },
            },
    {
        match from_disk {
            Some(d) => {
                let key = BlockKey::new(inode, offset, self.block_size);
                let evicted = self.put_memory(key, bytes_clone(&d));
                metrics.inc_read_cache_hit();
                (Some(d), evicted)
            },
            None => {
                metrics.inc_read_cache_miss();
                (None, Vec::new())
            },
        }
    }

    /// Remove every cached block that `sel` selects.
    fn remove_selected(&mut self, sel: Selection)
        requires
            old(self).wf(),
            old(self).bsize() > 0 || sel is Inode,
        ensures
            final(self).wf(),
            final(self).limit() == old(self).limit(),
            final(self).bsize() == old(self).bsize(),
            final(self).now() == old(self).now(),
            final(self).disk_tier() == old(self).disk_tier(),
            final(self).blocks() == old(self).blocks().restrict(
                Set::new(|k: BlockKey| !selected(sel, k, old(self).bsize())),
            ),
            final(self).ticks() == old(self).ticks().restrict(
                Set::new(|k: BlockKey| !selected(sel, k, old(self).bsize())),
            ),
            final(self).usage() + old(self).stored() == old(self).usage() + final(self).stored(),
    {
        let bs = self.block_size;
        let mut i: usize = 0;
        while i < self.slots.len()
            invariant
                self.wf(),
                bs == self.bsize(),
                bs > 0 || sel is Inode,
                self.limit() == old(self).limit(),
                self.bsize() == old(self).bsize(),
                self.now() == old(self).now(),
                self.disk_tier() == old(self).disk_tier(),
                i <= self.slots@.len(),
                forall|j: int| 0 <= j < i ==> !selected(sel, #[trigger] self.slots@[j].key, bs),
                forall|k: BlockKey| #[trigger]
                    self.blocks().contains_key(k) ==> old(self).blocks().contains_key(k)
                        && self.blocks()[k] == old(self).blocks()[k] && self.ticks()[k] == old(
                        self,
                    ).ticks()[k],
                forall|k: BlockKey|
                    old(self).blocks().contains_key(k) && !selected(sel, k, bs) ==> #[trigger] self.blocks().contains_key(k),
                self.usage() + old(self).stored() == old(self).usage() + self.stored(),
            decreases self.slots@.len() - i,
        {
            if is_selected(&sel, self.slots[i].key, bs) {
                let ghost s0 = self.seq();
                let ghost prev = *self;
                let ghost k0 = s0[i as int].key;
                proof {
                    lemma_remove_key(s0, i as int);
                }
                let slot = self.slots.remove(i);
                let size = bytes_len(&slot.data) as u64;
                self.memory_usage = self.memory_usage - size;
                proof {
                    assert(self.seq() =~= s0.remove(i as int));
                    assert(selected(sel, k0, bs));
                    assert forall|k: BlockKey| #[trigger] self.blocks().contains_key(k) implies old(self).blocks().contains_key(k)
                        && self.blocks()[k] == old(self).blocks()[k] && self.ticks()[k] == old(self).ticks()[k] by {
                        assert(prev.blocks().contains_key(k));
                    }
                    assert forall|k: BlockKey|
                        old(self).blocks().contains_key(k) && !selected(sel, k, bs) implies #[trigger] self.blocks().contains_key(k) by {
                        assert(prev.blocks().contains_key(k));
                        assert(k != k0);
                    }
                    assert forall|j: int| 0 <= j < i implies !selected(sel, #[trigger] self.slots@[j].key, bs) by {
                        assert(self.seq()[j] == s0[j]);
                    }
                }
            } else {
                i = i + 1;
            }
        }
        proof {
            let keep = Set::new(|k: BlockKey| !selected(sel, k, old(self).bsize()));
            assert forall|k: BlockKey| #[trigger] self.blocks().contains_key(k) implies keep.contains(k) by {
                lemma_index_of(self.seq(), k);
                let j = index_of(self.seq(), k);
                assert(self.seq()[j].key == self.slots@[j].key);
            }
            assert(self.blocks() =~= old(self).blocks().restrict(keep));
            assert(self.ticks() =~= old(self).ticks().restrict(keep));
        }
    }

    /// Invalidate blocks for an inode, in memory and in the disk tier. The
    /// keys of the blocks that leave the disk tier are returned, so that
    /// their files can be removed.
    pub fn invalidate(&mut self, inode: u64) -> (r: Vec<BlockKey>)
        requires
            old(self).wf(),
        ensures
            final(self).wf(),
            final(self).limit() == old(self).limit(),
            final(self).bsize() == old(self).bsize(),
            final(self).blocks() == old(self).blocks().restrict(Set::new(|k: BlockKey| k.inode != inode)),
            final(self).ticks() == old(self).ticks().restrict(Set::new(|k: BlockKey| k.inode != inode)),
            final(self).usage() + old(self).stored() == old(self).usage() + final(self).stored(),
            match old(self).disk_tier() {
                None => final(self).disk_tier() is None && r@.len() == 0,
                Some(d) => final(self).disk_tier() matches Some(n) && {
                    &&& n.entries() == d.entries().restrict(Set::new(|k: BlockKey| k.inode != inode))
                    &&& n.usage() == d.usage()
                    &&& n.limit() == d.limit()
                    &&& forall|k: BlockKey| r@.contains(k) <==> d.entries().contains_key(k) && k.inode == inode
                },
            },
    {
        self.remove_selected(Selection::Inode(inode));
        proof {
            assert(Set::new(|k: BlockKey| !selected(Selection::Inode(inode), k, old(self).bsize()))
                =~= Set::new(|k: BlockKey| k.inode != inode));
        }
        match &mut self.disk {
            Some(d) => d.invalidate(inode),
            None => Vec::new(),
        }
    }

    /// Invalidate a range of blocks: those of `inode` whose block numbers lie
    /// between the block holding `offset` and the block holding the last byte
    /// of the `len` bytes from it.
    pub fn invalidate_range(&mut self, inode: u64, offset: u64, len: usize)
        requires
            old(self).wf(),
            old(self).bsize() > 0,
            offset + len + old(self).bsize() <= u64::MAX,
        ensures
            final(self).wf(),
            final(self).limit() == old(self).limit(),
            final(self).bsize() == old(self).bsize(),
            final(self).disk_tier() == old(self).disk_tier(),
            ({
                let bs = old(self).bsize();
                let gone = Set::new(
                    |k: BlockKey| in_block_range(k, inode, (offset / bs) as int, (offset + len + bs - 1) / (bs as int), bs),
                );
                &&& final(self).blocks() == old(self).blocks().remove_keys(gone)
                &&& final(self).ticks() == old(self).ticks().remove_keys(gone)
            }),
            final(self).usage() + old(self).stored() == old(self).usage() + final(self).stored(),
    {
        let bs = self.block_size;
        let start_block = offset / bs;
        let len64 = len as u64;
        let end_block = (offset + len64 + bs - 1) / bs;
        let sel = Selection::Blocks { inode, first: start_block, end: end_block };
        self.remove_selected(sel);
        proof {
            let gone = Set::new(
                |k: BlockKey| in_block_range(k, inode, (offset / bs) as int, (offset + len + bs - 1) / (bs as int), bs),
            );
            let keep = Set::new(|k: BlockKey| !selected(sel, k, bs));
            assert(old(self).blocks().restrict(keep) =~= old(self).blocks().remove_keys(gone));
            assert(old(self).ticks().restrict(keep) =~= old(self).ticks().remove_keys(gone));
        }
    }

    /// Clear all cache, in memory and in the disk tier. The keys of the
    /// blocks that leave the disk tier are returned, so that their files can
    /// be removed.
    pub fn clear(&mut self) -> (r: Vec<BlockKey>)
        requires
            old(self).wf(),
        ensures
            final(self).wf(),
            final(self).blocks() == Map::<BlockKey, Seq<u8>>::empty(),
            final(self).usage() == 0,
            final(self).limit() == old(self).limit(),
            final(self).bsize() == old(self).bsize(),
            match old(self).disk_tier() {
                None => final(self).disk_tier() is None && r@.len() == 0,
                Some(d) => final(self).disk_tier() matches Some(n) && {
                    &&& n.entries() == Map::<BlockKey, DiskEntryView>::empty()
                    &&& n.usage() == 0
                    &&& n.limit() == d.limit()
                    &&& forall|k: BlockKey| r@.contains(k) <==> d.entries().contains_key(k)
                },
            },
    {
        self.slots = Vec::new();
        self.memory_usage = 0;
        proof {
            assert(self.blocks() =~= Map::<BlockKey, Seq<u8>>::empty());
        }
        match &mut self.disk {
            Some(d) => d.clear(),
            None => Vec::new(),
        }
    }

    /// Look a block up in the disk tier after it missed memory: when the
    /// disk tier holds it, it is marked as just used there and its key is
    /// returned, so that its file can be read and handed to `promote`.
    pub fn disk_lookup(&mut self, inode: u64, offset: u64) -> (r: Option<BlockKey>)
        requires
            old(self).wf(),
            old(self).bsize() > 0,
        ensures
            final(self).wf(),
            final(self).blocks() == old(self).blocks(),
            final(self).ticks() == old(self).ticks(),
            final(self).usage() == old(self).usage(),
            final(self).limit() == old(self).limit(),
            final(self).bsize() == old(self).bsize(),
            final(self).now() == old(self).now(),
            ({
                let key = key_for(inode, offset, old(self).bsize());
                match old(self).disk_tier() {
                    None => r is None && final(self).disk_tier() is None,
                    Some(d) => {
                        &&& r is Some <==> d.entries().contains_key(key)
                        &&& r is Some ==> r->0 == key
                        &&& r is Some ==> (final(self).disk_tier() matches Some(n) && {
                            &&& n.now() >= d.now()
                            &&& n.usage() == d.usage()
                            &&& n.limit() == d.limit()
                            &&& n.entries() == d.entries().insert(
                                key,
                                DiskEntryView { size: d.entries()[key].size, last_access: n.now() },
                            )
                        })
                        &&& r is None ==> final(self).disk_tier() == old(self).disk_tier()
                    },
                }
            }),
    {
        let key = BlockKey::new(inode, offset, self.block_size);
        match &mut self.disk {
            Some(d) => {
                if d.touch(key) {
                    Some(key)
                } else {
                    None
                }
            },
            None => None,
        }
    }

    /// Make room in the disk tier for a block of `size` bytes pushed out of
    /// memory (see `DiskIndex::reserve`). Returns whether the block may be
    /// written there, and the keys of the blocks whose files must go. Without
    /// a disk tier nothing fits.
    pub fn disk_reserve(&mut self, size: u64) -> (r: (bool, Vec<BlockKey>))
        requires
            old(self).wf(),
        ensures
            final(self).wf(),
            final(self).blocks() == old(self).blocks(),
            final(self).ticks() == old(self).ticks(),
            final(self).usage() == old(self).usage(),
            final(self).limit() == old(self).limit(),
            final(self).bsize() == old(self).bsize(),
            final(self).now() == old(self).now(),
            match old(self).disk_tier() {
                None => !r.0 && r.1@.len() == 0 && final(self).disk_tier() is None,
                Some(d) => final(self).disk_tier() matches Some(n) && reserves(d, n, size, r.0, r.1@),
            },
    {
        match &mut self.disk {
            Some(d) => d.reserve(size),
            None => (false, Vec::new()),
        }
    }

    /// The bytes counted as on disk, when there is a disk tier.
    pub fn disk_usage(&self) -> (r: Option<u64>)
        ensures
            r == match self.disk_tier() {
                Some(d) => Some(d.usage()),
                None => None,
            },
    {
        match &self.disk {
            Some(d) => Some(d.usage_now()),
            None => None,
        }
    }

    /// Record that the block `key` of `size` bytes was written to the disk
    /// tier (see `DiskIndex::record`).
    pub fn disk_record(&mut self, key: BlockKey, size: u64)
        requires
            old(self).wf(),
            old(self).disk_tier() matches Some(d) ==> d.usage() + size <= u64::MAX,
        ensures
            final(self).wf(),
            final(self).blocks() == old(self).blocks(),
            final(self).ticks() == old(self).ticks(),
            final(self).usage() == old(self).usage(),
            final(self).limit() == old(self).limit(),
            final(self).bsize() == old(self).bsize(),
            final(self).now() == old(self).now(),
            match old(self).disk_tier() {
                None => final(self).disk_tier() is None,
                Some(d) => final(self).disk_tier() matches Some(n) && records(d, n, key, size),
            },
    {
        match &mut self.disk {
            Some(d) => d.record(key, size),
            None => {},
        }
    }

    /// Get cache statistics.
    pub fn stats(&self) -> (r: DataCacheStats)
        requires
            self.wf(),
        ensures
            r.memory_entries == self.blocks().len(),
            r.memory_usage == self.usage(),
            r.memory_limit == self.limit(),
            r.disk_entries == match self.disk_tier() {
                Some(d) => d.entries().len(),
                None => 0,
            },
    {
        proof {
            lemma_block_count(self.seq());
        }
        let disk_entries = match &self.disk {
            Some(d) => d.entry_count(),
            None => 0,
        };
        DataCacheStats {
            memory_entries: self.slots.len(),
            memory_usage: self.memory_usage,
            memory_limit: self.memory_limit,
            disk_entries,
        }
    }
}

} // verus!

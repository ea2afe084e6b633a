//! Index of the data blocks kept in the disk tier: the size of each block
//! and when it was last used, and the bytes counted as on disk.
//!
//! Each block lives in a file of its own, named after its key. The files are
//! read, written and removed by the caller, which asks the index first.

use vstd::prelude::*;

use crate::cache::data::BlockKey;
use crate::utils::keyed::{
    key_index, keys_distinct, lemma_key_index, lemma_pairs_len, lemma_pairs_push, lemma_pairs_remove,
    lemma_pairs_set, pairs_map,
};
use crate::utils::text::{decimal, push_char, u64_to_decimal};

verus! {

/// The name of the file that holds block `key`: its inode and its offset in
/// decimal, joined by `_`.
pub open spec fn disk_file_name(key: BlockKey) -> Seq<char> {
    decimal(key.inode as nat) + seq!['_'] + decimal(key.offset as nat)
}

/// Names the file that holds block `key`.
pub fn file_name(key: BlockKey) -> (r: String)
    ensures
        r@ == disk_file_name(key),
{
    let mut r = u64_to_decimal(key.inode);
    push_char(&mut r, '_');
    let o = u64_to_decimal(key.offset);
    r.append(o.as_str());
    r
}

/// What the index knows of a block on disk.
pub struct DiskEntryView {
    pub size: u64,
    pub last_access: u64,
}

#[derive(Clone, Copy)]
struct DiskSlot {
    key: BlockKey,
    size: u64,
    last_access: u64,
}

spec fn slot_pair(s: DiskSlot) -> (BlockKey, DiskEntryView) {
    (s.key, DiskEntryView { size: s.size, last_access: s.last_access })
}

/// Total size of the indexed blocks.
pub open spec fn total_size(s: Seq<(BlockKey, DiskEntryView)>) -> nat
    decreases s.len(),
{
    if s.len() == 0 {
        0
    } else {
        total_size(s.drop_last()) + s.last().1.size as nat
    }
}

proof fn lemma_total_remove(s: Seq<(BlockKey, DiskEntryView)>, i: int)
    requires
        0 <= i < s.len(),
    ensures
        total_size(s.remove(i)) + s[i].1.size == total_size(s),
    decreases s.len(),
{
    if i < s.len() - 1 {
        assert(s.remove(i).drop_last() =~= s.drop_last().remove(i));
        lemma_total_remove(s.drop_last(), i);
    } else {
        assert(s.remove(i) =~= s.drop_last());
    }
}

proof fn lemma_total_update(s: Seq<(BlockKey, DiskEntryView)>, i: int, x: (BlockKey, DiskEntryView))
    requires
        0 <= i < s.len(),
    ensures
        total_size(s.update(i, x)) + s[i].1.size == total_size(s) + x.1.size,
    decreases s.len(),
{
    if i < s.len() - 1 {
        assert(s.update(i, x).drop_last() =~= s.drop_last().update(i, x));
        lemma_total_update(s.drop_last(), i, x);
    } else {
        assert(s.update(i, x).drop_last() =~= s.drop_last());
    }
}

proof fn lemma_total_push(s: Seq<(BlockKey, DiskEntryView)>, x: (BlockKey, DiskEntryView))
    ensures
        total_size(s.push(x)) == total_size(s) + x.1.size,
{
    assert(s.push(x).drop_last() =~= s);
}

proof fn lemma_total_prefix(s: Seq<(BlockKey, DiskEntryView)>, i: int)
    requires
        0 <= i <= s.len(),
    ensures
        total_size(s.take(i)) <= total_size(s),
    decreases s.len(),
{
    if i < s.len() {
        assert(s.take(i) =~= s.drop_last().take(i));
        lemma_total_prefix(s.drop_last(), i);
    } else {
        assert(s.take(i) =~= s);
    }
}

/// Index of the blocks in the disk tier.
pub struct DiskIndex {
    /// Indexed blocks, each key once
    slots: Vec<DiskSlot>,
    /// Size limit in bytes
    size_limit: u64,
    /// Bytes counted as on disk
    current_size: u64,
    /// Use counter: increases with each use or store
    clock: u64,
}

/// What making room for `size` bytes did to the index: the blocks `evicted`
/// went, least recently used first, only while the bytes counted and `size`
/// together were over the limit; after each eviction the count is the size
/// of what is left. `fits` says whether `size` more bytes now stay within
/// the limit, which fails only when nothing is left to evict.
pub open spec fn reserves(before: DiskIndex, after: DiskIndex, size: u64, fits: bool, evicted: Seq<BlockKey>) -> bool {
    let gone = evicted.to_set();
    &&& after.limit() == before.limit()
    &&& after.now() == before.now()
    &&& fits == (after.usage() + size <= after.limit())
    &&& !fits ==> after.entries() == Map::<BlockKey, DiskEntryView>::empty()
    &&& evicted.no_duplicates()
    &&& forall|i: int| 0 <= i < evicted.len() ==> before.entries().contains_key(#[trigger] evicted[i])
    &&& forall|i: int, k: BlockKey|
        0 <= i < evicted.len() && before.entries().contains_key(k) && !gone.contains(k)
            ==> before.entries()[#[trigger] evicted[i]].last_access <= #[trigger] before.entries()[k].last_access
    &&& after.entries() == before.entries().remove_keys(gone)
    &&& evicted.len() == 0 ==> after.usage() == before.usage()
    &&& evicted.len() > 0 ==> {
        &&& after.usage() == after.stored()
        &&& before.usage() + size > before.limit()
    }
    &&& evicted.len() > 1 ==> after.usage() + before.entries()[evicted.last()].size + size > before.limit()
}

/// What recording a block of `size` bytes under `key` did to the index.
pub open spec fn records(before: DiskIndex, after: DiskIndex, key: BlockKey, size: u64) -> bool {
    &&& after.limit() == before.limit()
    &&& after.now() >= before.now()
    &&& after.entries() == before.entries().insert(key, DiskEntryView { size, last_access: after.now() })
    &&& after.usage() == before.usage() + size
}

/// When making room for a block says that it fits, the bytes counted stay
/// within the limit once the block is recorded, and the block is indexed.
pub proof fn lemma_reserved_block_fits(
    a: DiskIndex,
    b: DiskIndex,
    c: DiskIndex,
    key: BlockKey,
    size: u64,
    evicted: Seq<BlockKey>,
)
    requires
        reserves(a, b, size, true, evicted),
        records(b, c, key, size),
    ensures
        c.usage() <= c.limit(),
        c.entries().contains_key(key),
        c.entries()[key].size == size,
{
}

impl DiskIndex {
    closed spec fn pairs(&self) -> Seq<(BlockKey, DiskEntryView)> {
        self.slots@.map_values(|s: DiskSlot| slot_pair(s))
    }

    /// The indexed blocks, by key.
    pub closed spec fn entries(&self) -> Map<BlockKey, DiskEntryView> {
        pairs_map(self.pairs())
    }

    /// The total size of the indexed blocks.
    pub closed spec fn stored(&self) -> nat {
        total_size(self.pairs())
    }

    /// The bytes counted as on disk.
    pub closed spec fn usage(&self) -> u64 {
        self.current_size
    }

    /// The size limit.
    pub closed spec fn limit(&self) -> u64 {
        self.size_limit
    }

    /// The use counter.
    pub closed spec fn now(&self) -> u64 {
        self.clock
    }

    /// Each key is indexed once, and the bytes counted are at least the
    /// bytes indexed.
    pub closed spec fn wf(&self) -> bool {
        &&& keys_distinct(self.pairs())
        &&& self.stored() <= self.current_size
    }

    /// An empty index with the given size limit.
    pub fn new(size_limit: u64) -> (r: Self)
        ensures
            r.wf(),
            r.entries() == Map::<BlockKey, DiskEntryView>::empty(),
            r.usage() == 0,
            r.limit() == size_limit,
    {
        let r = DiskIndex { slots: Vec::new(), size_limit, current_size: 0, clock: 0 };
        assert(r.pairs() =~= Seq::<(BlockKey, DiskEntryView)>::empty());
        assert(r.entries() =~= Map::<BlockKey, DiskEntryView>::empty());
        r
    }

    /// Position of the block with key `key`, if indexed.
    fn find(&self, key: BlockKey) -> (r: Option<usize>)
        requires
            self.wf(),
        ensures
            match r {
                Some(i) => i < self.slots@.len() && self.slots@[i as int].key == key && key_index(self.pairs(), key)
                    == i,
                None => key_index(self.pairs(), key) == -1,
            },
    {
        let mut i: usize = 0;
        while i < self.slots.len()
            invariant
                self.wf(),
                i <= self.slots@.len(),
                forall|j: int| 0 <= j < i ==> self.slots@[j].key != key,
            decreases self.slots@.len() - i,
        {
            if self.slots[i].key == key {
                proof {
                    lemma_key_index(self.pairs(), key);
                    assert(self.pairs()[i as int].0 == key);
                }
                return Some(i);
            }
            i = i + 1;
        }
        proof {
            lemma_key_index(self.pairs(), key);
            assert forall|j: int| 0 <= j < self.pairs().len() implies self.pairs()[j].0 != key by {
                assert(self.pairs()[j].0 == self.slots@[j].key);
            }
        }
        None
    }

    fn tick(&mut self)
        ensures
            final(self).slots == old(self).slots,
            final(self).size_limit == old(self).size_limit,
            final(self).current_size == old(self).current_size,
            final(self).clock == if old(self).clock < u64::MAX {
                (old(self).clock + 1) as u64
            } else {
                old(self).clock
            },
    {
        if self.clock < u64::MAX {
            self.clock = self.clock + 1;
        }
    }

    /// Mark the block with key `key` as just used, when it is indexed.
    pub fn touch(&mut self, key: BlockKey) -> (r: bool)
        requires
            old(self).wf(),
        ensures
            final(self).wf(),
            r == old(self).entries().contains_key(key),
            final(self).limit() == old(self).limit(),
            final(self).usage() == old(self).usage(),
            r ==> {
                &&& final(self).now() >= old(self).now()
                &&& final(self).entries() == old(self).entries().insert(
                    key,
                    DiskEntryView { size: old(self).entries()[key].size, last_access: final(self).now() },
                )
            },
            !r ==> *final(self) == *old(self),
    {
        proof {
            lemma_key_index(self.pairs(), key);
        }
        match self.find(key) {
            Some(i) => {
                self.tick();
                let old_slot = self.slots[i];
                let slot = DiskSlot { key, size: old_slot.size, last_access: self.clock };
                let ghost s0 = self.pairs();
                self.slots.set(i, slot);
                proof {
                    assert(self.pairs() =~= s0.update(i as int, (s0[i as int].0, slot_pair(slot).1)));
                    lemma_pairs_set(s0, i as int, slot_pair(slot).1);
                    lemma_total_update(s0, i as int, slot_pair(slot));
                }
                true
            },
            None => false,
        }
    }

    /// Record a block of `size` bytes stored under `key`: it is indexed as
    /// just used and its size is added to the bytes counted.
    pub fn record(&mut self, key: BlockKey, size: u64)
        requires
            old(self).wf(),
            old(self).usage() + size <= u64::MAX,
        ensures
            final(self).wf(),
            records(*old(self), *final(self), key, size),
    {
        self.tick();
        let slot = DiskSlot { key, size, last_access: self.clock };
        let ghost s0 = self.pairs();
        proof {
            lemma_key_index(s0, key);
        }
        match self.find(key) {
            Some(i) => {
                self.slots.set(i, slot);
                proof {
                    assert(self.pairs() =~= s0.update(i as int, (s0[i as int].0, slot_pair(slot).1)));
                    lemma_pairs_set(s0, i as int, slot_pair(slot).1);
                    lemma_total_update(s0, i as int, slot_pair(slot));
                }
            },
            None => {
                self.slots.push(slot);
                proof {
                    assert(self.pairs() =~= s0.push(slot_pair(slot)));
                    lemma_pairs_push(s0, key, slot_pair(slot).1);
                    lemma_total_push(s0, slot_pair(slot));
                }
            },
        }
        self.current_size = self.current_size + size;
    }

    /// Remove the least recently used block from the index.
    fn evict_one(&mut self) -> (r: Option<BlockKey>)
        requires
            old(self).wf(),
        ensures
            final(self).wf(),
            final(self).limit() == old(self).limit(),
            final(self).now() == old(self).now(),
            final(self).usage() == old(self).usage(),
            r is Some <==> old(self).slots@.len() > 0,
            r is None ==> *final(self) == *old(self),
            r is Some ==> final(self).slots@.len() + 1 == old(self).slots@.len(),
            match r {
                Some(k) => {
                    &&& old(self).entries().contains_key(k)
                    &&& forall|q: BlockKey| #[trigger]
                        old(self).entries().contains_key(q) ==> old(self).entries()[k].last_access <= old(
                            self,
                        ).entries()[q].last_access
                    &&& final(self).entries() == old(self).entries().remove(k)
                    &&& final(self).stored() + old(self).entries()[k].size == old(self).stored()
                },
                None => true,
            },
    {
        if self.slots.len() == 0 {
            return None;
        }
        let mut best: usize = 0;
        let mut i: usize = 1;
        while i < self.slots.len()
            invariant
                0 < self.slots@.len(),
                best < i <= self.slots@.len(),
                forall|j: int|
                    0 <= j < i ==> self.slots@[best as int].last_access <= #[trigger] self.slots@[j].last_access,
            decreases self.slots@.len() - i,
        {
            if self.slots[i].last_access < self.slots[best].last_access {
                best = i;
            }
            i = i + 1;
        }
        let ghost s0 = self.pairs();
        let ghost b = best as int;
        proof {
            lemma_pairs_remove(s0, b);
            lemma_total_remove(s0, b);
            lemma_key_index(s0, s0[b].0);
            assert forall|q: BlockKey| #[trigger] old(self).entries().contains_key(q) implies old(
                self,
            ).entries()[s0[b].0].last_access <= old(self).entries()[q].last_access by {
                lemma_key_index(s0, q);
                assert(s0[key_index(s0, q)].1.last_access == self.slots@[key_index(s0, q)].last_access);
            }
        }
        let slot = self.slots.remove(best);
        proof {
            assert(self.pairs() =~= s0.remove(b));
        }
        Some(slot.key)
    }

    /// The total size of the indexed blocks.
    fn calculate_size(&self) -> (r: u64)
        requires
            self.wf(),
        ensures
            r == self.stored(),
    {
        let mut sum: u64 = 0;
        let mut i: usize = 0;
        while i < self.slots.len()
            invariant
                self.wf(),
                i <= self.slots@.len(),
                sum == total_size(self.pairs().take(i as int)),
            decreases self.slots@.len() - i,
        {
            proof {
                let s = self.pairs();
                assert(s.take(i + 1).drop_last() =~= s.take(i as int));
                lemma_total_prefix(s, i + 1);
            }
            sum = sum + self.slots[i].size;
            i = i + 1;
        }
        proof {
            assert(self.pairs().take(i as int) =~= self.pairs());
        }
        sum
    }

    /// Whether `size` more bytes would take the count over the limit.
    fn over(&self, size: u64) -> (r: bool)
        ensures
            r == (self.usage() + size > self.limit()),
    {
        size > self.size_limit || self.current_size > self.size_limit - size
    }

    /// Make room for a block of `size` bytes: while the bytes counted and
    /// `size` together are over the limit, the least recently used block
    /// leaves and the count becomes the size of what is left. Returns
    /// whether the block now fits, and the blocks that left, in order.
    pub fn reserve(&mut self, size: u64) -> (r: (bool, Vec<BlockKey>))
        requires
            old(self).wf(),
        ensures
            final(self).wf(),
            reserves(*old(self), *final(self), size, r.0, r.1@),
    {
        let mut evicted: Vec<BlockKey> = Vec::new();
        proof {
            assert(evicted@.to_set() =~= Set::<BlockKey>::empty());
            assert(old(self).entries().remove_keys(evicted@.to_set()) =~= old(self).entries());
        }
        while self.over(size) && self.slots.len() > 0
            invariant
                self.wf(),
                self.limit() == old(self).limit(),
                self.now() == old(self).now(),
                evicted@.no_duplicates(),
                forall|i: int| 0 <= i < evicted@.len() ==> old(self).entries().contains_key(#[trigger] evicted@[i]),
                forall|i: int, k: BlockKey|
                    0 <= i < evicted@.len() && old(self).entries().contains_key(k) && !evicted@.to_set().contains(k)
                        ==> old(self).entries()[#[trigger] evicted@[i]].last_access
                        <= #[trigger] old(self).entries()[k].last_access,
                self.entries() == old(self).entries().remove_keys(evicted@.to_set()),
                evicted@.len() == 0 ==> self.usage() == old(self).usage(),
                evicted@.len() > 0 ==> self.usage() == self.stored() && old(self).usage() + size > old(
                    self,
                ).limit(),
                evicted@.len() > 1 ==> self.usage() + old(self).entries()[evicted@.last()].size + size > old(
                    self,
                ).limit(),
            decreases self.slots@.len(),
        {
            let ghost before = *self;
            let ghost ev0 = evicted@;
            let e = self.evict_one();
            match e {
                Some(k) => {
                    proof {
                        let ks = ev0.to_set();
                        assert(ev0.push(k).to_set() =~= ks.insert(k)) by {
                            assert forall|q: BlockKey| #[trigger] ev0.push(k).to_set().contains(q) <==> ks.insert(k).contains(q) by {
                                if ks.contains(q) {
                                    let j = choose|j: int| 0 <= j < ev0.len() && ev0[j] == q;
                                    assert(ev0.push(k)[j] == q);
                                }
                                if q == k {
                                    assert(ev0.push(k)[ev0.len() as int] == q);
                                }
                                if ev0.push(k).to_set().contains(q) {
                                    let j = choose|j: int| 0 <= j < ev0.len() + 1 && ev0.push(k)[j] == q;
                                    if j < ev0.len() {
                                        assert(ev0[j] == q);
                                    }
                                }
                            }
                        }
                        assert(!ks.contains(k)) by {
                            if ks.contains(k) {
                                let j = choose|j: int| 0 <= j < ev0.len() && ev0[j] == k;
                                assert(!before.entries().contains_key(ev0[j]));
                            }
                        }
                        assert(old(self).entries().remove_keys(ks.insert(k)) =~= before.entries().remove(k));
                        assert(old(self).entries()[k] == before.entries()[k]);
                        assert forall|i: int, q: BlockKey|
                            0 <= i < ev0.len() + 1 && old(self).entries().contains_key(q) && !ev0.push(k).to_set().contains(q)
                            implies old(self).entries()[#[trigger] ev0.push(k)[i]].last_access
                            <= #[trigger] old(self).entries()[q].last_access by {
                            assert(before.entries().contains_key(q));
                            assert(before.entries()[q] == old(self).entries()[q]);
                            if i < ev0.len() {
                                assert(ev0.push(k)[i] == ev0[i]);
                            }
                        }
                        assert forall|i: int| 0 <= i < ev0.len() + 1 implies old(self).entries().contains_key(
                            #[trigger] ev0.push(k)[i],
                        ) by {
                            if i < ev0.len() {
                                assert(ev0.push(k)[i] == ev0[i]);
                            }
                        }
                        assert(ev0.push(k).no_duplicates()) by {
                            assert forall|i: int, j: int| 0 <= i < ev0.len() + 1 && 0 <= j < ev0.len() + 1 && i != j
                                implies ev0.push(k)[i] != ev0.push(k)[j] by {
                                if i < ev0.len() && j < ev0.len() {
                                    assert(ev0.push(k)[i] == ev0[i] && ev0.push(k)[j] == ev0[j]);
                                } else if i < ev0.len() {
                                    assert(ks.contains(ev0[i]));
                                } else if j < ev0.len() {
                                    assert(ks.contains(ev0[j]));
                                }
                            }
                        }
                    }
                    evicted.push(k);
                    let now_size = self.calculate_size();
                    self.current_size = now_size;
                    proof {
                        assert(evicted@.last() == k);
                    }
                },
                None => {},
            }
        }
        proof {
            if self.slots@.len() == 0 {
                assert(self.pairs() =~= Seq::<(BlockKey, DiskEntryView)>::empty());
                assert(self.entries() =~= Map::<BlockKey, DiskEntryView>::empty());
            }
        }
        let fits = !self.over(size);
        (fits, evicted)
    }

    /// Remove every block of `inode` from the index and return their keys.
    /// The bytes counted are left as they are.
    pub fn invalidate(&mut self, inode: u64) -> (r: Vec<BlockKey>)
        requires
            old(self).wf(),
        ensures
            final(self).wf(),
            final(self).limit() == old(self).limit(),
            final(self).usage() == old(self).usage(),
            final(self).entries() == old(self).entries().restrict(Set::new(|k: BlockKey| k.inode != inode)),
            forall|k: BlockKey| r@.contains(k) <==> old(self).entries().contains_key(k) && k.inode == inode,
    {
        let mut removed: Vec<BlockKey> = Vec::new();
        let mut i: usize = 0;
        while i < self.slots.len()
            invariant
                self.wf(),
                self.limit() == old(self).limit(),
                self.usage() == old(self).usage(),
                i <= self.slots@.len(),
                forall|j: int| 0 <= j < i ==> (#[trigger] self.slots@[j]).key.inode != inode,
                forall|k: BlockKey| #[trigger]
                    self.entries().contains_key(k) ==> old(self).entries().contains_key(k) && self.entries()[k]
                        == old(self).entries()[k],
                forall|k: BlockKey|
                    old(self).entries().contains_key(k) && k.inode != inode ==> #[trigger] self.entries().contains_key(k),
                forall|k: BlockKey|
                    old(self).entries().contains_key(k) && k.inode == inode ==> (#[trigger] removed@.contains(k)
                        || self.entries().contains_key(k)),
                forall|k: BlockKey| #[trigger]
                    removed@.contains(k) ==> old(self).entries().contains_key(k) && k.inode == inode
                        && !self.entries().contains_key(k),
            decreases self.slots@.len() - i,
        {
            if self.slots[i].key.inode == inode {
                let ghost s0 = self.pairs();
                let ghost prev = *self;
                let ghost k0 = s0[i as int].0;
                proof {
                    lemma_pairs_remove(s0, i as int);
                    lemma_total_remove(s0, i as int);
                    lemma_key_index(s0, k0);
                }
                let slot = self.slots.remove(i);
                let ghost r0 = removed@;
                removed.push(slot.key);
                proof {
                    assert(self.pairs() =~= s0.remove(i as int));
                    assert(prev.entries().contains_key(k0));
                    assert(removed@ == r0.push(k0));
                    assert forall|k: BlockKey| #[trigger] self.entries().contains_key(k) implies old(self).entries().contains_key(k)
                        && self.entries()[k] == old(self).entries()[k] by {
                        assert(prev.entries().contains_key(k));
                    }
                    assert forall|k: BlockKey|
                        old(self).entries().contains_key(k) && k.inode != inode implies #[trigger] self.entries().contains_key(k) by {
                        assert(prev.entries().contains_key(k));
                    }
                    assert forall|k: BlockKey|
                        old(self).entries().contains_key(k) && k.inode == inode implies (#[trigger] removed@.contains(k)
                        || self.entries().contains_key(k)) by {
                        if k == k0 {
                            assert(removed@[removed@.len() - 1] == k);
                        } else if r0.contains(k) {
                            let j = choose|j: int| 0 <= j < r0.len() && r0[j] == k;
                            assert(removed@[j] == k);
                        } else {
                            assert(prev.entries().contains_key(k));
                        }
                    }
                    assert forall|k: BlockKey| #[trigger]
                        removed@.contains(k) implies old(self).entries().contains_key(k) && k.inode == inode
                            && !self.entries().contains_key(k) by {
                        let j = choose|j: int| 0 <= j < removed@.len() && removed@[j] == k;
                        if j < r0.len() {
                            assert(r0[j] == k);
                            assert(r0.contains(k));
                            assert(!prev.entries().contains_key(k));
                        } else {
                            assert(k == k0);
                        }
                    }
                    assert forall|j: int| 0 <= j < i implies (#[trigger] self.slots@[j]).key.inode != inode by {
                        assert(self.pairs()[j] == s0[j]);
                        assert(prev.slots@[j] == self.slots@[j]);
                    }
                }
            } else {
                i = i + 1;
            }
        }
        proof {
            let keep = Set::new(|k: BlockKey| k.inode != inode);
            assert forall|k: BlockKey| #[trigger] self.entries().contains_key(k) implies keep.contains(k) by {
                lemma_key_index(self.pairs(), k);
                let j = key_index(self.pairs(), k);
                assert(self.pairs()[j].0 == self.slots@[j].key);
            }
            assert(self.entries() =~= old(self).entries().restrict(keep));
        }
        removed
    }

    /// Remove every block from the index and return their keys; nothing is
    /// counted as on disk any more.
    pub fn clear(&mut self) -> (r: Vec<BlockKey>)
        requires
            old(self).wf(),
        ensures
            final(self).wf(),
            final(self).limit() == old(self).limit(),
            final(self).usage() == 0,
            final(self).entries() == Map::<BlockKey, DiskEntryView>::empty(),
            forall|k: BlockKey| r@.contains(k) <==> old(self).entries().contains_key(k),
    {
        let mut keys: Vec<BlockKey> = Vec::new();
        let mut i: usize = 0;
        while i < self.slots.len()
            invariant
                self.wf(),
                *self == *old(self),
                i <= self.slots@.len(),
                keys@ == self.slots@.take(i as int).map_values(|s: DiskSlot| s.key),
            decreases self.slots@.len() - i,
        {
            keys.push(self.slots[i].key);
            i = i + 1;
            proof {
                assert(keys@ =~= self.slots@.take(i as int).map_values(|s: DiskSlot| s.key));
            }
        }
        proof {
            let s = self.pairs();
            assert(self.slots@.take(i as int) =~= self.slots@);
            assert forall|k: BlockKey| keys@.contains(k) <==> old(self).entries().contains_key(k) by {
                lemma_key_index(s, k);
                if keys@.contains(k) {
                    let j = choose|j: int| 0 <= j < keys@.len() && keys@[j] == k;
                    assert(s[j].0 == k);
                }
                if old(self).entries().contains_key(k) {
                    assert(keys@[key_index(s, k)] == k);
                }
            }
        }
        self.slots = Vec::new();
        self.current_size = 0;
        proof {
            assert(self.pairs() =~= Seq::<(BlockKey, DiskEntryView)>::empty());
            assert(self.entries() =~= Map::<BlockKey, DiskEntryView>::empty());
        }
        keys
    }

    /// The bytes counted as on disk.
    pub fn usage_now(&self) -> (r: u64)
        ensures
            r == self.usage(),
    {
        self.current_size
    }

    /// The number of indexed blocks.
    pub fn entry_count(&self) -> (r: usize)
        requires
            self.wf(),
        ensures
            r == self.entries().len(),
    {
        proof {
            lemma_pairs_len(self.pairs());
        }
        self.slots.len()
    }
}

} // verus!

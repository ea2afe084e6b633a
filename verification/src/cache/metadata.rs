//! Metadata cache: file attributes, directory listings and paths known not
//! to exist, each forgotten after its time to live.

use dashmap::DashMap;
use std::time::{Duration, Instant};
use vstd::prelude::*;

use crate::config::MetadataCacheConfig;
use crate::fs::inode::FileAttr;
use crate::utils::clock::{duration_from_secs, duration_nanos, exceeds, instant_elapsed, instant_now};
use crate::utils::metrics::{wrapped, Metrics};

verus! {

/// Cached file attributes
#[derive(Debug, Clone, Copy)]
pub struct CachedAttr {
    /// File attributes
    pub attr: FileAttr,
    /// When cached
    pub cached_at: Instant,
}

impl CachedAttr {
    /// Create new cached attribute, cached now.
    pub fn new(attr: FileAttr) -> (r: Self)
        ensures
            r.attr == attr,
    {
        CachedAttr { attr, cached_at: instant_now() }
    }

    /// How long ago the attributes were cached. The length depends on the
    /// clock and is not stated.
    pub fn age(&self) -> Duration {
        instant_elapsed(&self.cached_at)
    }

    /// Whether attributes cached `age` ago are past time to live `ttl`.
    pub fn is_expired_after(&self, ttl: Duration, age: Duration) -> (r: bool)
        ensures
            r == (duration_nanos(age) > duration_nanos(ttl)),
    {
        exceeds(age, ttl)
    }

    /// Whether more than `ttl` has passed since the attributes were cached
    /// (see `is_expired_after`, which is handed their age).
    pub fn is_expired(&self, ttl: Duration) -> bool {
        self.is_expired_after(ttl, self.age())
    }
}

/// Cached directory entry
#[derive(Debug)]
pub struct CachedDirEntry {
    /// Child inodes
    pub children: Vec<u64>,
    /// When cached
    pub cached_at: Instant,
    /// Whether listing is complete
    pub complete: bool,
}

impl CachedDirEntry {
    /// Create new cached directory entry, cached now.
    pub fn new(children: Vec<u64>, complete: bool) -> (r: Self)
        ensures
            r.children@ == children@,
            r.complete == complete,
    {
        CachedDirEntry { children, cached_at: instant_now(), complete }
    }

    /// How long ago the listing was cached. The length depends on the clock
    /// and is not stated.
    pub fn age(&self) -> Duration {
        instant_elapsed(&self.cached_at)
    }

    /// Whether a listing cached `age` ago is past time to live `ttl`.
    pub fn is_expired_after(&self, ttl: Duration, age: Duration) -> (r: bool)
        ensures
            r == (duration_nanos(age) > duration_nanos(ttl)),
    {
        exceeds(age, ttl)
    }

    /// Whether more than `ttl` has passed since the listing was cached (see
    /// `is_expired_after`, which is handed its age).
    pub fn is_expired(&self, ttl: Duration) -> bool {
        self.is_expired_after(ttl, self.age())
    }
}

/// Expiry, as `is_expired_after` decides it for cached attributes and
/// listings, lasts: what is past a time to live at some age stays past it at
/// any greater age, and is past every shorter time to live too.
pub proof fn lemma_expiry_persists(ttl: Duration, shorter: Duration, age: Duration, later: Duration)
    requires
        duration_nanos(age) > duration_nanos(ttl),
        duration_nanos(shorter) <= duration_nanos(ttl),
        duration_nanos(age) <= duration_nanos(later),
    ensures
        duration_nanos(later) > duration_nanos(shorter),
{
}

/// Cached attributes with the cache's use-counter reading when they were
/// stored or last updated.
#[derive(Clone, Copy)]
pub struct AttrSlot {
    cached: CachedAttr,
    stamp: u64,
}

/// Metadata cache statistics
#[derive(Debug, Clone, Copy)]
pub struct MetadataCacheStats {
    pub attr_entries: usize,
    pub dir_entries: usize,
    pub negative_entries: usize,
}

/// The cached attributes, by inode.
pub type AttrTable = DashMap<u64, AttrSlot>;

/// The entries of an attribute table: each inode with its slot.
pub uninterp spec fn attr_table(m: AttrTable) -> Map<u64, AttrSlot>;

/// `DashMap::new`: an empty table.
#[verifier::external_body]
fn attr_table_new() -> (r: AttrTable)
    ensures
        attr_table(r).is_empty(),
{
    DashMap::new()
}

/// `DashMap::get`, with the slot copied out of the guard: what the table
/// holds for `k`, if anything.
#[verifier::external_body]
fn attr_table_get(m: &AttrTable, k: u64) -> (r: Option<AttrSlot>)
    ensures
        r == (if attr_table(*m).contains_key(k) {
            Some(attr_table(*m)[k])
        } else {
            None
        }),
{
    match m.get(&k) {
        Some(e) => Some(*e.value()),
        None => None,
    }
}

/// `DashMap::insert`: the table afterwards maps `k` to `v`, all else as
/// before.
#[verifier::external_body]
fn attr_table_insert(m: &mut AttrTable, k: u64, v: AttrSlot)
    ensures
        attr_table(*final(m)) == attr_table(*old(m)).insert(k, v),
{
    m.insert(k, v);
}

/// `DashMap::remove`, its result dropped: the table loses `k`.
#[verifier::external_body]
fn attr_table_remove(m: &mut AttrTable, k: u64)
    ensures
        attr_table(*final(m)) == attr_table(*old(m)).remove(k),
{
    m.remove(&k);
}

/// `DashMap::clear`: the table holds nothing.
#[verifier::external_body]
fn attr_table_clear(m: &mut AttrTable)
    ensures
        attr_table(*final(m)).is_empty(),
{
    m.clear();
}

/// `DashMap::len`: how many entries the table holds.
#[verifier::external_body]
fn attr_table_len(m: &AttrTable) -> (r: usize)
    ensures
        r == attr_table(*m).len(),
{
    m.len()
}

/// `DashMap::iter`, keeping the keys: every key of the table, each once (in
/// an order that the table's shards decide).
#[verifier::external_body]
fn attr_table_keys(m: &AttrTable) -> (r: Vec<u64>)
    ensures
        r@.no_duplicates(),
        r@.to_set() == attr_table(*m).dom(),
{
    m.iter().map(|e| *e.key()).collect()
}

/// The cached directory listings, by inode.
pub type DirTable = DashMap<u64, CachedDirEntry>;

/// The entries of a listing table: each inode with its cached listing.
pub uninterp spec fn dir_table(m: DirTable) -> Map<u64, CachedDirEntry>;

/// `DashMap::new`: an empty table.
#[verifier::external_body]
fn dir_table_new() -> (r: DirTable)
    ensures
        dir_table(r).is_empty(),
{
    DashMap::new()
}

/// `DashMap::get`, with the children copied out of the guard: the children
/// of the listing held for `k`, if any.
#[verifier::external_body]
fn dir_table_children(m: &DirTable, k: u64) -> (r: Option<Vec<u64>>)
    ensures
        match r {
            Some(v) => dir_table(*m).contains_key(k) && v@ == dir_table(*m)[k].children@,
            None => !dir_table(*m).contains_key(k),
        },
{
    match m.get(&k) {
        Some(e) => Some(e.children.clone()),
        None => None,
    }
}

/// `DashMap::get`, reading how long ago the listing held for `k`, if any,
/// was cached. The length depends on the clock and is not stated.
#[verifier::external_body]
fn dir_table_age(m: &DirTable, k: u64) -> (r: Option<Duration>)
    ensures
        r is Some <==> dir_table(*m).contains_key(k),
{
    match m.get(&k) {
        Some(e) => Some(e.age()),
        None => None,
    }
}

/// `DashMap::insert`: the table afterwards maps `k` to `v`, all else as
/// before.
#[verifier::external_body]
fn dir_table_insert(m: &mut DirTable, k: u64, v: CachedDirEntry)
    ensures
        dir_table(*final(m)) == dir_table(*old(m)).insert(k, v),
{
    m.insert(k, v);
}

/// `DashMap::remove`, its result dropped: the table loses `k`.
#[verifier::external_body]
fn dir_table_remove(m: &mut DirTable, k: u64)
    ensures
        dir_table(*final(m)) == dir_table(*old(m)).remove(k),
{
    m.remove(&k);
}

/// `DashMap::clear`: the table holds nothing.
#[verifier::external_body]
fn dir_table_clear(m: &mut DirTable)
    ensures
        dir_table(*final(m)).is_empty(),
{
    m.clear();
}

/// `DashMap::len`: how many entries the table holds.
#[verifier::external_body]
fn dir_table_len(m: &DirTable) -> (r: usize)
    ensures
        r == dir_table(*m).len(),
{
    m.len()
}

/// The paths known not to exist, with when each was found missing.
pub type NegativeTable = DashMap<String, Instant>;

/// The entries of a negative table: each path with when it was found
/// missing.
pub uninterp spec fn negative_table(m: NegativeTable) -> Map<Seq<char>, Instant>;

/// `DashMap::new`: an empty table.
#[verifier::external_body]
fn negative_table_new() -> (r: NegativeTable)
    ensures
        negative_table(r).is_empty(),
{
    DashMap::new()
}

/// `DashMap::get`, with the time copied out of the guard: when `k` was
/// found missing, if it is in the table.
#[verifier::external_body]
fn negative_table_get(m: &NegativeTable, k: &str) -> (r: Option<Instant>)
    ensures
        r == (if negative_table(*m).contains_key(k@) {
            Some(negative_table(*m)[k@])
        } else {
            None
        }),
{
    match m.get(k) {
        Some(e) => Some(*e.value()),
        None => None,
    }
}

/// `DashMap::insert`: the table afterwards maps `k` to `at`, all else as
/// before.
#[verifier::external_body]
fn negative_table_insert(m: &mut NegativeTable, k: String, at: Instant)
    ensures
        negative_table(*final(m)) == negative_table(*old(m)).insert(k@, at),
{
    m.insert(k, at);
}

/// `DashMap::remove`, its result dropped: the table loses `k`.
#[verifier::external_body]
fn negative_table_remove(m: &mut NegativeTable, k: &str)
    ensures
        negative_table(*final(m)) == negative_table(*old(m)).remove(k@),
{
    m.remove(k);
}

/// `DashMap::clear`: the table holds nothing.
#[verifier::external_body]
fn negative_table_clear(m: &mut NegativeTable)
    ensures
        negative_table(*final(m)).is_empty(),
{
    m.clear();
}

/// `DashMap::len`: how many entries the table holds.
#[verifier::external_body]
fn negative_table_len(m: &NegativeTable) -> (r: usize)
    ensures
        r == negative_table(*m).len(),
{
    m.len()
}

/// Metadata cache
pub struct MetadataCache {
    /// Attribute cache (inode -> cached attr)
    attr_cache: AttrTable,
    /// Directory listing cache (inode -> cached entries)
    dir_cache: DirTable,
    /// Negative cache (path -> when found missing)
    negative_cache: NegativeTable,
    /// Configuration
    config: MetadataCacheConfig,
    /// Use counter: increases with each store or update of attributes
    clock: u64,
}

/// How many attribute entries a full cache of `max_entries` pushes out to
/// make room: a tenth of the maximum, and at least one.
pub open spec fn eviction_count(max_entries: usize) -> nat {
    if max_entries / 10 >= 1 {
        (max_entries / 10) as nat
    } else {
        1
    }
}

/// `gone` is the set of oldest attribute entries that storing into a cache
/// holding `attrs` (stamped with `stamps`) pushed out: none while the cache
/// holds fewer than `max_entries` entries, else `eviction_count(max_entries)`
/// of them (or all), no kept entry older than a removed one.
pub open spec fn oldest_evicted(
    gone: Set<u64>,
    attrs: Map<u64, FileAttr>,
    stamps: Map<u64, u64>,
    max_entries: usize,
) -> bool {
    let count = eviction_count(max_entries);
    &&& gone.subset_of(attrs.dom())
    &&& attrs.len() < max_entries ==> gone.is_empty()
    &&& attrs.len() >= max_entries ==> gone.len() == if count <= attrs.len() {
        count
    } else {
        attrs.len()
    }
    &&& forall|r: u64, k: u64|
        gone.contains(r) && attrs.contains_key(k) && !gone.contains(k) ==> #[trigger] stamps[r]
            <= #[trigger] stamps[k]
}

/// What storing attributes `attr` for `inode` did to the cache: the oldest
/// entries went first when it was full (see `oldest_evicted`), and `inode`
/// now has `attr`, stamped as just stored.
pub open spec fn stores_attr(before: MetadataCache, after: MetadataCache, inode: u64, attr: FileAttr) -> bool {
    exists|gone: Set<u64>|
        {
            &&& oldest_evicted(gone, before.attrs(), before.stamps(), before.config().max_entries)
            &&& after.attrs() == before.attrs().remove_keys(gone).insert(inode, attr)
            &&& after.stamps() == before.stamps().remove_keys(gone).insert(inode, after.now())
        }
}

/// The attribute cache never holds more entries than its maximum: storing
/// into a cache within its maximum leaves it within it.
pub proof fn lemma_attr_entries_within_max(before: MetadataCache, after: MetadataCache, inode: u64, attr: FileAttr)
    requires
        before.wf(),
        stores_attr(before, after, inode, attr),
        before.config().max_entries >= 1,
        before.attrs().len() <= before.config().max_entries,
    ensures
        after.attrs().len() <= before.config().max_entries,
{
    let max = before.config().max_entries;
    let gone = choose|gone: Set<u64>|
        {
            &&& oldest_evicted(gone, before.attrs(), before.stamps(), max)
            &&& after.attrs() == before.attrs().remove_keys(gone).insert(inode, attr)
            &&& after.stamps() == before.stamps().remove_keys(gone).insert(inode, after.now())
        };
    lemma_attrs_finite(before);
    vstd::set_lib::lemma_len_subset(gone, before.attrs().dom());
    before.attrs().lemma_remove_keys_len(gone);
    let rest = before.attrs().remove_keys(gone);
    assert(rest.dom().subset_of(before.attrs().dom()));
    vstd::set_lib::lemma_len_subset(rest.dom(), before.attrs().dom());
    assert(rest.dom().finite());
    if before.attrs().len() < max {
        assert(gone.len() == 0);
    } else {
        assert(gone.len() >= 1);
    }
    assert(rest.dom().len() + 1 <= max);
    if rest.contains_key(inode) {
        assert(rest.insert(inode, attr).dom() =~= rest.dom());
    } else {
        assert(rest.insert(inode, attr).dom() =~= rest.dom().insert(inode));
    }
    assert(after.attrs().dom().len() <= max);
}

/// Whether something cached `age` ago is still within time to live `ttl`.
pub open spec fn within_ttl(age: Duration, ttl: Duration) -> bool {
    duration_nanos(age) <= duration_nanos(ttl)
}

/// Storing attributes into a cache below its maximum pushes nothing out:
/// the cache keeps every entry and gains at most one.
pub proof fn lemma_attr_store_with_room(before: MetadataCache, after: MetadataCache, inode: u64, attr: FileAttr)
    requires
        before.wf(),
        stores_attr(before, after, inode, attr),
        before.attrs().len() < before.config().max_entries,
    ensures
        after.attrs() == before.attrs().insert(inode, attr),
        after.attrs().len() <= before.attrs().len() + 1,
{
    let gone = choose|gone: Set<u64>|
        {
            &&& oldest_evicted(gone, before.attrs(), before.stamps(), before.config().max_entries)
            &&& after.attrs() == before.attrs().remove_keys(gone).insert(inode, attr)
            &&& after.stamps() == before.stamps().remove_keys(gone).insert(inode, after.now())
        };
    assert(gone.is_empty());
    assert(before.attrs().remove_keys(gone) =~= before.attrs());
    lemma_attrs_finite(before);
    if before.attrs().contains_key(inode) {
        assert(after.attrs().dom() =~= before.attrs().dom());
    } else {
        assert(after.attrs().dom() =~= before.attrs().dom().insert(inode));
    }
}

/// What a read of the attributes of `inode` from cache `c` gives: the
/// cached attributes or, when their time to live has passed or none are
/// cached, nothing.
pub open spec fn attr_read_gives(c: MetadataCache, inode: u64, r: Option<FileAttr>) -> bool {
    &&& !c.attrs().contains_key(inode) ==> r is None
    &&& r matches Some(a) ==> a == c.attrs()[inode]
}

/// Read-after-write: attributes read right after they were stored are the
/// stored ones, unless their time to live has already passed, in which case
/// nothing is read.
pub proof fn lemma_attr_read_after_put(
    before: MetadataCache,
    after: MetadataCache,
    inode: u64,
    attr: FileAttr,
    r: Option<FileAttr>,
)
    requires
        stores_attr(before, after, inode, attr),
        attr_read_gives(after, inode, r),
    ensures
        r is None || r == Some(attr),
{
}

/// Once the attributes of an inode are invalidated, a read of them gives
/// nothing.
pub proof fn lemma_attr_read_after_invalidate(
    before: MetadataCache,
    after: MetadataCache,
    inode: u64,
    r: Option<FileAttr>,
)
    requires
        after.attrs() == before.attrs().remove(inode),
        attr_read_gives(after, inode, r),
    ensures
        r is None,
{
}

/// What a read of the listing of directory `inode` from cache `c` gives:
/// the cached children or, when the time to live has passed or none are
/// cached, nothing.
pub open spec fn dir_read_gives(c: MetadataCache, inode: u64, r: Option<Seq<u64>>) -> bool {
    &&& !c.dirs().contains_key(inode) ==> r is None
    &&& r matches Some(ch) ==> ch == c.dirs()[inode]
}

/// The children of an optional listing.
pub open spec fn children_of(r: Option<Vec<u64>>) -> Option<Seq<u64>> {
    match r {
        Some(v) => Some(v@),
        None => None,
    }
}

/// Read-after-write for listings: a listing read right after it was stored
/// is the stored one, unless its time to live has already passed.
pub proof fn lemma_dir_read_after_put(
    before: MetadataCache,
    after: MetadataCache,
    inode: u64,
    children: Seq<u64>,
    r: Option<Seq<u64>>,
)
    requires
        after.dirs() == before.dirs().insert(inode, children),
        dir_read_gives(after, inode, r),
    ensures
        r is None || r == Some(children),
{
}

/// A path taken out of the negative cache is no longer reported missing.
pub proof fn lemma_not_negative_after_remove(
    before: MetadataCache,
    after: MetadataCache,
    path: Seq<char>,
    reported: bool,
)
    requires
        after.negatives() == before.negatives().remove(path),
        reported ==> after.negatives().contains(path),
    ensures
        !reported,
{
}

/// The attribute cache holds finitely many entries.
proof fn lemma_attrs_finite(c: MetadataCache)
    requires
        c.wf(),
    ensures
        c.attrs().dom().finite(),
{
    assert(attr_table(c.attr_cache).dom().finite());
    assert(c.attrs().dom() =~= attr_table(c.attr_cache).dom());
}

impl MetadataCache {
    /// The cached attributes, by inode.
    pub closed spec fn attrs(&self) -> Map<u64, FileAttr> {
        attr_table(self.attr_cache).map_values(|s: AttrSlot| s.cached.attr)
    }

    /// The use-counter reading at which each entry's attributes were stored
    /// or last updated.
    pub closed spec fn stamps(&self) -> Map<u64, u64> {
        attr_table(self.attr_cache).map_values(|s: AttrSlot| s.stamp)
    }

    /// The cached directory listings, by inode.
    pub closed spec fn dirs(&self) -> Map<u64, Seq<u64>> {
        dir_table(self.dir_cache).map_values(|d: CachedDirEntry| d.children@)
    }

    /// Whether each cached listing was complete.
    pub closed spec fn dirs_complete(&self) -> Map<u64, bool> {
        dir_table(self.dir_cache).map_values(|d: CachedDirEntry| d.complete)
    }

    /// The paths known not to exist.
    pub closed spec fn negatives(&self) -> Set<Seq<char>> {
        negative_table(self.negative_cache).dom()
    }

    /// The configuration.
    pub closed spec fn config(&self) -> MetadataCacheConfig {
        self.config
    }

    /// The use counter.
    pub closed spec fn now(&self) -> u64 {
        self.clock
    }

    /// Finitely many attributes are cached.
    pub closed spec fn wf(&self) -> bool {
        attr_table(self.attr_cache).dom().finite()
    }

    /// Create a new metadata cache
    pub fn new(config: MetadataCacheConfig) -> (r: Self)
        ensures
            r.wf(),
            r.config() == config,
            r.attrs() == Map::<u64, FileAttr>::empty(),
            r.dirs() == Map::<u64, Seq<u64>>::empty(),
            r.negatives() == Set::<Seq<char>>::empty(),
    {
        let r = MetadataCache {
            attr_cache: attr_table_new(),
            dir_cache: dir_table_new(),
            negative_cache: negative_table_new(),
            config,
            clock: 0,
        };
        assert(r.attrs() =~= Map::<u64, FileAttr>::empty());
        assert(r.dirs() =~= Map::<u64, Seq<u64>>::empty());
        assert(r.negatives() =~= Set::<Seq<char>>::empty());
        r
    }

    /// How long ago the attributes of `inode` were cached, when some are.
    /// The length depends on the clock and is not stated.
    pub fn attr_age(&self, inode: u64) -> (r: Option<Duration>)
        ensures
            r is Some <==> self.attrs().contains_key(inode),
    {
        match attr_table_get(&self.attr_cache, inode) {
            Some(slot) => Some(instant_elapsed(&slot.cached.cached_at)),
            None => None,
        }
    }

    /// Get the cached attributes of `inode`, cached `age` ago, counting a hit
    /// or a miss: they are answered when cached and within the attribute
    /// time to live; otherwise nothing is, and attributes past their time to
    /// live are dropped.
    pub fn get_attr_after(&mut self, inode: u64, age: Duration, metrics: &mut Metrics) -> (r: Option<FileAttr>)
        requires
            old(self).wf(),
        ensures
            final(self).wf(),
            final(self).config() == old(self).config(),
            final(self).now() == old(self).now(),
            final(self).dirs() == old(self).dirs(),
            final(self).negatives() == old(self).negatives(),
            if old(self).attrs().contains_key(inode) && within_ttl(age, old(self).config().attr_ttl) {
                &&& r == Some(old(self).attrs()[inode])
                &&& final(self).attrs() == old(self).attrs()
                &&& final(self).stamps() == old(self).stamps()
                &&& (*final(metrics)).same_except(&*old(metrics), 10)
                &&& final(metrics).metadata_cache_hits == wrapped(old(metrics).metadata_cache_hits, 1)
            } else {
                &&& r is None
                &&& final(self).attrs() == old(self).attrs().remove(inode)
                &&& final(self).stamps() == old(self).stamps().remove(inode)
                &&& (*final(metrics)).same_except(&*old(metrics), 11)
                &&& final(metrics).metadata_cache_misses == wrapped(old(metrics).metadata_cache_misses, 1)
            },
    {
        let found = match attr_table_get(&self.attr_cache, inode) {
            Some(slot) => {
                if !exceeds(age, self.config.attr_ttl) {
                    Some(slot.cached.attr)
                } else {
                    None
                }
            },
            None => None,
        };
        match found {
            Some(a) => {
                metrics.inc_metadata_cache_hit();
                Some(a)
            },
            None => {
                attr_table_remove(&mut self.attr_cache, inode);
                proof {
                    assert(self.attrs() =~= old(self).attrs().remove(inode));
                    assert(self.stamps() =~= old(self).stamps().remove(inode));
                }
                metrics.inc_metadata_cache_miss();
                None
            },
        }
    }

    /// Get cached attributes, counting a hit or a miss. Attributes cached
    /// longer than the attribute time to live are dropped and count as a miss
    /// (see `get_attr_after`, which is handed their age).
    pub fn get_attr(&mut self, inode: u64, metrics: &mut Metrics) -> (r: Option<FileAttr>)
        requires
            old(self).wf(),
        ensures
            final(self).wf(),
            final(self).config() == old(self).config(),
            final(self).now() == old(self).now(),
            final(self).dirs() == old(self).dirs(),
            final(self).negatives() == old(self).negatives(),
            !old(self).attrs().contains_key(inode) ==> r is None,
            attr_read_gives(*old(self), inode, r),
            match r {
                Some(a) => {
                    &&& a == old(self).attrs()[inode]
                    &&& final(self).attrs() == old(self).attrs()
                    &&& final(self).stamps() == old(self).stamps()
                    &&& (*final(metrics)).same_except(&*old(metrics), 10)
                    &&& final(metrics).metadata_cache_hits == wrapped(old(metrics).metadata_cache_hits, 1)
                },
                None => {
                    &&& final(self).attrs() == old(self).attrs().remove(inode)
                    &&& final(self).stamps() == old(self).stamps().remove(inode)
                    &&& (*final(metrics)).same_except(&*old(metrics), 11)
                    &&& final(metrics).metadata_cache_misses == wrapped(old(metrics).metadata_cache_misses, 1)
                },
            },
    {
        match self.attr_age(inode) {
            Some(age) => self.get_attr_after(inode, age, metrics),
            None => self.get_attr_after(inode, duration_from_secs(0), metrics),
        }
    }

    /// The cached inode whose attributes were stored or updated longest ago.
    fn oldest_attr(&self) -> (r: Option<u64>)
        ensures
            match r {
                Some(k) => {
                    &&& self.attrs().contains_key(k)
                    &&& forall|j: u64| #[trigger]
                        self.attrs().contains_key(j) ==> self.stamps()[k] <= self.stamps()[j]
                },
                None => self.attrs().is_empty(),
            },
    {
        let keys = attr_table_keys(&self.attr_cache);
        if keys.len() == 0 {
            proof {
                assert(self.attrs().dom() =~= keys@.to_set());
                assert(self.attrs().dom() =~= Set::<u64>::empty());
            }
            return None;
        }
        proof {
            assert(keys@.to_set().contains(keys@[0]));
        }
        let mut best: u64 = keys[0];
        let mut best_stamp: u64 = match attr_table_get(&self.attr_cache, best) {
            Some(s) => s.stamp,
            None => 0,
        };
        let mut i: usize = 1;
        while i < keys.len()
            invariant
                keys@.to_set() == attr_table(self.attr_cache).dom(),
                1 <= i <= keys@.len(),
                attr_table(self.attr_cache).contains_key(best),
                best_stamp == attr_table(self.attr_cache)[best].stamp,
                forall|j: int| 0 <= j < i ==> best_stamp <= #[trigger] attr_table(self.attr_cache)[keys@[j]].stamp,
            decreases keys@.len() - i,
        {
            let k = keys[i];
            proof {
                assert(keys@.to_set().contains(k));
            }
            let s = match attr_table_get(&self.attr_cache, k) {
                Some(s) => s.stamp,
                None => 0,
            };
            if s < best_stamp {
                best = k;
                best_stamp = s;
            }
            i = i + 1;
        }
        proof {
            assert forall|j: u64| #[trigger] self.attrs().contains_key(j) implies self.stamps()[best] <= self.stamps()[j] by {
                assert(keys@.to_set().contains(j));
                let x = choose|x: int| 0 <= x < keys@.len() && keys@[x] == j;
                assert(best_stamp <= attr_table(self.attr_cache)[keys@[x]].stamp);
            }
        }
        Some(best)
    }

    /// Evict the `count` entries whose attributes were stored or updated
    /// longest ago (all of them when fewer are cached).
    fn evict_oldest_attrs(&mut self, count: usize) -> (gone: Ghost<Set<u64>>)
        requires
            old(self).wf(),
        ensures
            final(self).wf() == old(self).wf(),
            final(self).config() == old(self).config(),
            final(self).now() == old(self).now(),
            final(self).dirs() == old(self).dirs(),
            final(self).negatives() == old(self).negatives(),
            gone@.subset_of(old(self).attrs().dom()),
            gone@.len() == if count <= old(self).attrs().len() {
                count as nat
            } else {
                old(self).attrs().len()
            },
            forall|r: u64, k: u64|
                gone@.contains(r) && old(self).attrs().contains_key(k) && !gone@.contains(k)
                    ==> #[trigger] old(self).stamps()[r] <= #[trigger] old(self).stamps()[k],
            final(self).attrs() == old(self).attrs().remove_keys(gone@),
            final(self).stamps() == old(self).stamps().remove_keys(gone@),
    {
        let ghost mut gone: Set<u64> = Set::empty();
        let mut n: usize = 0;
        proof {
            assert(attr_table(old(self).attr_cache).dom().finite());
            assert(old(self).attrs().dom() =~= attr_table(old(self).attr_cache).dom());
            assert(old(self).attrs().remove_keys(gone) =~= old(self).attrs());
            assert(old(self).stamps().remove_keys(gone) =~= old(self).stamps());
        }
        while n < count
            invariant_except_break
                n <= count,
            invariant
                self.wf() == old(self).wf(),
                self.config() == old(self).config(),
                self.now() == old(self).now(),
                self.dirs() == old(self).dirs(),
                self.negatives() == old(self).negatives(),
                old(self).attrs().dom().finite(),
                gone.finite(),
                gone.len() == n,
                gone.len() <= old(self).attrs().len(),
                gone.subset_of(old(self).attrs().dom()),
                forall|r: u64, k: u64|
                    gone.contains(r) && old(self).attrs().contains_key(k) && !gone.contains(k)
                        ==> #[trigger] old(self).stamps()[r] <= #[trigger] old(self).stamps()[k],
                self.attrs() == old(self).attrs().remove_keys(gone),
                self.stamps() == old(self).stamps().remove_keys(gone),
            ensures
                gone.len() == if count <= old(self).attrs().len() {
                    count as nat
                } else {
                    old(self).attrs().len()
                },
            decreases count - n,
        {
            match self.oldest_attr() {
                Some(k) => {
                    let ghost prev = self.attrs();
                    let ghost prev_stamps = self.stamps();
                    attr_table_remove(&mut self.attr_cache, k);
                    proof {
                        assert(self.attrs() =~= prev.remove(k));
                        assert(self.stamps() =~= prev_stamps.remove(k));
                        let g2 = gone.insert(k);
                        assert forall|r: u64, j: u64|
                            g2.contains(r) && old(self).attrs().contains_key(j) && !g2.contains(j)
                                implies #[trigger] old(self).stamps()[r] <= #[trigger] old(self).stamps()[j] by {
                            if r == k {
                                assert(old(self).attrs().remove_keys(gone).contains_key(j));
                            }
                        }
                        gone = g2;
                        assert(self.attrs() =~= old(self).attrs().remove_keys(gone));
                        assert(self.stamps() =~= old(self).stamps().remove_keys(gone));
                    }
                    n = n + 1;
                    proof {
                        vstd::set_lib::lemma_len_subset(gone, old(self).attrs().dom());
                    }
                },
                None => {
                    proof {
                        assert(old(self).attrs().dom() =~= gone) by {
                            assert forall|k: u64| old(self).attrs().contains_key(k) implies gone.contains(k) by {
                                if !gone.contains(k) {
                                    assert(self.attrs().contains_key(k));
                                }
                            }
                        }
                    }
                    break;
                },
            }
        }
        Ghost(gone)
    }

    /// Put attributes in cache. When the cache holds `max_entries` entries or
    /// more, a tenth of `max_entries` of the oldest entries are evicted first.
    pub fn put_attr(&mut self, inode: u64, attr: FileAttr)
        requires
            old(self).wf(),
        ensures
            final(self).wf(),
            final(self).config() == old(self).config(),
            final(self).dirs() == old(self).dirs(),
            final(self).negatives() == old(self).negatives(),
            final(self).now() >= old(self).now(),
            stores_attr(*old(self), *final(self), inode, attr),
    {
        let ghost mut gone: Set<u64> = Set::empty();
        proof {
            assert(old(self).attrs().dom() =~= attr_table(old(self).attr_cache).dom());
        }
        if attr_table_len(&self.attr_cache) >= self.config.max_entries {
            let count = if self.config.max_entries / 10 >= 1 {
                self.config.max_entries / 10
            } else {
                1
            };
            let g = self.evict_oldest_attrs(count);
            proof {
                gone = g@;
            }
        } else {
            proof {
                assert(old(self).attrs().remove_keys(gone) =~= old(self).attrs());
                assert(old(self).stamps().remove_keys(gone) =~= old(self).stamps());
            }
        }
        if self.clock < u64::MAX {
            self.clock = self.clock + 1;
        }
        let slot = AttrSlot { cached: CachedAttr::new(attr), stamp: self.clock };
        attr_table_insert(&mut self.attr_cache, inode, slot);
        proof {
            assert(self.attrs() =~= old(self).attrs().remove_keys(gone).insert(inode, attr));
            assert(self.stamps() =~= old(self).stamps().remove_keys(gone).insert(inode, self.clock));
            assert(oldest_evicted(gone, old(self).attrs(), old(self).stamps(), old(self).config().max_entries));
        }
    }

    /// Update cached attributes with `f`, and refresh their cache time.
    pub fn update_attr<F: FnOnce(FileAttr) -> FileAttr>(&mut self, inode: u64, f: F)
        requires
            old(self).wf(),
            old(self).attrs().contains_key(inode) ==> f.requires((old(self).attrs()[inode],)),
        ensures
            final(self).wf(),
            final(self).config() == old(self).config(),
            final(self).dirs() == old(self).dirs(),
            final(self).negatives() == old(self).negatives(),
            final(self).now() >= old(self).now(),
            final(self).attrs().dom() == old(self).attrs().dom(),
            forall|i: u64| i != inode && #[trigger] old(self).attrs().contains_key(i) ==> final(self).attrs()[i]
                == old(self).attrs()[i],
            old(self).attrs().contains_key(inode) ==> {
                &&& f.ensures((old(self).attrs()[inode],), final(self).attrs()[inode])
                &&& final(self).stamps() == old(self).stamps().insert(inode, final(self).now())
            },
            !old(self).attrs().contains_key(inode) ==> final(self).stamps() == old(self).stamps(),
    {
        let current = match attr_table_get(&self.attr_cache, inode) {
            Some(slot) => Some(slot.cached.attr),
            None => None,
        };
        if let Some(a) = current {
            let updated = f(a);
            if self.clock < u64::MAX {
                self.clock = self.clock + 1;
            }
            let slot = AttrSlot { cached: CachedAttr::new(updated), stamp: self.clock };
            attr_table_insert(&mut self.attr_cache, inode, slot);
            proof {
                assert(self.attrs().dom() =~= old(self).attrs().dom());
                assert(self.stamps() =~= old(self).stamps().insert(inode, self.clock));
            }
        }
    }

    /// Invalidate cached attributes
    pub fn invalidate_attr(&mut self, inode: u64)
        requires
            old(self).wf(),
        ensures
            final(self).wf(),
            final(self).config() == old(self).config(),
            final(self).now() == old(self).now(),
            final(self).attrs() == old(self).attrs().remove(inode),
            final(self).stamps() == old(self).stamps().remove(inode),
            final(self).dirs() == old(self).dirs(),
            final(self).negatives() == old(self).negatives(),
    {
        attr_table_remove(&mut self.attr_cache, inode);
        proof {
            assert(self.attrs() =~= old(self).attrs().remove(inode));
            assert(self.stamps() =~= old(self).stamps().remove(inode));
        }
    }

    /// Get cached directory listing, counting a hit or a miss. Listings
    /// cached longer than the directory time to live are dropped and count
    /// as a miss.
    pub fn get_dir(&mut self, inode: u64, metrics: &mut Metrics) -> (r: Option<Vec<u64>>)
        requires
            old(self).wf(),
        ensures
            final(self).wf(),
            final(self).config() == old(self).config(),
            final(self).now() == old(self).now(),
            final(self).attrs() == old(self).attrs(),
            final(self).stamps() == old(self).stamps(),
            final(self).negatives() == old(self).negatives(),
            !old(self).dirs().contains_key(inode) ==> r is None,
            dir_read_gives(*old(self), inode, children_of(r)),
            match r {
                Some(c) => {
                    &&& c@ == old(self).dirs()[inode]
                    &&& final(self).dirs() == old(self).dirs()
                    &&& (*final(metrics)).same_except(&*old(metrics), 10)
                    &&& final(metrics).metadata_cache_hits == wrapped(old(metrics).metadata_cache_hits, 1)
                },
                None => {
                    &&& final(self).dirs() == old(self).dirs().remove(inode)
                    &&& (*final(metrics)).same_except(&*old(metrics), 11)
                    &&& final(metrics).metadata_cache_misses == wrapped(old(metrics).metadata_cache_misses, 1)
                },
            },
    {
        let found = match dir_table_age(&self.dir_cache, inode) {
            Some(age) => {
                if !exceeds(age, self.config.dir_ttl) {
                    dir_table_children(&self.dir_cache, inode)
                } else {
                    None
                }
            },
            None => None,
        };
        match found {
            Some(c) => {
                metrics.inc_metadata_cache_hit();
                Some(c)
            },
            None => {
                dir_table_remove(&mut self.dir_cache, inode);
                proof {
                    assert(self.dirs() =~= old(self).dirs().remove(inode));
                }
                metrics.inc_metadata_cache_miss();
                None
            },
        }
    }

    /// Put directory listing in cache
    pub fn put_dir(&mut self, inode: u64, children: Vec<u64>, complete: bool)
        requires
            old(self).wf(),
        ensures
            final(self).wf(),
            final(self).config() == old(self).config(),
            final(self).now() == old(self).now(),
            final(self).attrs() == old(self).attrs(),
            final(self).stamps() == old(self).stamps(),
            final(self).negatives() == old(self).negatives(),
            final(self).dirs() == old(self).dirs().insert(inode, children@),
            final(self).dirs_complete() == old(self).dirs_complete().insert(inode, complete),
    {
        let entry = CachedDirEntry::new(children, complete);
        dir_table_insert(&mut self.dir_cache, inode, entry);
        proof {
            assert(self.dirs() =~= old(self).dirs().insert(inode, children@));
            assert(self.dirs_complete() =~= old(self).dirs_complete().insert(inode, complete));
        }
    }

    /// Invalidate cached directory listing
    pub fn invalidate_dir(&mut self, inode: u64)
        requires
            old(self).wf(),
        ensures
            final(self).wf(),
            final(self).config() == old(self).config(),
            final(self).now() == old(self).now(),
            final(self).attrs() == old(self).attrs(),
            final(self).stamps() == old(self).stamps(),
            final(self).negatives() == old(self).negatives(),
            final(self).dirs() == old(self).dirs().remove(inode),
    {
        dir_table_remove(&mut self.dir_cache, inode);
        proof {
            assert(self.dirs() =~= old(self).dirs().remove(inode));
        }
    }

    /// How long ago `path` was found missing, when it is known missing. The
    /// length depends on the clock and is not stated.
    pub fn negative_age(&self, path: &str) -> (r: Option<Duration>)
        requires
            self.wf(),
        ensures
            r is Some <==> self.negatives().contains(path@),
    {
        match negative_table_get(&self.negative_cache, path) {
            Some(at) => Some(instant_elapsed(&at)),
            None => None,
        }
    }

    /// Check the negative cache for `path`, found missing `age` ago: it is
    /// reported missing when known missing within the negative time to live;
    /// an entry past it is dropped and does not count.
    pub fn is_negative_after(&mut self, path: &str, age: Duration) -> (r: bool)
        requires
            old(self).wf(),
        ensures
            final(self).wf(),
            final(self).config() == old(self).config(),
            final(self).now() == old(self).now(),
            final(self).attrs() == old(self).attrs(),
            final(self).stamps() == old(self).stamps(),
            final(self).dirs() == old(self).dirs(),
            r == (old(self).negatives().contains(path@) && within_ttl(age, old(self).config().negative_ttl)),
            r ==> final(self).negatives() == old(self).negatives(),
            !r ==> final(self).negatives() == old(self).negatives().remove(path@),
    {
        match negative_table_get(&self.negative_cache, path) {
            Some(_) => {
                if !exceeds(age, self.config.negative_ttl) {
                    true
                } else {
                    negative_table_remove(&mut self.negative_cache, path);
                    false
                }
            },
            None => {
                proof {
                    assert(old(self).negatives().remove(path@) =~= old(self).negatives());
                }
                false
            },
        }
    }

    /// Check negative cache (non-existent path). An entry older than the
    /// negative time to live is dropped and does not count (see
    /// `is_negative_after`, which is handed its age).
    pub fn is_negative(&mut self, path: &str) -> (r: bool)
        requires
            old(self).wf(),
        ensures
            final(self).wf(),
            final(self).config() == old(self).config(),
            final(self).now() == old(self).now(),
            final(self).attrs() == old(self).attrs(),
            final(self).stamps() == old(self).stamps(),
            final(self).dirs() == old(self).dirs(),
            r ==> old(self).negatives().contains(path@) && final(self).negatives() == old(self).negatives(),
            !r ==> final(self).negatives() == old(self).negatives().remove(path@),
    {
        match self.negative_age(path) {
            Some(age) => self.is_negative_after(path, age),
            None => self.is_negative_after(path, duration_from_secs(0)),
        }
    }

    /// Add to negative cache, known missing as of now.
    pub fn put_negative(&mut self, path: &str)
        requires
            old(self).wf(),
        ensures
            final(self).wf(),
            final(self).config() == old(self).config(),
            final(self).now() == old(self).now(),
            final(self).attrs() == old(self).attrs(),
            final(self).stamps() == old(self).stamps(),
            final(self).dirs() == old(self).dirs(),
            final(self).negatives() == old(self).negatives().insert(path@),
    {
        negative_table_insert(&mut self.negative_cache, path.to_owned(), instant_now());
    }

    /// Remove from negative cache
    pub fn remove_negative(&mut self, path: &str)
        requires
            old(self).wf(),
        ensures
            final(self).wf(),
            final(self).config() == old(self).config(),
            final(self).now() == old(self).now(),
            final(self).attrs() == old(self).attrs(),
            final(self).stamps() == old(self).stamps(),
            final(self).dirs() == old(self).dirs(),
            final(self).negatives() == old(self).negatives().remove(path@),
    {
        negative_table_remove(&mut self.negative_cache, path);
    }

    /// Invalidate all caches for an inode
    pub fn invalidate(&mut self, inode: u64)
        requires
            old(self).wf(),
        ensures
            final(self).wf(),
            final(self).config() == old(self).config(),
            final(self).now() == old(self).now(),
            final(self).attrs() == old(self).attrs().remove(inode),
            final(self).stamps() == old(self).stamps().remove(inode),
            final(self).dirs() == old(self).dirs().remove(inode),
            final(self).negatives() == old(self).negatives(),
    {
        self.invalidate_attr(inode);
        self.invalidate_dir(inode);
    }

    /// Invalidate parent directory cache
    pub fn invalidate_parent(&mut self, parent_inode: u64)
        requires
            old(self).wf(),
        ensures
            final(self).wf(),
            final(self).config() == old(self).config(),
            final(self).now() == old(self).now(),
            final(self).attrs() == old(self).attrs(),
            final(self).stamps() == old(self).stamps(),
            final(self).dirs() == old(self).dirs().remove(parent_inode),
            final(self).negatives() == old(self).negatives(),
    {
        self.invalidate_dir(parent_inode);
    }

    /// Clear all caches
    pub fn clear(&mut self)
        ensures
            final(self).wf(),
            final(self).config() == old(self).config(),
            final(self).now() == old(self).now(),
            final(self).attrs() == Map::<u64, FileAttr>::empty(),
            final(self).dirs() == Map::<u64, Seq<u64>>::empty(),
            final(self).negatives() == Set::<Seq<char>>::empty(),
    {
        attr_table_clear(&mut self.attr_cache);
        dir_table_clear(&mut self.dir_cache);
        negative_table_clear(&mut self.negative_cache);
        proof {
            assert(self.attrs() =~= Map::<u64, FileAttr>::empty());
            assert(self.dirs() =~= Map::<u64, Seq<u64>>::empty());
            assert(self.negatives() =~= Set::<Seq<char>>::empty());
        }
    }

    /// Get cache statistics
    pub fn stats(&self) -> (r: MetadataCacheStats)
        requires
            self.wf(),
        ensures
            r.attr_entries == self.attrs().len(),
            r.dir_entries == self.dirs().len(),
            r.negative_entries == self.negatives().len(),
    {
        proof {
            assert(self.attrs().dom() =~= attr_table(self.attr_cache).dom());
            assert(self.dirs().dom() =~= dir_table(self.dir_cache).dom());
        }
        MetadataCacheStats {
            attr_entries: attr_table_len(&self.attr_cache),
            dir_entries: dir_table_len(&self.dir_cache),
            negative_entries: negative_table_len(&self.negative_cache),
        }
    }
}

} // verus!

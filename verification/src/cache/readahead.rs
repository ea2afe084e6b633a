//! Read-ahead: detects sequential reads of a file and decides when to fetch
//! the data that follows; keeps the fetched data until it is read or stale.
//!
//! The fetch itself, and the limit on how many run at once, belong to the
//! program that performs I/O: it asks `record_read` what to fetch and hands
//! the data back with `store_prefetched`.

use bytes::Bytes;
use dashmap::DashMap;
use std::time::{Duration, Instant};
use vstd::prelude::*;

use crate::config::PerformanceConfig;
use crate::utils::buf::bytes_contents;
use crate::utils::clock::{duration_from_secs, duration_nanos, exceeds, instant_elapsed, instant_now};

verus! {


/// Read-ahead configuration
#[derive(Debug, Clone, Copy)]
pub struct ReadaheadConfig {
    /// Enable read-ahead
    pub enable: bool,
    /// Window size for prefetching
    pub window_size: u64,
    /// Maximum concurrent prefetch operations
    pub concurrency: usize,
    /// Threshold for detecting sequential reads
    pub seq_threshold: usize,
    /// Prefetch data TTL
    pub prefetch_ttl: Duration,
}

impl Default for ReadaheadConfig {
    /// Enabled, a 16 MiB window, four fetches at once, three sequential
    /// reads to start, data kept 30 seconds.
    fn default() -> (r: Self)
        ensures
            r.enable,
            r.window_size == 16 * 1024 * 1024,
            r.concurrency == 4,
            r.seq_threshold == 3,
            duration_nanos(r.prefetch_ttl) == 30_000_000_000,
    {
        ReadaheadConfig {
            enable: true,
            window_size: 16 * 1024 * 1024,
            concurrency: 4,
            seq_threshold: 3,
            prefetch_ttl: duration_from_secs(30),
        }
    }
}

impl ReadaheadConfig {
    /// The read-ahead settings of a performance configuration, with three
    /// sequential reads to start and data kept 30 seconds.
    pub fn from_performance(config: &PerformanceConfig) -> (r: Self)
        ensures
            r.enable == config.read_ahead,
            r.window_size == config.read_ahead_window,
            r.concurrency == config.read_concurrency,
            r.seq_threshold == 3,
            duration_nanos(r.prefetch_ttl) == 30_000_000_000,
    {
        ReadaheadConfig {
            enable: config.read_ahead,
            window_size: config.read_ahead_window,
            concurrency: config.read_concurrency,
            seq_threshold: 3,
            prefetch_ttl: duration_from_secs(30),
        }
    }
}

/// Read state for a file
#[derive(Debug, Clone, Copy)]
pub struct ReadState {
    /// Last read offset
    pub last_offset: u64,
    /// Last read size
    pub last_size: u64,
    /// Sequential read count
    pub seq_count: usize,
    /// Last read time
    pub last_read: Instant,
    /// Current prefetch offset
    pub prefetch_offset: u64,
}

/// What the read state of a file records, apart from the time of its last
/// read.
pub struct ReadProgress {
    pub last_offset: u64,
    pub last_size: u64,
    pub seq_count: usize,
    pub prefetch_offset: u64,
}

/// The read progress of a file not read yet.
pub open spec fn fresh_progress() -> ReadProgress {
    ReadProgress { last_offset: 0, last_size: 0, seq_count: 0, prefetch_offset: 0 }
}

/// One more, unless already at the largest count.
pub open spec fn count_up(n: usize) -> usize {
    if n < usize::MAX {
        (n + 1) as usize
    } else {
        n
    }
}

impl ReadState {
    /// What the state records, apart from the time of the last read.
    pub open spec fn progress(&self) -> ReadProgress {
        ReadProgress {
            last_offset: self.last_offset,
            last_size: self.last_size,
            seq_count: self.seq_count,
            prefetch_offset: self.prefetch_offset,
        }
    }

    /// A state with no read yet.
    pub fn new() -> (r: Self)
        ensures
            r.progress() == fresh_progress(),
    {
        ReadState { last_offset: 0, last_size: 0, seq_count: 0, last_read: instant_now(), prefetch_offset: 0 }
    }

    /// Update state after a read of `size` bytes at `offset`: it is
    /// sequential when it starts where the last read ended. A sequential read
    /// adds one to the count of sequential reads; any other starts it anew.
    pub fn update(&mut self, offset: u64, size: u64) -> (r: bool)
        requires
            old(self).last_offset + old(self).last_size <= u64::MAX,
        ensures
            r == (offset == old(self).last_offset + old(self).last_size),
            final(self).seq_count == if r {
                count_up(old(self).seq_count)
            } else {
                1
            },
            final(self).last_offset == offset,
            final(self).last_size == size,
            final(self).prefetch_offset == old(self).prefetch_offset,
    {
        let is_sequential = offset == self.last_offset + self.last_size;
        if is_sequential {
            if self.seq_count < usize::MAX {
                self.seq_count = self.seq_count + 1;
            }
        } else {
            self.seq_count = 1;
        }
        self.last_offset = offset;
        self.last_size = size;
        self.last_read = instant_now();
        is_sequential
    }

    /// Check if sequential pattern detected
    pub fn is_sequential(&self, threshold: usize) -> (r: bool)
        ensures
            r == (self.seq_count >= threshold),
    {
        self.seq_count >= threshold
    }
}

/// Prefetch request
#[derive(Debug, Clone, Copy, PartialEq, Eq, Structural)]
pub struct PrefetchRequest {
    pub inode: u64,
    pub offset: u64,
    pub size: u64,
}

/// What recording a read of `size` bytes at `offset` does, given the file's
/// progress `p` before it: the new progress, and the data to fetch, if any.
/// Data is fetched once the reads have been sequential `seq_threshold`
/// times in a row, from the end of this read over one window, and only when
/// that start lies past what was already asked for.
pub open spec fn read_step(
    config: ReadaheadConfig,
    p: ReadProgress,
    inode: u64,
    offset: u64,
    size: u64,
) -> (ReadProgress, Option<PrefetchRequest>) {
    let sequential = offset == p.last_offset + p.last_size;
    let count = if sequential {
        count_up(p.seq_count)
    } else {
        1usize
    };
    let start = offset + size;
    let fetch = sequential && count >= config.seq_threshold && start > p.prefetch_offset;
    (
        ReadProgress {
            last_offset: offset,
            last_size: size,
            seq_count: count,
            prefetch_offset: if fetch {
                (start + config.window_size) as u64
            } else {
                p.prefetch_offset
            },
        },
        if fetch {
            Some(PrefetchRequest { inode, offset: start as u64, size: config.window_size })
        } else {
            None
        },
    )
}

/// Read-ahead never asks twice for the same data: a read that is not
/// sequential asks for nothing, and each window asked for starts past where
/// the previous one ended and moves that point to its own end, which only
/// grows.
pub proof fn lemma_prefetch_windows_never_overlap(
    config: ReadaheadConfig,
    p: ReadProgress,
    inode: u64,
    offset: u64,
    size: u64,
)
    requires
        offset + size + config.window_size <= u64::MAX,
    ensures
        ({
            let (q, req) = read_step(config, p, inode, offset, size);
            &&& q.prefetch_offset >= p.prefetch_offset
            &&& offset != p.last_offset + p.last_size ==> req is None
            &&& req matches Some(w) ==> {
                &&& w.inode == inode
                &&& w.offset > p.prefetch_offset
                &&& w.offset == offset + size
                &&& q.prefetch_offset == w.offset + w.size
            }
        }),
{
}

/// The progress of a file after the reads `reads` (offset and size, in
/// order), starting from `p`.
pub open spec fn progress_after(
    config: ReadaheadConfig,
    p: ReadProgress,
    inode: u64,
    reads: Seq<(u64, u64)>,
) -> ReadProgress
    decreases reads.len(),
{
    if reads.len() == 0 {
        p
    } else {
        progress_after(config, read_step(config, p, inode, reads[0].0, reads[0].1).0, inode, reads.drop_first())
    }
}

/// Each read's end and window fit in 64 bits, as `record_read` requires.
pub open spec fn reads_fit(config: ReadaheadConfig, reads: Seq<(u64, u64)>) -> bool {
    forall|k: int| 0 <= k < reads.len() ==> #[trigger] reads[k].0 + reads[k].1 + config.window_size <= u64::MAX
}

/// The point up to which data was asked for never moves back, whatever reads
/// follow.
pub proof fn lemma_prefetch_point_never_falls(
    config: ReadaheadConfig,
    p: ReadProgress,
    inode: u64,
    reads: Seq<(u64, u64)>,
)
    requires
        reads_fit(config, reads),
    ensures
        progress_after(config, p, inode, reads).prefetch_offset >= p.prefetch_offset,
    decreases reads.len(),
{
    if reads.len() > 0 {
        let q = read_step(config, p, inode, reads[0].0, reads[0].1).0;
        lemma_prefetch_windows_never_overlap(config, p, inode, reads[0].0, reads[0].1);
        assert forall|k: int| 0 <= k < reads.drop_first().len() implies #[trigger] reads.drop_first()[k].0
            + reads.drop_first()[k].1 + config.window_size <= u64::MAX by {
            assert(reads.drop_first()[k] == reads[k + 1]);
        }
        lemma_prefetch_point_never_falls(config, q, inode, reads.drop_first());
    }
}

/// Once a window has been asked for, no later read that ends within it asks
/// for anything, whatever reads came in between (as long as the file's state
/// is not dropped).
pub proof fn lemma_window_never_requested_twice(
    config: ReadaheadConfig,
    p: ReadProgress,
    inode: u64,
    offset: u64,
    size: u64,
    reads: Seq<(u64, u64)>,
    later_offset: u64,
    later_size: u64,
)
    requires
        offset + size + config.window_size <= u64::MAX,
        reads_fit(config, reads),
        read_step(config, p, inode, offset, size).1 is Some,
        later_offset + later_size <= read_step(config, p, inode, offset, size).1->0.offset + read_step(
            config,
            p,
            inode,
            offset,
            size,
        ).1->0.size,
    ensures
        read_step(
            config,
            progress_after(config, read_step(config, p, inode, offset, size).0, inode, reads),
            inode,
            later_offset,
            later_size,
        ).1 is None,
{
    lemma_prefetch_windows_never_overlap(config, p, inode, offset, size);
    lemma_prefetch_point_never_falls(config, read_step(config, p, inode, offset, size).0, inode, reads);
}

/// Data fetched ahead of reads, and when.
pub struct Prefetched {
    data: Bytes,
    fetched_at: Instant,
}

/// The data fetched ahead, by (inode, offset).
pub type PrefetchTable = DashMap<(u64, u64), Prefetched>;

/// The entries of a prefetch table: each (inode, offset) with the bytes
/// fetched for it.
pub uninterp spec fn prefetch_table(m: PrefetchTable) -> Map<(u64, u64), Seq<u8>>;

/// `DashMap::new`: an empty table.
#[verifier::external_body]
fn prefetch_table_new() -> (r: PrefetchTable)
    ensures
        prefetch_table(r).is_empty(),
{
    DashMap::new()
}

/// `DashMap::get`, with the bytes taken out of the guard by
/// `Bytes::clone` (which shares them): the data held for `k`, if any.
#[verifier::external_body]
fn prefetch_table_data(m: &PrefetchTable, k: (u64, u64)) -> (r: Option<Bytes>)
    ensures
        match r {
            Some(d) => prefetch_table(*m).contains_key(k) && bytes_contents(d) == prefetch_table(*m)[k],
            None => !prefetch_table(*m).contains_key(k),
        },
{
    match m.get(&k) {
        Some(e) => Some(e.value().data.clone()),
        None => None,
    }
}

/// `DashMap::get`, with the time copied out of the guard: when the data
/// held for `k`, if any, was fetched. Nothing is stated of the value.
#[verifier::external_body]
fn prefetch_table_fetched_at(m: &PrefetchTable, k: (u64, u64)) -> (r: Option<Instant>)
    ensures
        r is Some <==> prefetch_table(*m).contains_key(k),
{
    match m.get(&k) {
        Some(e) => Some(e.value().fetched_at),
        None => None,
    }
}

/// `DashMap::insert`: the table afterwards holds the data of `v` for `k`,
/// all else as before.
#[verifier::external_body]
fn prefetch_table_insert(m: &mut PrefetchTable, k: (u64, u64), v: Prefetched)
    ensures
        prefetch_table(*final(m)) == prefetch_table(*old(m)).insert(k, bytes_contents(v.data)),
{
    m.insert(k, v);
}

/// `DashMap::remove`, its result dropped: the table loses `k`.
#[verifier::external_body]
fn prefetch_table_remove(m: &mut PrefetchTable, k: (u64, u64))
    ensures
        prefetch_table(*final(m)) == prefetch_table(*old(m)).remove(k),
{
    m.remove(&k);
}

/// `DashMap::iter`, keeping the keys: every key of the table, each once (in
/// an order that the table's shards decide).
#[verifier::external_body]
fn prefetch_table_keys(m: &PrefetchTable) -> (r: Vec<(u64, u64)>)
    ensures
        r@.no_duplicates(),
        r@.to_set() == prefetch_table(*m).dom(),
{
    m.iter().map(|e| *e.key()).collect()
}

/// `DashMap::clear`: the table holds nothing.
#[verifier::external_body]
fn prefetch_table_clear(m: &mut PrefetchTable)
    ensures
        prefetch_table(*final(m)).is_empty(),
{
    m.clear();
}

/// `DashMap::len`: how many entries the table holds.
#[verifier::external_body]
fn prefetch_table_len(m: &PrefetchTable) -> (r: usize)
    ensures
        r == prefetch_table(*m).len(),
{
    m.len()
}

/// Read-ahead statistics
#[derive(Debug, Clone, Copy)]
pub struct ReadaheadStats {
    pub tracked_files: usize,
    pub prefetched_blocks: usize,
}

/// The read states of the files being read, by inode.
pub type StateTable = DashMap<u64, ReadState>;

/// The entries of a read-state table: each inode with its read state.
pub uninterp spec fn state_table(m: StateTable) -> Map<u64, ReadState>;

/// `DashMap::new`: an empty table.
#[verifier::external_body]
fn state_table_new() -> (r: StateTable)
    ensures
        state_table(r).is_empty(),
{
    DashMap::new()
}

/// `DashMap::get`, with the state copied out of the guard: what the table
/// holds for `k`, if anything.
#[verifier::external_body]
fn state_table_get(m: &StateTable, k: u64) -> (r: Option<ReadState>)
    ensures
        r == (if state_table(*m).contains_key(k) {
            Some(state_table(*m)[k])
        } else {
            None
        }),
{
    match m.get(&k) {
        Some(e) => Some(*e.value()),
        None => None,
    }
}

/// `DashMap::insert`: the table afterwards maps `k` to `v`, all else as
/// before.
#[verifier::external_body]
fn state_table_insert(m: &mut StateTable, k: u64, v: ReadState)
    ensures
        state_table(*final(m)) == state_table(*old(m)).insert(k, v),
{
    m.insert(k, v);
}

/// `DashMap::remove`, its result dropped: the table loses `k`.
#[verifier::external_body]
fn state_table_remove(m: &mut StateTable, k: u64)
    ensures
        state_table(*final(m)) == state_table(*old(m)).remove(k),
{
    m.remove(&k);
}

/// `DashMap::clear`: the table holds nothing.
#[verifier::external_body]
fn state_table_clear(m: &mut StateTable)
    ensures
        state_table(*final(m)).is_empty(),
{
    m.clear();
}

/// `DashMap::len`: how many entries the table holds.
#[verifier::external_body]
fn state_table_len(m: &StateTable) -> (r: usize)
    ensures
        r == state_table(*m).len(),
{
    m.len()
}

/// Read-ahead manager
pub struct ReadaheadManager {
    /// Per-file read state
    file_states: StateTable,
    /// Prefetch buffer, by (inode, offset)
    prefetch_buffer: PrefetchTable,
    /// Configuration
    config: ReadaheadConfig,
}

impl ReadaheadManager {
    /// The read progress of each file read so far.
    pub closed spec fn states(&self) -> Map<u64, ReadProgress> {
        state_table(self.file_states).map_values(|s: ReadState| s.progress())
    }

    /// The data fetched ahead, by (inode, offset).
    pub closed spec fn prefetched(&self) -> Map<(u64, u64), Seq<u8>> {
        prefetch_table(self.prefetch_buffer)
    }

    /// The configuration.
    pub closed spec fn config(&self) -> ReadaheadConfig {
        self.config
    }

    /// No recorded read ends past the largest offset.
    pub closed spec fn wf(&self) -> bool {
        forall|i: u64| #[trigger]
            state_table(self.file_states).contains_key(i) ==> state_table(self.file_states)[i].last_offset
                + state_table(self.file_states)[i].last_size <= u64::MAX
    }

    /// Create a new read-ahead manager
    pub fn new(config: ReadaheadConfig) -> (r: Self)
        ensures
            r.wf(),
            r.config() == config,
            r.states() == Map::<u64, ReadProgress>::empty(),
            r.prefetched() == Map::<(u64, u64), Seq<u8>>::empty(),
    {
        let r = ReadaheadManager { file_states: state_table_new(), prefetch_buffer: prefetch_table_new(), config };
        assert(r.states() =~= Map::<u64, ReadProgress>::empty());
        assert(r.prefetched() =~= Map::<(u64, u64), Seq<u8>>::empty());
        r
    }

    /// Check if read-ahead is enabled
    pub fn is_enabled(&self) -> (r: bool)
        ensures
            r == self.config().enable,
    {
        self.config.enable
    }

    /// The size of the read-ahead window in bytes.
    pub fn window_size(&self) -> (r: u64)
        ensures
            r == self.config().window_size,
    {
        self.config.window_size
    }

    /// Maximum number of fetches ahead under way at once.
    pub fn concurrency(&self) -> (r: usize)
        ensures
            r == self.config().concurrency,
    {
        self.config.concurrency
    }

    /// Record a read operation and check if prefetch should be triggered
    pub fn record_read(&mut self, inode: u64, offset: u64, size: u64) -> (r: Option<PrefetchRequest>)
        requires
            old(self).wf(),
            offset + size + old(self).config().window_size <= u64::MAX,
        ensures
            final(self).wf(),
            final(self).config() == old(self).config(),
            final(self).prefetched() == old(self).prefetched(),
            !old(self).config().enable ==> r is None && final(self).states() == old(self).states(),
            old(self).config().enable ==> {
                let p = if old(self).states().contains_key(inode) {
                    old(self).states()[inode]
                } else {
                    fresh_progress()
                };
                let (q, req) = read_step(old(self).config(), p, inode, offset, size);
                &&& final(self).states() == old(self).states().insert(inode, q)
                &&& r == req
            },
    {
        if !self.config.enable {
            return None;
        }
        let mut state = match state_table_get(&self.file_states, inode) {
            Some(s) => s,
            None => ReadState::new(),
        };
        let is_sequential = state.update(offset, size);
        let mut result = None;
        if is_sequential && state.is_sequential(self.config.seq_threshold) {
            let prefetch_start = offset + size;
            let prefetch_end = prefetch_start + self.config.window_size;
            if prefetch_start > state.prefetch_offset {
                state.prefetch_offset = prefetch_end;
                result = Some(PrefetchRequest { inode, offset: prefetch_start, size: self.config.window_size });
            }
        }
        state_table_insert(&mut self.file_states, inode, state);
        proof {
            let p = if old(self).states().contains_key(inode) {
                old(self).states()[inode]
            } else {
                fresh_progress()
            };
            assert(self.states() =~= old(self).states().insert(inode, read_step(self.config, p, inode, offset, size).0));
        }
        result
    }

    /// How long ago the data at `offset` of `inode` was fetched ahead, when
    /// some is held. The length depends on the clock and is not stated.
    pub fn prefetch_age(&self, inode: u64, offset: u64) -> (r: Option<Duration>)
        requires
            self.wf(),
        ensures
            r is Some <==> self.prefetched().contains_key((inode, offset)),
    {
        match prefetch_table_fetched_at(&self.prefetch_buffer, (inode, offset)) {
            Some(at) => Some(instant_elapsed(&at)),
            None => None,
        }
    }

    /// Get the data fetched ahead at `offset` of `inode`, fetched `age` ago:
    /// it is answered when held and within the prefetch time to live;
    /// otherwise nothing is, and data past its time to live is dropped.
    pub fn get_prefetched_after(&mut self, inode: u64, offset: u64, age: Duration) -> (r: Option<Bytes>)
        requires
            old(self).wf(),
        ensures
            final(self).wf(),
            final(self).config() == old(self).config(),
            final(self).states() == old(self).states(),
            if old(self).prefetched().contains_key((inode, offset)) && duration_nanos(age) <= duration_nanos(
                old(self).config().prefetch_ttl,
            ) {
                &&& r is Some
                &&& bytes_contents(r->0) == old(self).prefetched()[(inode, offset)]
                &&& final(self).prefetched() == old(self).prefetched()
            } else {
                &&& r is None
                &&& final(self).prefetched() == old(self).prefetched().remove((inode, offset))
            },
    {
        match prefetch_table_data(&self.prefetch_buffer, (inode, offset)) {
            Some(d) => {
                if !exceeds(age, self.config.prefetch_ttl) {
                    Some(d)
                } else {
                    prefetch_table_remove(&mut self.prefetch_buffer, (inode, offset));
                    None
                }
            },
            None => {
                assert(old(self).prefetched().remove((inode, offset)) =~= old(self).prefetched());
                None
            },
        }
    }

    /// Get prefetched data if available. Data older than the prefetch time
    /// to live is dropped instead (see `get_prefetched_after`, which is handed
    /// its age).
    pub fn get_prefetched(&mut self, inode: u64, offset: u64) -> (r: Option<Bytes>)
        requires
            old(self).wf(),
        ensures
            final(self).wf(),
            final(self).config() == old(self).config(),
            final(self).states() == old(self).states(),
            !old(self).prefetched().contains_key((inode, offset)) ==> r is None,
            match r {
                Some(d) => {
                    &&& bytes_contents(d) == old(self).prefetched()[(inode, offset)]
                    &&& final(self).prefetched() == old(self).prefetched()
                },
                None => final(self).prefetched() == old(self).prefetched().remove((inode, offset)),
            },
    {
        match self.prefetch_age(inode, offset) {
            Some(age) => self.get_prefetched_after(inode, offset, age),
            None => self.get_prefetched_after(inode, offset, duration_from_secs(0)),
        }
    }

    /// Store prefetched data, fetched now.
    pub fn store_prefetched(&mut self, inode: u64, offset: u64, data: Bytes)
        requires
            old(self).wf(),
        ensures
            final(self).wf(),
            final(self).config() == old(self).config(),
            final(self).states() == old(self).states(),
            final(self).prefetched() == old(self).prefetched().insert((inode, offset), bytes_contents(data)),
    {
        let entry = Prefetched { data, fetched_at: instant_now() };
        prefetch_table_insert(&mut self.prefetch_buffer, (inode, offset), entry);
    }

    /// Invalidate prefetch data for an inode
    pub fn invalidate(&mut self, inode: u64)
        requires
            old(self).wf(),
        ensures
            final(self).wf(),
            final(self).config() == old(self).config(),
            final(self).states() == old(self).states().remove(inode),
            final(self).prefetched() == old(self).prefetched().restrict(
                Set::new(|k: (u64, u64)| k.0 != inode),
            ),
    {
        state_table_remove(&mut self.file_states, inode);
        assert(self.states() =~= old(self).states().remove(inode));
        let ghost before = self.prefetched();
        let keys = prefetch_table_keys(&self.prefetch_buffer);
        let mut i: usize = 0;
        while i < keys.len()
            invariant
                self.wf(),
                self.config() == old(self).config(),
                self.states() == old(self).states().remove(inode),
                before == old(self).prefetched(),
                keys@.to_set() == before.dom(),
                i <= keys@.len(),
                forall|k: (u64, u64)| #[trigger]
                    self.prefetched().contains_key(k) == (before.contains_key(k) && !(k.0 == inode
                        && keys@.take(i as int).contains(k))),
                forall|k: (u64, u64)| #[trigger]
                    self.prefetched().contains_key(k) ==> self.prefetched()[k] == before[k],
            decreases keys@.len() - i,
        {
            let k = keys[i];
            let ghost prev = self.prefetched();
            if k.0 == inode {
                prefetch_table_remove(&mut self.prefetch_buffer, k);
            }
            proof {
                assert(keys@.take(i + 1) =~= keys@.take(i as int).push(k));
                assert forall|x: (u64, u64)| #[trigger] keys@.take(i + 1).contains(x) <==> (keys@.take(
                    i as int,
                ).contains(x) || x == k) by {
                    if keys@.take(i + 1).contains(x) && x != k {
                        let j = choose|j: int| 0 <= j < i + 1 && #[trigger] keys@.take(i + 1)[j] == x;
                        assert(keys@.take(i as int)[j] == x);
                    }
                    if keys@.take(i as int).contains(x) {
                        let j = choose|j: int| 0 <= j < i && #[trigger] keys@.take(i as int)[j] == x;
                        assert(keys@.take(i + 1)[j] == x);
                    }
                    if x == k {
                        assert(keys@.take(i + 1)[i as int] == x);
                    }
                }
            }
            i = i + 1;
        }
        proof {
            let keep = Set::new(|k: (u64, u64)| k.0 != inode);
            assert(keys@.take(keys@.len() as int) =~= keys@);
            assert forall|k: (u64, u64)| before.contains_key(k) implies keys@.contains(k) by {
                assert(keys@.to_set().contains(k));
            }
            assert(self.prefetched() =~= before.restrict(keep));
        }
    }

    /// Clear all prefetch data
    pub fn clear(&mut self)
        requires
            old(self).wf(),
        ensures
            final(self).wf(),
            final(self).config() == old(self).config(),
            final(self).states() == Map::<u64, ReadProgress>::empty(),
            final(self).prefetched() == Map::<(u64, u64), Seq<u8>>::empty(),
    {
        state_table_clear(&mut self.file_states);
        prefetch_table_clear(&mut self.prefetch_buffer);
        assert(self.states() =~= Map::<u64, ReadProgress>::empty());
        assert(self.prefetched() =~= Map::<(u64, u64), Seq<u8>>::empty());
    }

    /// Get statistics
    pub fn stats(&self) -> (r: ReadaheadStats)
        requires
            self.wf(),
        ensures
            r.tracked_files == self.states().len(),
            r.prefetched_blocks == self.prefetched().len(),
    {
        proof {
            assert(self.states().dom() =~= state_table(self.file_states).dom());
        }
        ReadaheadStats { tracked_files: state_table_len(&self.file_states), prefetched_blocks: prefetch_table_len(&self.prefetch_buffer) }
    }
}

} // verus!

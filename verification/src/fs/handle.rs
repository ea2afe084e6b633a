//! File handle management: open handles and their state.

use dashmap::DashMap;
use std::time::Instant;
use vstd::prelude::*;

use crate::fs::platform::{self, access_mode, open_flags};
use crate::utils::clock::instant_now;
use crate::utils::sets::lemma_push_no_duplicates;

verus! {

/// State for an open file handle
#[derive(Debug, Clone, Copy)]
pub struct HandleState {
    /// Associated inode
    pub inode: u64,
    /// Open flags
    pub flags: u32,
    /// Whether file is opened for writing
    pub writable: bool,
    /// Whether file is opened for reading
    pub readable: bool,
    /// Current file position (for sequential access detection)
    pub position: u64,
    /// Last access time
    pub last_access: Instant,
    /// Whether data has been modified
    pub dirty: bool,
    /// Whether this is a directory handle
    pub is_dir: bool,
}

impl HandleState {
    /// The state of a handle just opened with `flags`.
    pub open spec fn fresh(self, inode: u64, flags: u32, is_dir: bool) -> bool {
        &&& self.inode == inode
        &&& self.flags == flags
        &&& self.writable == (access_mode(flags) == open_flags::O_WRONLY || access_mode(flags)
            == open_flags::O_RDWR)
        &&& self.readable == (access_mode(flags) == open_flags::O_RDONLY || access_mode(flags)
            == open_flags::O_RDWR)
        &&& self.position == 0
        &&& !self.dirty
        &&& self.is_dir == is_dir
    }

    /// Create a new handle state
    pub fn new(inode: u64, flags: u32, is_dir: bool) -> (r: Self)
        ensures
            r.fresh(inode, flags, is_dir),
    {
        HandleState {
            inode,
            flags,
            writable: platform::is_writable(flags),
            readable: platform::is_readable(flags),
            position: 0,
            last_access: instant_now(),
            dirty: false,
            is_dir,
        }
    }

    /// Check if opened with the append flag
    pub fn is_append(&self) -> (r: bool)
        ensures
            r == (self.flags & open_flags::O_APPEND != 0),
    {
        platform::is_append(self.flags)
    }

    /// Check if opened with the truncate flag
    pub fn is_truncate(&self) -> (r: bool)
        ensures
            r == (self.flags & open_flags::O_TRUNC != 0),
    {
        platform::is_truncate(self.flags)
    }

    /// Update position after a read or write of `size` bytes at `offset`.
    pub fn update_position(&mut self, offset: u64, size: u64)
        requires
            offset + size <= u64::MAX,
        ensures
            *final(self) == (HandleState { position: (offset + size) as u64, last_access: final(self).last_access, ..*old(self) }),
    {
        self.position = offset + size;
        self.last_access = instant_now();
    }

    /// Mark as dirty
    pub fn mark_dirty(&mut self)
        ensures
            *final(self) == (HandleState { dirty: true, ..*old(self) }),
    {
        self.dirty = true;
    }
}

/// Handle numbers are never reused: a handle opened at any later point gets
/// a number different from that of a handle open now, whether or not that
/// one was closed since (the next number only grows).
pub proof fn lemma_new_handle_is_fresh(m0: HandleManager, m1: HandleManager, h: u64, r: u64)
    requires
        m0.wf(),
        m0.handles().contains_key(h),
        m0.next() <= m1.next(),
        r == m1.next(),
    ensures
        r != h,
{
}

/// Which handles a scan collects.
#[derive(Clone, Copy)]
pub enum Which {
    OfInode,
    WritableOfInode,
    Dirty,
    Readable,
    Writable,
    Directory,
    Any,
}

/// The condition that a scan of kind `w` collects handles by.
pub open spec fn which_pred(w: Which, inode: u64) -> spec_fn(HandleState) -> bool {
    match w {
        Which::OfInode => |s: HandleState| s.inode == inode,
        Which::WritableOfInode => |s: HandleState| s.inode == inode && s.writable,
        Which::Dirty => |s: HandleState| s.dirty,
        Which::Readable => |s: HandleState| s.readable,
        Which::Writable => |s: HandleState| s.writable,
        Which::Directory => |s: HandleState| s.is_dir,
        Which::Any => |s: HandleState| true,
    }
}

/// Whether `s` meets the condition of a scan of kind `w`.
fn holds(w: Which, s: &HandleState, inode: u64) -> (r: bool)
    ensures
        r == which_pred(w, inode)(*s),
{
    match w {
        Which::OfInode => s.inode == inode,
        Which::WritableOfInode => s.inode == inode && s.writable,
        Which::Dirty => s.dirty,
        Which::Readable => s.readable,
        Which::Writable => s.writable,
        Which::Directory => s.is_dir,
        Which::Any => true,
    }
}

/// Handle manager statistics
#[derive(Debug, Clone, Copy)]
pub struct HandleStats {
    pub total: usize,
    pub readable: usize,
    pub writable: usize,
    pub dirty: usize,
    pub directories: usize,
}

/// The table of open handles: handle numbers to their states.
pub type HandleTable = DashMap<u64, HandleState>;

/// The entries of a handle table: each handle number with its state.
pub uninterp spec fn handle_table(m: HandleTable) -> Map<u64, HandleState>;

/// `DashMap::new`: an empty table.
#[verifier::external_body]
fn table_new() -> (r: HandleTable)
    ensures
        handle_table(r).is_empty(),
{
    DashMap::new()
}

/// `DashMap::insert`: the table afterwards maps `k` to `v`, all else as
/// before (what it held for `k` before is dropped).
#[verifier::external_body]
fn table_insert(m: &mut HandleTable, k: u64, v: HandleState)
    ensures
        handle_table(*final(m)) == handle_table(*old(m)).insert(k, v),
{
    m.insert(k, v);
}

/// `DashMap::get`, with the state copied out of the guard: what the table
/// holds for `k`, if anything.
#[verifier::external_body]
fn table_get(m: &HandleTable, k: u64) -> (r: Option<HandleState>)
    ensures
        r == (if handle_table(*m).contains_key(k) {
            Some(handle_table(*m)[k])
        } else {
            None
        }),
{
    match m.get(&k) {
        Some(e) => Some(*e.value()),
        None => None,
    }
}

/// `DashMap::remove`, with the key dropped from the pair it returns: the
/// table loses `k`, and what it held for `k` is returned.
#[verifier::external_body]
fn table_remove(m: &mut HandleTable, k: u64) -> (r: Option<HandleState>)
    ensures
        handle_table(*final(m)) == handle_table(*old(m)).remove(k),
        r == (if handle_table(*old(m)).contains_key(k) {
            Some(handle_table(*old(m))[k])
        } else {
            None
        }),
{
    match m.remove(&k) {
        Some(kv) => Some(kv.1),
        None => None,
    }
}

/// `DashMap::iter`, keeping the keys: every key of the table, each once (in
/// an order that the table's shards decide).
#[verifier::external_body]
fn table_keys(m: &HandleTable) -> (r: Vec<u64>)
    ensures
        r@.no_duplicates(),
        r@.to_set() == handle_table(*m).dom(),
{
    m.iter().map(|e| *e.key()).collect()
}

/// File handle manager
pub struct HandleManager {
    /// Handle to state mapping
    handles: HandleTable,
    /// Next handle number
    next_handle: u64,
}

impl HandleManager {
    /// The open handles and their states.
    pub closed spec fn handles(&self) -> Map<u64, HandleState> {
        handle_table(self.handles)
    }

    /// The number that the next opened handle receives.
    pub closed spec fn next(&self) -> u64 {
        self.next_handle
    }

    /// Every open handle has a number below the next one to hand out, and
    /// numbers start at one.
    pub open spec fn wf(&self) -> bool {
        &&& forall|h: u64| #[trigger] self.handles().contains_key(h) ==> 1 <= h < self.next()
        &&& self.next() >= 1
    }

    /// The handles whose state satisfies `p`.
    pub open spec fn handles_where(&self, p: spec_fn(HandleState) -> bool) -> Set<u64> {
        self.handles().dom().filter(|h: u64| p(self.handles()[h]))
    }

    /// Create a new handle manager with no open handles; numbering starts at one.
    pub fn new() -> (r: Self)
        ensures
            r.wf(),
            r.handles() == Map::<u64, HandleState>::empty(),
            r.next() == 1,
    {
        let r = HandleManager { handles: table_new(), next_handle: 1 };
        assert(r.handles() =~= Map::<u64, HandleState>::empty());
        r
    }

    /// The number that the next opened handle receives.
    pub fn next_handle(&self) -> (r: u64)
        ensures
            r == self.next(),
    {
        self.next_handle
    }

    /// Open a new handle: it receives the next number, which no open handle has.
    pub fn open(&mut self, inode: u64, flags: u32, is_dir: bool) -> (r: u64)
        requires
            old(self).wf(),
            old(self).next() < u64::MAX,
        ensures
            final(self).wf(),
            r == old(self).next(),
            !old(self).handles().contains_key(r),
            final(self).next() == old(self).next() + 1,
            final(self).handles().dom() == old(self).handles().dom().insert(r),
            final(self).handles().remove(r) == old(self).handles(),
            final(self).handles()[r].fresh(inode, flags, is_dir),
    {
        let handle = self.next_handle;
        self.next_handle = self.next_handle + 1;
        let state = HandleState::new(inode, flags, is_dir);
        table_insert(&mut self.handles, handle, state);
        assert(self.handles().remove(handle) =~= old(self).handles());
        assert(self.handles().dom() =~= old(self).handles().dom().insert(handle));
        handle
    }

    /// Get handle state
    pub fn get(&self, handle: u64) -> (r: Option<HandleState>)
        ensures
            r == (if self.handles().contains_key(handle) {
                Some(self.handles()[handle])
            } else {
                None
            }),
    {
        table_get(&self.handles, handle)
    }

    /// Update handle state with `f`; an unknown handle is left alone.
    pub fn update<F: FnOnce(HandleState) -> HandleState>(&mut self, handle: u64, f: F)
        requires
            old(self).wf(),
            old(self).handles().contains_key(handle) ==> f.requires((old(self).handles()[handle],)),
        ensures
            final(self).wf(),
            final(self).next() == old(self).next(),
            final(self).handles().dom() == old(self).handles().dom(),
            forall|h: u64| h != handle && #[trigger] old(self).handles().contains_key(h) ==> final(self).handles()[h] == old(self).handles()[h],
            old(self).handles().contains_key(handle) ==> f.ensures(
                (old(self).handles()[handle],),
                final(self).handles()[handle],
            ),
    {
        match table_get(&self.handles, handle) {
            Some(s) => {
                let n = f(s);
                table_insert(&mut self.handles, handle, n);
                assert(self.handles().dom() =~= old(self).handles().dom());
            },
            None => {},
        }
    }

    /// Record an access of `size` bytes at `offset` through `handle`: its
    /// position moves past it, and a write makes it dirty.
    pub fn record_access(&mut self, handle: u64, offset: u64, size: u64, written: bool)
        requires
            old(self).wf(),
            offset + size <= u64::MAX,
        ensures
            final(self).wf(),
            final(self).next() == old(self).next(),
            final(self).handles().dom() == old(self).handles().dom(),
            forall|h: u64| h != handle && #[trigger] old(self).handles().contains_key(h) ==> final(self).handles()[h] == old(self).handles()[h],
            old(self).handles().contains_key(handle) ==> {
                let o = old(self).handles()[handle];
                let n = final(self).handles()[handle];
                &&& n == (HandleState {
                    position: (offset + size) as u64,
                    last_access: n.last_access,
                    dirty: o.dirty || written,
                    ..o
                })
            },
    {
        match table_get(&self.handles, handle) {
            Some(s) => {
                let mut n = s;
                n.update_position(offset, size);
                if written {
                    n.mark_dirty();
                }
                table_insert(&mut self.handles, handle, n);
                assert(self.handles().dom() =~= old(self).handles().dom());
            },
            None => {},
        }
    }

    /// Close a handle, returning its state if it was open.
    pub fn close(&mut self, handle: u64) -> (r: Option<HandleState>)
        requires
            old(self).wf(),
        ensures
            final(self).wf(),
            final(self).next() == old(self).next(),
            final(self).handles() == old(self).handles().remove(handle),
            r == (if old(self).handles().contains_key(handle) {
                Some(old(self).handles()[handle])
            } else {
                None
            }),
    {
        let r = table_remove(&mut self.handles, handle);
        assert(self.handles() =~= old(self).handles().remove(handle));
        r
    }

    /// The handles whose state satisfies `p`, each once.
    fn collect(&self, Ghost(p): Ghost<spec_fn(HandleState) -> bool>, which: Which, inode: u64) -> (r: Vec<u64>)
        requires
            which_pred(which, inode) == p,
        ensures
            r@.no_duplicates(),
            r@.to_set() == self.handles_where(p),
    {
        let keys = table_keys(&self.handles);
        let mut r: Vec<u64> = Vec::new();
        let mut i: usize = 0;
        while i < keys.len()
            invariant
                i <= keys@.len(),
                which_pred(which, inode) == p,
                keys@.no_duplicates(),
                keys@.to_set() == self.handles().dom(),
                r@.no_duplicates(),
                forall|x: u64| #[trigger] r@.contains(x) <==> ((exists|j: int| 0 <= j < i && keys@[j] == x) && p(
                    self.handles()[x],
                )),
            decreases keys@.len() - i,
        {
            let k = keys[i];
            assert(keys@.to_set().contains(k));
            assert(!r@.contains(k));
            let ghost r0 = r@;
            if let Some(st) = table_get(&self.handles, k) {
                if holds(which, &st, inode) {
                    proof {
                        lemma_push_no_duplicates(r@, k);
                    }
                    r.push(k);
                    assert(r@ == r0.push(k));
                    assert forall|x: u64| #[trigger] r@.contains(x) <==> ((exists|j: int| 0 <= j < i + 1 && keys@[j] == x)
                        && p(self.handles()[x])) by {
                        if x == k {
                            assert(r@[r0.len() as int] == k);
                        } else {
                            if r@.contains(x) {
                                let j = choose|j: int| 0 <= j < r@.len() && r@[j] == x;
                                assert(r0[j] == x);
                            }
                            if r0.contains(x) {
                                let j = choose|j: int| 0 <= j < r0.len() && r0[j] == x;
                                assert(r@[j] == x);
                            }
                        }
                    }
                }
            }
            i = i + 1;
        }
        assert forall|x: u64| #[trigger] r@.to_set().contains(x) <==> self.handles_where(p).contains(x) by {
            if self.handles().dom().contains(x) {
                assert(keys@.to_set().contains(x));
                let j = choose|j: int| 0 <= j < keys@.len() && keys@[j] == x;
            }
        }
        assert(r@.to_set() =~= self.handles_where(p));
        r
    }

    /// How many open handles satisfy the condition of a scan of kind `which`.
    fn count(&self, which: Which) -> (r: usize)
        ensures
            r == self.handles_where(which_pred(which, 0)).len(),
    {
        let v = self.collect(Ghost(which_pred(which, 0)), which, 0);
        proof {
            v@.unique_seq_to_set();
        }
        v.len()
    }

    /// Get statistics: how many handles are open, readable, writable, dirty
    /// and directories.
    pub fn stats(&self) -> (r: HandleStats)
        ensures
            r.total == self.handles().len(),
            r.readable == self.handles_where(|s: HandleState| s.readable).len(),
            r.writable == self.handles_where(|s: HandleState| s.writable).len(),
            r.dirty == self.handles_where(|s: HandleState| s.dirty).len(),
            r.directories == self.handles_where(|s: HandleState| s.is_dir).len(),
    {
        let total = self.count(Which::Any);
        assert(self.handles_where(which_pred(Which::Any, 0)) =~= self.handles().dom());
        HandleStats {
            total,
            readable: self.count(Which::Readable),
            writable: self.count(Which::Writable),
            dirty: self.count(Which::Dirty),
            directories: self.count(Which::Directory),
        }
    }

    /// Get all handles for an inode, each once.
    pub fn handles_for_inode(&self, inode: u64) -> (r: Vec<u64>)
        ensures
            r@.no_duplicates(),
            r@.to_set() == self.handles_where(|s: HandleState| s.inode == inode),
    {
        self.collect(Ghost(which_pred(Which::OfInode, inode)), Which::OfInode, inode)
    }

    /// Get all dirty handles, each once.
    pub fn dirty_handles(&self) -> (r: Vec<u64>)
        ensures
            r@.no_duplicates(),
            r@.to_set() == self.handles_where(|s: HandleState| s.dirty),
    {
        self.collect(Ghost(which_pred(Which::Dirty, 0)), Which::Dirty, 0)
    }

    /// Check if inode has any open handles
    pub fn has_open_handles(&self, inode: u64) -> (r: bool)
        ensures
            r == exists|h: u64| #[trigger] self.handles().contains_key(h) && self.handles()[h].inode == inode,
    {
        let v = self.collect(Ghost(which_pred(Which::OfInode, inode)), Which::OfInode, inode);
        if v.len() > 0 {
            assert(v@.to_set().contains(v@[0]));
            true
        } else {
            assert forall|h: u64| #[trigger] self.handles().contains_key(h) implies self.handles()[h].inode != inode by {
                if self.handles()[h].inode == inode {
                    assert(self.handles_where(which_pred(Which::OfInode, inode)).contains(h));
                }
            }
            false
        }
    }

    /// Check if inode has any writable handles
    pub fn has_writable_handles(&self, inode: u64) -> (r: bool)
        ensures
            r == exists|h: u64| #[trigger] self.handles().contains_key(h) && self.handles()[h].inode == inode
                && self.handles()[h].writable,
    {
        let v = self.collect(Ghost(which_pred(Which::WritableOfInode, inode)), Which::WritableOfInode, inode);
        if v.len() > 0 {
            assert(v@.to_set().contains(v@[0]));
            true
        } else {
            assert forall|h: u64| #[trigger] self.handles().contains_key(h) implies !(self.handles()[h].inode == inode
                && self.handles()[h].writable) by {
                if self.handles()[h].inode == inode && self.handles()[h].writable {
                    assert(self.handles_where(which_pred(Which::WritableOfInode, inode)).contains(h));
                }
            }
            false
        }
    }
}

} // verus!

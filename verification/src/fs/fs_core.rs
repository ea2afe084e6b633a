//! The filesystem's decisions, shared by every platform binding.
//!
//! Each operation is split at its storage requests: a `_start` step checks
//! the caches and tables and names the request to make, and a `_finish` step
//! takes the reply and updates the caches and tables. The program that
//! talks to storage makes the requests in between.

use bytes::Bytes;
use std::time::{Duration, SystemTime};
use vstd::prelude::*;

use crate::cache::data::{key_for, BlockKey, DataCache, EvictedBlock};
use crate::cache::metadata::{within_ttl, MetadataCache};
use crate::cache::readahead::{PrefetchRequest, ReadaheadConfig, ReadaheadManager};
use crate::cache::write_buffer::{WriteBuffer, WriteBufferConfig};
use crate::config::Config;
use crate::fs::attr::{applied, AttrBuilder, SetAttrFlags};
use crate::fs::dir::{entry_views, DirEntry, DirEntryView};
use crate::fs::handle::{HandleManager, HandleState};
use crate::fs::inode::{FileAttr, InodeManager, ROOT_INODE};
use crate::fs::platform::errno::{EIO, ENOENT, ENOTEMPTY};
use crate::fs::platform::{normalized, FileKind};
use crate::storage::obs::{object_name, ObjectMeta};
use crate::utils::buf::{bytes_clone, bytes_contents, bytes_len, bytes_slice};
use crate::utils::error::StorageErrorKind;
use crate::utils::clock::{duration_from_secs, duration_nanos};
use crate::utils::metrics::Metrics;
use crate::utils::text::{chars_of, push_char, skip_trailing, skip_trailing_at, string_of};

verus! {

/// Core filesystem error type
#[derive(Debug, Clone, Copy, PartialEq, Eq, Structural)]
pub struct FsError {
    pub errno: i32,
}

impl FsError {
    pub fn new(errno: i32) -> (r: Self)
        ensures
            r.errno == errno,
    {
        FsError { errno }
    }

    pub fn not_found() -> (r: Self)
        ensures
            r.errno == ENOENT,
    {
        Self::new(ENOENT)
    }

    pub fn io_error() -> (r: Self)
        ensures
            r.errno == EIO,
    {
        Self::new(EIO)
    }

    pub fn not_empty() -> (r: Self)
        ensures
            r.errno == ENOTEMPTY,
    {
        Self::new(ENOTEMPTY)
    }
}

impl From<i32> for FsError {
    fn from(errno: i32) -> (r: Self) {
        FsError { errno }
    }
}

impl vstd::std_specs::convert::FromSpecImpl<i32> for FsError {
    open spec fn obeys_from_spec() -> bool {
        true
    }

    open spec fn from_spec(errno: i32) -> FsError {
        FsError { errno }
    }
}

/// The error of a failed storage lookup: a missing object is not found,
/// anything else an I/O error.
pub fn stat_error(kind: StorageErrorKind) -> (r: FsError)
    ensures
        r.errno == if kind == StorageErrorKind::NotFound {
            ENOENT
        } else {
            EIO
        },
{
    match kind {
        StorageErrorKind::NotFound => FsError::not_found(),
        _ => FsError::io_error(),
    }
}

/// The path of `name` in the directory at `parent`: the name alone under
/// the root, otherwise the parent without trailing slashes, a `/` and the
/// name.
pub open spec fn joined(parent: Seq<char>, name: Seq<char>) -> Seq<char> {
    if parent.len() == 0 {
        name
    } else {
        skip_trailing(parent, '/').push('/') + name
    }
}

/// The object key of `path` under the bucket prefix, if any: the prefix
/// alone for the root, else the prefix without trailing slashes, a `/` and
/// the path.
pub open spec fn prefixed(prefix: Option<Seq<char>>, path: Seq<char>) -> Seq<char> {
    match prefix {
        Some(p) => if path.len() == 0 {
            p
        } else {
            skip_trailing(p, '/').push('/') + path
        },
        None => path,
    }
}

/// The key of a directory's marker object, and the prefix of its children:
/// the key without trailing slashes and one `/`.
pub open spec fn dir_key(key: Seq<char>) -> Seq<char> {
    skip_trailing(key, '/').push('/')
}

/// Computes the key of a directory's marker object.
pub fn dir_key_of(key: &str) -> (r: String)
    ensures
        r@ == dir_key(key@),
{
    let v = chars_of(key);
    let hi = skip_trailing_at(&v, 0, v.len(), '/');
    assert(v@.subrange(0, v@.len() as int) =~= v@);
    let mut r = string_of(&v, 0, hi);
    push_char(&mut r, '/');
    r
}

/// The kind of entry an object becomes.
pub open spec fn object_kind(is_dir: bool) -> FileKind {
    if is_dir {
        FileKind::Directory
    } else {
        FileKind::RegularFile
    }
}

/// A name that never becomes a directory entry: empty, `.` or `..`.
pub open spec fn hidden_name(name: Seq<char>) -> bool {
    name.len() == 0 || name == seq!['.'] || name == seq!['.', '.']
}

/// The attributes cached for the entries of a listing (`picks` of `metas`
/// below `dir`, numbered by `paths`; the inode of each entry, as in
/// `listing_entries`) are those made from a listed object of the same
/// inode: each entry's inode has cached attributes, and they are the
/// attributes of one of the listed objects that name that inode.
#[verifier::opaque]
pub open spec fn attrs_from_listing(
    attrs: Map<u64, FileAttr>,
    paths: Map<Seq<char>, u64>,
    dir: Seq<char>,
    metas: Seq<ObjectMeta>,
    picks: Seq<(int, int)>,
    perm: crate::config::PermissionConfig,
) -> bool {
    forall|j: int|
        0 <= j < picks.len() ==> {
            let ino = paths[#[trigger] listed_key(dir, metas, picks[j])];
            &&& attrs.contains_key(ino)
            &&& exists|j2: int|
                0 <= j2 < picks.len() && paths[listed_key(dir, metas, #[trigger] picks[j2])] == ino && object_attr(
                    attrs[ino],
                    ino,
                    &metas[picks[j2].0],
                    perm,
                )
        }
}

#[verifier::rlimit(60)]
proof fn lemma_listing_attrs_push(
    attrs0: Map<u64, FileAttr>,
    attrs1: Map<u64, FileAttr>,
    paths0: Map<Seq<char>, u64>,
    paths1: Map<Seq<char>, u64>,
    dir: Seq<char>,
    metas: Seq<ObjectMeta>,
    done: Seq<(int, int)>,
    p: (int, int),
    child: u64,
    attr: FileAttr,
    perm: crate::config::PermissionConfig,
)
    requires
        attrs_from_listing(attrs0, paths0, dir, metas, done, perm),
        attrs1 == attrs0.insert(child, attr),
        object_attr(attr, child, &metas[p.0], perm),
        paths1[listed_key(dir, metas, p)] == child,
        forall|j: int|
            0 <= j < done.len() ==> paths0.contains_key(#[trigger] listed_key(dir, metas, done[j]))
                && paths1[listed_key(dir, metas, done[j])] == paths0[listed_key(dir, metas, done[j])],
    ensures
        attrs_from_listing(attrs1, paths1, dir, metas, done.push(p), perm),
{
    reveal(attrs_from_listing);
    let nd = done.push(p);
    let last = done.len() as int;
    assert(nd[last] == p);
    assert forall|j: int| 0 <= j < nd.len() implies ({
        let ino = paths1[#[trigger] listed_key(dir, metas, nd[j])];
        &&& attrs1.contains_key(ino)
        &&& exists|j2: int|
            0 <= j2 < nd.len() && paths1[listed_key(dir, metas, #[trigger] nd[j2])] == ino && object_attr(
                attrs1[ino],
                ino,
                &metas[nd[j2].0],
                perm,
            )
    }) by {
        if j < done.len() {
            assert(nd[j] == done[j]);
            let ino = paths1[listed_key(dir, metas, nd[j])];
            assert(ino == paths0[listed_key(dir, metas, done[j])]);
            if ino == child {
                assert(paths1[listed_key(dir, metas, nd[last])] == ino);
            } else {
                let j2 = choose|j2: int|
                    0 <= j2 < done.len() && paths0[listed_key(dir, metas, #[trigger] done[j2])] == ino && object_attr(
                        attrs0[ino],
                        ino,
                        &metas[done[j2].0],
                        perm,
                    );
                assert(nd[j2] == done[j2]);
                assert(paths1[listed_key(dir, metas, nd[j2])] == ino);
            }
        } else {
            assert(paths1[listed_key(dir, metas, nd[last])] == child);
        }
    }
}

/// Which listed objects become directory entries, with their offsets: the
/// objects from position `i` on, the next offset being `next`. An object
/// whose offset is at most `offset` was returned before and is passed over;
/// past it, a hidden name is left out without using an offset.
pub open spec fn listing_picks(names: Seq<Seq<char>>, i: int, next: int, offset: int) -> Seq<(int, int)>
    decreases names.len() - i,
{
    if i < 0 || i >= names.len() {
        Seq::empty()
    } else if next <= offset {
        listing_picks(names, i + 1, next + 1, offset)
    } else if hidden_name(names[i]) {
        listing_picks(names, i + 1, next, offset)
    } else {
        seq![(i, next)] + listing_picks(names, i + 1, next + 1, offset)
    }
}

/// Whether a pick comes after offset `offset`.
pub open spec fn picked_after(offset: int) -> spec_fn((int, int)) -> bool {
    |p: (int, int)| p.1 > offset
}

/// Resuming a directory read of a listing without hidden names (empty,
/// `.` or `..`) never repeats or drops a child: the entries it gives after
/// `offset` are exactly those it gives from the start (any offset below the
/// first one) whose offsets lie past `offset`, with the same offsets. A
/// hidden name takes no offset on a first read but one when passed over on
/// resuming, so with hidden names a resumed read can repeat a child.
pub proof fn lemma_listing_resumes_exactly(names: Seq<Seq<char>>, i: int, next: int, offset: int, start: int)
    requires
        start < next,
        forall|j: int| i <= j < names.len() ==> !hidden_name(#[trigger] names[j]),
    ensures
        listing_picks(names, i, next, offset) == listing_picks(names, i, next, start).filter(picked_after(offset)),
    decreases names.len() - i,
{
    if i < 0 || i >= names.len() {
        assert(Seq::<(int, int)>::empty().filter(picked_after(offset)) =~= Seq::<(int, int)>::empty());
    } else if hidden_name(names[i]) {
        lemma_listing_resumes_exactly(names, i + 1, next, offset, start);
    } else {
        lemma_listing_resumes_exactly(names, i + 1, next + 1, offset, start);
        let rest = listing_picks(names, i + 1, next + 1, start);
        assert(listing_picks(names, i, next, start) == seq![(i, next)] + rest);
        Seq::filter_distributes_over_add(seq![(i, next)], rest, picked_after(offset));
        if next > offset {
            assert(seq![(i, next)].filter(picked_after(offset)) =~= seq![(i, next)]) by {
                reveal_with_fuel(Seq::filter, 2);
            }
        } else {
            assert(seq![(i, next)].filter(picked_after(offset)) =~= Seq::<(int, int)>::empty()) by {
                reveal_with_fuel(Seq::filter, 2);
            }
        }
    }
}

/// The names of listed objects.
pub open spec fn listed_names(metas: Seq<ObjectMeta>) -> Seq<Seq<char>> {
    metas.map_values(|m: ObjectMeta| object_name(m.path@))
}

/// The entries a listing adds to a directory read: for each pick, the
/// object's name and kind, the inode its path has in `paths`, and the
/// pick's offset.
pub open spec fn listing_entries(
    dir: Seq<char>,
    metas: Seq<ObjectMeta>,
    picks: Seq<(int, int)>,
    paths: Map<Seq<char>, u64>,
) -> Seq<DirEntryView> {
    picks.map_values(
        |p: (int, int)|
            DirEntryView {
                inode: paths[normalized(joined(dir, object_name(metas[p.0].path@)))],
                name: object_name(metas[p.0].path@),
                kind: object_kind(metas[p.0].is_dir),
                offset: p.1 as i64,
            },
    )
}

/// `a` are the attributes built for object `meta` as inode `inode` with
/// the permission settings `p`.
pub open spec fn object_attr(a: FileAttr, inode: u64, meta: &ObjectMeta, p: crate::config::PermissionConfig) -> bool {
    let (uid, gid, mode) = crate::fs::attr::permissions_for(p, meta.is_dir);
    &&& meta.is_dir ==> a.is_directory_attr(inode, uid, gid, mode)
    &&& !meta.is_dir ==> a.is_file_attr(inode, meta.size, uid, gid, mode)
    &&& a.atime == a.mtime
    &&& a.ctime == a.mtime
    &&& meta.last_modified is Some ==> a.mtime == meta.last_modified->0
}

/// The inode given as `..` of directory `inode` at `path`: the root for the
/// root, else the inode of the parent path if known, else the root.
pub open spec fn parent_inode_of(paths: Map<Seq<char>, u64>, inode: u64, path: Seq<char>) -> u64 {
    let pp = normalized(crate::utils::text::before_last(normalized(path), '/'));
    if inode == ROOT_INODE || normalized(path).len() == 0 {
        ROOT_INODE
    } else if paths.contains_key(pp) {
        paths[pp]
    } else {
        ROOT_INODE
    }
}

/// The prefix listed for a directory whose object key is `key`: nothing for
/// the bucket root, else the directory key.
pub open spec fn list_prefix_of(key: Seq<char>) -> Seq<char> {
    if key.len() == 0 {
        key
    } else {
        dir_key(key)
    }
}

/// The `.` and `..` entries a directory read from `offset` starts with.
pub open spec fn dot_entries(inode: u64, parent: u64, offset: i64) -> Seq<DirEntryView> {
    let dot = DirEntryView { inode, name: seq!['.'], kind: FileKind::Directory, offset: 1 };
    let dotdot = DirEntryView { inode: parent, name: seq!['.', '.'], kind: FileKind::Directory, offset: 2 };
    (if offset < 1 {
        seq![dot]
    } else {
        Seq::empty()
    }) + (if offset < 2 {
        seq![dotdot]
    } else {
        Seq::empty()
    })
}

/// The dot entries of a listing started at `offset`: `.` naming the
/// directory itself at offset one, then `..` naming `parent` at offset two,
/// each only when the listing starts before it; and the root is its own
/// parent.
pub proof fn lemma_dot_entries_shape(paths: Map<Seq<char>, u64>, path: Seq<char>, inode: u64, parent: u64, offset: i64)
    ensures
        ({
            let v = dot_entries(inode, parent, offset);
            let dot = DirEntryView { inode, name: seq!['.'], kind: FileKind::Directory, offset: 1 };
            let dotdot = DirEntryView { inode: parent, name: seq!['.', '.'], kind: FileKind::Directory, offset: 2 };
            &&& offset < 1 ==> v.len() == 2 && v[0] == dot && v[1] == dotdot
            &&& 1 <= offset < 2 ==> v.len() == 1 && v[0] == dotdot
            &&& offset >= 2 ==> v.len() == 0
        }),
        parent_inode_of(paths, ROOT_INODE, path) == ROOT_INODE,
{
}

/// The `..` entry of a directory listing names the parent directory: for a
/// directory other than the root whose path is `name` joined below `q` (a
/// name without `/` below a path without outer `/`), with `q` known to the
/// inode table, the `..` entry that a listing started before it gives (see
/// `readdir_start`) is the last of the dot entries and carries the inode of
/// `q`.
pub proof fn lemma_dotdot_is_parent(
    c: ObsFsCore,
    inode: u64,
    offset: i64,
    st: ReaddirStart,
    q: Seq<char>,
    name: Seq<char>,
)
    requires
        inode != ROOT_INODE,
        q.len() > 0 ==> q[0] != '/' && q.last() != '/',
        name.len() > 0,
        forall|i: int| 0 <= i < name.len() ==> name[i] != '/',
        c.inode_mgr.entries().contains_key(inode),
        c.inode_mgr.entries()[inode].path == joined(q, name),
        c.inode_mgr.paths().contains_key(q),
        offset < 2,
        entry_views(st.entries@) == dot_entries(
            inode,
            parent_inode_of(c.inode_mgr.paths(), inode, c.inode_mgr.entries()[inode].path),
            offset,
        ),
    ensures
        entry_views(st.entries@).len() > 0,
        entry_views(st.entries@).last() == (DirEntryView {
            inode: c.inode_mgr.paths()[q],
            name: seq!['.', '.'],
            kind: FileKind::Directory,
            offset: 2,
        }),
{
    crate::fs::inode::lemma_parent_of_joined(q, name);
    if q.len() > 0 {
        assert(crate::utils::text::skip_leading(q, '/') == q);
        assert(skip_trailing(q, '/') == q);
    }
    assert(normalized(q) == q);
}

/// The cached attributes `a` after a write ending at `end` made at time
/// `now`: the size grows to `end` if smaller, and the modification time is
/// `now`.
pub open spec fn attrs_after_write(a: FileAttr, end: int, now: SystemTime) -> FileAttr {
    FileAttr { size: crate::cache::write_buffer::larger(a.size, end), mtime: now, ..a }
}

/// What a write does to cached attributes: the modification time becomes
/// the time of the write, whatever it was; the size becomes the larger of
/// the old size and the write's end; nothing else changes.
pub proof fn lemma_write_stamps_attributes(a: FileAttr, end: int, now: SystemTime)
    requires
        0 <= end <= u64::MAX,
    ensures
        ({
            let r = attrs_after_write(a, end, now);
            &&& r.mtime == now
            &&& r.size >= a.size && r.size >= end
            &&& (r.size == a.size || r.size == end)
            &&& r.ino == a.ino && r.kind == a.kind && r.perm == a.perm && r.uid == a.uid && r.gid == a.gid
            &&& r.atime == a.atime && r.ctime == a.ctime && r.crtime == a.crtime && r.blocks == a.blocks
            &&& r.nlink == a.nlink
        }),
{
}

/// The key under which the inode of a listed object is found.
pub open spec fn listed_key(dir: Seq<char>, metas: Seq<ObjectMeta>, p: (int, int)) -> Seq<char> {
    normalized(joined(dir, object_name(metas[p.0].path@)))
}

proof fn lemma_listing_push(
    dir: Seq<char>,
    metas: Seq<ObjectMeta>,
    picks: Seq<(int, int)>,
    p: (int, int),
    m: Map<Seq<char>, u64>,
)
    ensures
        listing_entries(dir, metas, picks.push(p), m) == listing_entries(dir, metas, picks, m).push(
            DirEntryView {
                inode: m[listed_key(dir, metas, p)],
                name: object_name(metas[p.0].path@),
                kind: object_kind(metas[p.0].is_dir),
                offset: p.1 as i64,
            },
        ),
{
    assert(listing_entries(dir, metas, picks.push(p), m) =~= listing_entries(dir, metas, picks, m).push(
        DirEntryView {
            inode: m[listed_key(dir, metas, p)],
            name: object_name(metas[p.0].path@),
            kind: object_kind(metas[p.0].is_dir),
            offset: p.1 as i64,
        },
    ));
}

proof fn lemma_listing_stable(
    dir: Seq<char>,
    metas: Seq<ObjectMeta>,
    picks: Seq<(int, int)>,
    m1: Map<Seq<char>, u64>,
    m2: Map<Seq<char>, u64>,
)
    requires
        forall|j: int|
            0 <= j < picks.len() ==> m1.contains_key(#[trigger] listed_key(dir, metas, picks[j]))
                && m2.contains_key(listed_key(dir, metas, picks[j])) && m1[listed_key(dir, metas, picks[j])]
                == m2[listed_key(dir, metas, picks[j])],
    ensures
        listing_entries(dir, metas, picks, m1) == listing_entries(dir, metas, picks, m2),
{
    assert forall|j: int| 0 <= j < picks.len() implies listing_entries(dir, metas, picks, m1)[j]
        == listing_entries(dir, metas, picks, m2)[j] by {
        assert(m1[listed_key(dir, metas, picks[j])] == m2[listed_key(dir, metas, picks[j])]);
    }
    assert(listing_entries(dir, metas, picks, m1) =~= listing_entries(dir, metas, picks, m2));
}

/// Whether `name` never becomes a directory entry (see `hidden_name`).
pub fn is_hidden_name(name: &str) -> (r: bool)
    ensures
        r == hidden_name(name@),
{
    let v = chars_of(name);
    let r = v.len() == 0 || (v.len() == 1 && v[0] == '.') || (v.len() == 2 && v[0] == '.' && v[1] == '.');
    proof {
        if v.len() == 1 && v[0] == '.' {
            assert(name@ =~= seq!['.']);
        }
        if v.len() == 2 && v[0] == '.' && v[1] == '.' {
            assert(name@ =~= seq!['.', '.']);
        }
    }
    r
}

/// Where a getattr stands after the cache was consulted.
pub enum GetattrStart {
    /// The cache answered.
    Cached(FileAttr),
    /// Storage must be asked about this object key.
    Fetch(String),
}

/// The objects of a listing that make a directory non-empty: any but its
/// own marker (the listed prefix) and keys ending in `/.`.
pub open spec fn holds_children(prefix: Seq<char>, metas: Seq<ObjectMeta>) -> bool {
    exists|i: int|
        0 <= i < metas.len() && #[trigger] metas[i].path@ != prefix && !ends_with_slash_dot(metas[i].path@)
}

/// `key` ends with `/.`.
pub open spec fn ends_with_slash_dot(key: Seq<char>) -> bool {
    key.len() >= 2 && key[key.len() - 2] == '/' && key[key.len() - 1] == '.'
}

/// The block holding a byte written at `o`, within a write of `written`
/// bytes at `offset`, lies in the block range that the write invalidates.
pub proof fn lemma_written_byte_in_range(inode: u64, o: u64, offset: u64, written: nat, bs: u64)
    requires
        bs > 0,
        offset <= o < offset + written,
    ensures
        crate::cache::data::in_block_range(
            key_for(inode, o, bs),
            inode,
            (offset / bs) as int,
            (offset + written + bs - 1) / (bs as int),
            bs,
        ),
{
    let q = o as int / bs as int;
    vstd::arithmetic::div_mod::lemma_mod_multiples_basic(q, bs as int);
    vstd::arithmetic::div_mod::lemma_div_by_multiple(q, bs as int);
    vstd::arithmetic::div_mod::lemma_div_is_ordered(offset as int, o as int, bs as int);
    vstd::arithmetic::div_mod::lemma_div_is_ordered(o as int, offset + written - 1, bs as int);
    vstd::arithmetic::div_mod::lemma_hoist_over_denominator(offset + written - 1, 1, bs as nat);
    assert(q * bs <= o) by (nonlinear_arith)
        requires
            q == o as int / bs as int,
            bs > 0,
    {
    }
    assert(0 <= q) by (nonlinear_arith)
        requires
            q == o as int / bs as int,
            bs > 0,
            o >= 0,
    {
    }
    assert(0 <= q * bs) by (nonlinear_arith)
        requires
            0 <= q,
            bs > 0,
    {
    }
}

/// What dropping the blocks of `inode` did to the disk tier of a data cache:
/// its blocks of `inode` left the index, the bytes counted stayed, and
/// `gone` are exactly the keys that left.
pub open spec fn disk_dropped(before: DataCache, after: DataCache, inode: u64, gone: Seq<BlockKey>) -> bool {
    match before.disk_tier() {
        None => after.disk_tier() is None && gone.len() == 0,
        Some(d) => after.disk_tier() matches Some(n) && {
            &&& n.entries() == d.entries().restrict(Set::new(|k: BlockKey| k.inode != inode))
            &&& n.usage() == d.usage()
            &&& n.limit() == d.limit()
            &&& forall|k: BlockKey| gone.contains(k) <==> d.entries().contains_key(k) && k.inode == inode
        },
    }
}

/// Where a lookup stands after the caches were consulted.
pub enum LookupStart {
    /// The caches answered.
    Found(u64, FileAttr),
    /// Storage must be asked about `obs_path`, the key of `child_path`.
    Fetch { child_path: String, obs_path: String },
}

/// What a lookup asks storage about, in turn: the object at the path's
/// key, the directory marker below it, and a listing of what lies below it.
#[derive(Debug, Clone, Copy, PartialEq, Eq, Structural)]
pub enum LookupProbe {
    File,
    DirMarker,
    Listing,
}

/// What a lookup does after a probe of storage.
#[derive(Debug, Clone, Copy, PartialEq, Eq, Structural)]
pub enum LookupNext {
    /// Ask storage the next probe.
    Probe(LookupProbe),
    /// Register the object found as a file (`lookup_found`).
    File,
    /// Register the marker found as a directory (`lookup_found_dir`).
    Dir,
    /// Register a directory that exists through its children
    /// (`lookup_implicit_dir`).
    ImplicitDir,
    /// Record that nothing exists there (`lookup_missing`).
    Missing,
}

/// The order of a lookup's storage probes: a file object found is a file;
/// otherwise a directory marker found is a directory; otherwise a nonempty
/// listing below the path is a directory; otherwise the path does not exist.
pub open spec fn lookup_step(probe: LookupProbe, found: bool) -> LookupNext {
    match probe {
        LookupProbe::File => if found {
            LookupNext::File
        } else {
            LookupNext::Probe(LookupProbe::DirMarker)
        },
        LookupProbe::DirMarker => if found {
            LookupNext::Dir
        } else {
            LookupNext::Probe(LookupProbe::Listing)
        },
        LookupProbe::Listing => if found {
            LookupNext::ImplicitDir
        } else {
            LookupNext::Missing
        },
    }
}

/// What a lookup does after `probe` found something (`found`) or nothing
/// (see `lookup_step`); a lookup begins with `LookupProbe::File`.
pub fn lookup_after_probe(probe: LookupProbe, found: bool) -> (r: LookupNext)
    ensures
        r == lookup_step(probe, found),
{
    match probe {
        LookupProbe::File => if found {
            LookupNext::File
        } else {
            LookupNext::Probe(LookupProbe::DirMarker)
        },
        LookupProbe::DirMarker => if found {
            LookupNext::Dir
        } else {
            LookupNext::Probe(LookupProbe::Listing)
        },
        LookupProbe::Listing => if found {
            LookupNext::ImplicitDir
        } else {
            LookupNext::Missing
        },
    }
}

/// Where a read stands after the read-ahead buffer and the data cache were
/// consulted.
pub enum ReadStart {
    /// The caches answered.
    Data(Bytes),
    /// `size` bytes at the offset of the read must be fetched from
    /// `obs_path`.
    Fetch { obs_path: String },
    /// The disk tier holds block `key`: its file is to be read and handed to
    /// `read_disk_finish`; storage is read at `obs_path` if that fails.
    Disk { key: BlockKey, obs_path: String },
    /// The file's write buffer holds bytes not yet uploaded: it is to be
    /// flushed first, and the read begun again, so that the read sees them.
    Flush,
}

/// What a lookup of `name` in directory `parent` answers from core `c`'s
/// tables: not found when the parent is unknown or the path is known
/// missing; otherwise the inode of the path with its cached attributes, or
/// a fetch of the path's object from storage, which is due whenever the
/// path has no inode or no cached attributes (cached attributes whose time
/// to live has passed lead to a fetch too).
pub open spec fn lookup_outcome(c: ObsFsCore, parent: u64, name: Seq<char>, r: Result<LookupStart, FsError>) -> bool {
    let child = joined(c.inode_mgr.entries()[parent].path, name);
    let known = c.inode_mgr.paths().contains_key(normalized(child)) && c.metadata_cache.attrs().contains_key(
        c.inode_mgr.paths()[normalized(child)],
    );
    &&& !c.inode_mgr.entries().contains_key(parent) ==> r is Err
    &&& c.inode_mgr.entries().contains_key(parent) && !c.metadata_cache.negatives().contains(child) ==> r is Ok
    &&& c.inode_mgr.entries().contains_key(parent) && !c.metadata_cache.negatives().contains(child) && !known
        ==> (r matches Ok(LookupStart::Fetch { .. }))
    &&& match r {
        Err(e) => e.errno == ENOENT && (!c.inode_mgr.entries().contains_key(parent)
            || c.metadata_cache.negatives().contains(child)),
        Ok(LookupStart::Found(inode, attr)) => {
            &&& c.inode_mgr.entries().contains_key(parent)
            &&& c.inode_mgr.paths().contains_key(normalized(child))
            &&& inode == c.inode_mgr.paths()[normalized(child)]
            &&& c.metadata_cache.attrs().contains_key(inode)
            &&& attr == c.metadata_cache.attrs()[inode]
        },
        Ok(LookupStart::Fetch { child_path, obs_path }) => {
            &&& c.inode_mgr.entries().contains_key(parent)
            &&& child_path@ == child
            &&& obs_path@ == c.key_of(child_path@)
        },
    }
}

/// What a lookup of `name` in directory `parent` answers from core `c`'s
/// tables, given how long ago the path was found missing and how long ago
/// the attributes of its inode were cached: not found when the parent is
/// unknown or the path was found missing within the negative time to live;
/// the path's inode and its cached attributes when they were cached within
/// the attribute time to live; otherwise a fetch of the path's object.
pub open spec fn lookup_outcome_after(
    c: ObsFsCore,
    parent: u64,
    name: Seq<char>,
    negative_age: Duration,
    attr_age: Duration,
    r: Result<LookupStart, FsError>,
) -> bool {
    let child = joined(c.inode_mgr.entries()[parent].path, name);
    let np = normalized(child);
    let missing = c.metadata_cache.negatives().contains(child) && within_ttl(
        negative_age,
        c.metadata_cache.config().negative_ttl,
    );
    let fresh = c.inode_mgr.paths().contains_key(np) && c.metadata_cache.attrs().contains_key(c.inode_mgr.paths()[np])
        && within_ttl(attr_age, c.metadata_cache.config().attr_ttl);
    if !c.inode_mgr.entries().contains_key(parent) || missing {
        r matches Err(e) && e.errno == ENOENT
    } else if fresh {
        r == Ok::<LookupStart, FsError>(
            LookupStart::Found(c.inode_mgr.paths()[np], c.metadata_cache.attrs()[c.inode_mgr.paths()[np]]),
        )
    } else {
        r matches Ok(LookupStart::Fetch { child_path, obs_path }) && child_path@ == child && obs_path@ == c.key_of(child)
    }
}

/// What creating file `child_path` in `parent` with `mode` and `flags` did,
/// going from core `c0` to `c1` and returning inode, attributes and handle
/// `r`: the path has an inode (made if new) whose fresh file attributes are
/// cached, the path is no longer known missing, the parent's cached listing
/// is dropped, and a handle is open on the inode.
pub open spec fn creates_file(
    c0: ObsFsCore,
    c1: ObsFsCore,
    parent: u64,
    child_path: Seq<char>,
    mode: u32,
    flags: u32,
    r: (u64, FileAttr, u64),
) -> bool {
    &&& c1.data_cache == c0.data_cache
    &&& c1.readahead == c0.readahead
    &&& c1.write_buffer == c0.write_buffer
    &&& c1.config == c0.config
    &&& crate::fs::inode::get_or_create_effect(c0.inode_mgr, c1.inode_mgr, child_path, false, 0, r.0)
    &&& r.1.is_file_attr(r.0, 0, c0.config.permission.fixed.uid, c0.config.permission.fixed.gid, mode)
    &&& c1.metadata_cache.attrs().contains_key(r.0)
    &&& c1.metadata_cache.attrs()[r.0] == r.1
    &&& c1.metadata_cache.negatives() == c0.metadata_cache.negatives().remove(child_path)
    &&& !c1.metadata_cache.dirs().contains_key(parent)
    &&& r.2 == c0.handle_mgr.next()
    &&& c1.handle_mgr.handles()[r.2].fresh(r.0, flags, false)
    &&& c1.handle_mgr.handles().remove(r.2) == c0.handle_mgr.handles()
}

/// A file just created is never reported missing: looking its name up in
/// the directory it was created in finds the created inode with the
/// attributes it was given, or, once those attributes have expired from
/// the cache, asks storage again.
pub proof fn lemma_lookup_after_create(
    c0: ObsFsCore,
    c1: ObsFsCore,
    parent: u64,
    name: Seq<char>,
    mode: u32,
    flags: u32,
    created: (u64, FileAttr, u64),
    r: Result<LookupStart, FsError>,
)
    requires
        c0.wf(),
        c0.inode_mgr.entries().contains_key(parent),
        creates_file(c0, c1, parent, joined(c0.inode_mgr.entries()[parent].path, name), mode, flags, created),
        lookup_outcome(c1, parent, name, r),
    ensures
        r is Ok,
        r matches Ok(LookupStart::Found(inode, attr)) ==> inode == created.0 && attr == created.1,
{
    let child = joined(c0.inode_mgr.entries()[parent].path, name);
    let np = normalized(child);
    if !c0.inode_mgr.paths().contains_key(np) {
        assert(c0.inode_mgr.entries().contains_key(parent));
        assert(parent < c0.inode_mgr.next());
        assert(parent != created.0);
        assert(c1.inode_mgr.entries().remove(created.0).contains_key(parent));
        assert(c1.inode_mgr.entries()[parent] == c0.inode_mgr.entries()[parent]);
    }
    assert(c1.inode_mgr.entries().contains_key(parent));
    assert(joined(c1.inode_mgr.entries()[parent].path, name) == child);
    assert(!c1.metadata_cache.negatives().contains(child));
}

/// What a read of `size` bytes at `offset` of `inode` comes to when the
/// read-ahead buffer does not answer it, decided by core `c`'s data cache:
/// the part of the cached block from the offset on (up to `size` bytes)
/// when the block is in memory and reaches that far; the disk tier's block
/// when memory lacks it and the disk tier has it; otherwise a fetch from
/// the file's object.
pub open spec fn cache_read_outcome(
    c: ObsFsCore,
    inode: u64,
    offset: u64,
    size: u32,
    r: Result<ReadStart, FsError>,
) -> bool {
    let bs = c.data_cache.bsize();
    let key = key_for(inode, offset, bs);
    let object = c.key_of(c.inode_mgr.entries()[inode].path);
    let start = ((offset % bs) as usize) as int;
    if c.data_cache.blocks().contains_key(key) && start < c.data_cache.blocks()[key].len() {
        let block = c.data_cache.blocks()[key];
        r matches Ok(ReadStart::Data(d)) && bytes_contents(d) == block.subrange(
            start,
            if start + size < block.len() {
                start + size
            } else {
                block.len() as int
            },
        )
    } else if !c.data_cache.blocks().contains_key(key) && (c.data_cache.disk_tier() matches Some(t)
        && t.entries().contains_key(key)) {
        r matches Ok(ReadStart::Disk { key: k, obs_path }) && k == key && obs_path@ == object
    } else {
        r matches Ok(ReadStart::Fetch { obs_path }) && obs_path@ == object
    }
}

/// A renamed file is never hidden by an earlier miss: once a rename has
/// dropped the new path from the negative cache, a lookup of the new name
/// in a known directory whose path joins to it is not answered "not
/// found" from the caches.
pub proof fn lemma_lookup_after_rename(
    c0: ObsFsCore,
    c1: ObsFsCore,
    new_parent: u64,
    new_name: Seq<char>,
    new_path: Seq<char>,
    r: Result<LookupStart, FsError>,
)
    requires
        c1.metadata_cache.negatives() == c0.metadata_cache.negatives().remove(new_path),
        c1.inode_mgr.entries().contains_key(new_parent),
        joined(c1.inode_mgr.entries()[new_parent].path, new_name) == new_path,
        lookup_outcome(c1, new_parent, new_name, r),
    ensures
        r is Ok,
{
}

/// A renamed file is found under its new name at once: after the rename, a
/// lookup of the new name in a known directory whose path joins to it goes to
/// storage for the new path (no earlier miss or stale attributes answer it),
/// and the object found there is registered under the inode the file had
/// before the rename.
pub proof fn lemma_renamed_file_found_under_new_name(
    c0: ObsFsCore,
    c1: ObsFsCore,
    c2: ObsFsCore,
    new_parent: u64,
    new_name: Seq<char>,
    old_path: Seq<char>,
    new_path: Seq<char>,
    r: Result<LookupStart, FsError>,
    is_dir: bool,
    size: u64,
    found: u64,
)
    requires
        crate::fs::inode::rename_effect(c0.inode_mgr, c1.inode_mgr, old_path, new_path),
        c1.metadata_cache.negatives() == c0.metadata_cache.negatives().remove(new_path),
        c1.inode_mgr.paths().contains_key(normalized(new_path)) ==> !c1.metadata_cache.attrs().contains_key(
            c1.inode_mgr.paths()[normalized(new_path)],
        ),
        c0.inode_mgr.paths().contains_key(normalized(old_path)),
        c1.inode_mgr.entries().contains_key(new_parent),
        joined(c1.inode_mgr.entries()[new_parent].path, new_name) == new_path,
        lookup_outcome(c1, new_parent, new_name, r),
        crate::fs::inode::get_or_create_effect(c1.inode_mgr, c2.inode_mgr, new_path, is_dir, size, found),
    ensures
        r matches Ok(LookupStart::Fetch { child_path, .. }) && child_path@ == new_path,
        found == c0.inode_mgr.paths()[normalized(old_path)],
        c2.inode_mgr.paths()[normalized(new_path)] == found,
{
    crate::fs::inode::lemma_rename_moves_inode(c0.inode_mgr, c1.inode_mgr, old_path, new_path);
}

/// Whether the write buffer of `inode` in core `c` holds bytes written and
/// not yet uploaded, which a read must not miss.
pub open spec fn write_pending(c: ObsFsCore, inode: u64) -> bool {
    let b = c.write_buffer.buffers();
    b.contains_key(inode) && b[inode].dirty && b[inode].data.len() > 0
}

/// What a read of `size` bytes at `offset` of `inode` comes to, the data
/// fetched ahead for that offset, if any, having been fetched
/// `prefetch_age` ago: that data (up to `size` bytes) when it is held and
/// within the prefetch time to live, otherwise what the data cache decides
/// (see `cache_read_outcome`).
pub open spec fn prefetch_read_outcome(
    c: ObsFsCore,
    inode: u64,
    offset: u64,
    size: u32,
    prefetch_age: Duration,
    r: Result<ReadStart, FsError>,
) -> bool {
    let p = c.readahead.prefetched();
    if p.contains_key((inode, offset)) && duration_nanos(prefetch_age) <= duration_nanos(
        c.readahead.config().prefetch_ttl,
    ) {
        r matches Ok(ReadStart::Data(d)) && bytes_contents(d) == p[(inode, offset)].take(
            if (size as int) < p[(inode, offset)].len() {
                size as int
            } else {
                p[(inode, offset)].len() as int
            },
        )
    } else {
        cache_read_outcome(c, inode, offset, size, r)
    }
}

/// The data cache serves the file's own bytes: once a read that starts a
/// block has cached the bytes storage gave for it, a later read at any
/// offset of that block within those bytes, which the read-ahead buffer
/// does not answer, gets exactly the file's bytes from that offset on (up
/// to `size` bytes), whichever read came first.
pub proof fn lemma_cached_block_serves_file_bytes(
    c0: ObsFsCore,
    c1: ObsFsCore,
    inode: u64,
    offset: u64,
    content: Seq<u8>,
    n: nat,
    evicted: Seq<EvictedBlock>,
    o: u64,
    size: u32,
    r: Result<ReadStart, FsError>,
)
    requires
        c0.data_cache.bsize() > 0,
        offset % c0.data_cache.bsize() == 0,
        offset + n <= content.len(),
        n <= usize::MAX,
        crate::cache::data::stores(
            c0.data_cache,
            c1.data_cache,
            key_for(inode, offset, c0.data_cache.bsize()),
            content.subrange(offset as int, offset + n),
            evicted,
        ),
        key_for(inode, o, c0.data_cache.bsize()) == key_for(inode, offset, c0.data_cache.bsize()),
        offset <= o < offset + n,
        cache_read_outcome(c1, inode, o, size, r),
    ensures
        r matches Ok(ReadStart::Data(d)) && bytes_contents(d) == content.subrange(
            o as int,
            if o + size < offset + n {
                o + size
            } else {
                offset + n
            },
        ),
{
    let bs = c0.data_cache.bsize();
    let key = key_for(inode, offset, bs);
    vstd::arithmetic::div_mod::lemma_fundamental_div_mod(offset as int, bs as int);
    vstd::arithmetic::div_mod::lemma_fundamental_div_mod(o as int, bs as int);
    assert((offset / bs) * bs == offset) by (nonlinear_arith)
        requires
            offset == bs * (offset / bs) + offset % bs,
            offset % bs == 0,
    ;
    assert(key.offset == offset);
    assert(((o / bs) * bs) as u64 == offset);
    assert((o / bs) * bs == bs * (o / bs)) by (nonlinear_arith);
    assert(o % bs == o - offset);
    let block = content.subrange(offset as int, offset + n);
    assert(c1.data_cache.blocks().contains_key(key));
    assert(c1.data_cache.blocks()[key] == block);
    let start = ((o % bs) as usize) as int;
    assert(start == o - offset);
    let end = if start + size < block.len() {
        start + size
    } else {
        block.len() as int
    };
    assert(block.subrange(start, end) =~= content.subrange(
        o as int,
        if o + size < offset + n {
            o + size
        } else {
            offset + n
        },
    ));
}

/// After a write, no byte of the written range is answered from blocks the
/// memory cache held: a read of it that the read-ahead buffer does not
/// answer goes to the disk tier or to storage.
pub proof fn lemma_written_bytes_not_served_from_memory(
    c: ObsFsCore,
    inode: u64,
    offset: u64,
    written: nat,
    o: u64,
    size: u32,
    r: Result<ReadStart, FsError>,
)
    requires
        forall|p: u64|
            offset <= p < offset + written ==> !#[trigger] c.data_cache.blocks().contains_key(
                key_for(inode, p, c.data_cache.bsize()),
            ),
        offset <= o < offset + written,
        cache_read_outcome(c, inode, o, size, r),
    ensures
        !(r matches Ok(ReadStart::Data(_))),
{
    assert(!c.data_cache.blocks().contains_key(key_for(inode, o, c.data_cache.bsize())));
}

/// Where a directory read stands before listing storage.
pub struct ReaddirStart {
    /// The directory's path.
    pub path: String,
    /// The prefix of the objects to list.
    pub list_prefix: String,
    /// The `.` and `..` entries still due.
    pub entries: Vec<DirEntry>,
}

/// Core OBS filesystem logic shared between platforms
pub struct ObsFsCore {
    /// Inode manager
    pub inode_mgr: InodeManager,
    /// Metadata cache
    pub metadata_cache: MetadataCache,
    /// Data cache
    pub data_cache: DataCache,
    /// Read-ahead manager
    pub readahead: ReadaheadManager,
    /// Write buffer
    pub write_buffer: WriteBuffer,
    /// File handle manager
    pub handle_mgr: HandleManager,
    /// Configuration
    pub config: Config,
    /// Metrics
    pub metrics: Metrics,
    /// Attribute TTL
    pub attr_ttl: Duration,
    /// Entry TTL
    pub entry_ttl: Duration,
}

impl ObsFsCore {
    /// Every part is well formed, the data cache has a block size, and
    /// inodes get the configured owner and mode.
    pub open spec fn wf(&self) -> bool {
        &&& self.inode_mgr.wf()
        &&& self.metadata_cache.wf()
        &&& self.data_cache.wf()
        &&& self.data_cache.bsize() > 0
        &&& self.readahead.wf()
        &&& self.write_buffer.wf()
        &&& self.handle_mgr.wf()
        &&& self.inode_mgr.permissions() == self.config.permission
    }

    /// The parts of `a` and `b` other than the inode table, the metadata
    /// cache and the metrics are the same.
    pub open spec fn same_but_tables(a: &ObsFsCore, b: &ObsFsCore) -> bool {
        &&& a.data_cache == b.data_cache
        &&& a.readahead == b.readahead
        &&& a.write_buffer == b.write_buffer
        &&& a.handle_mgr == b.handle_mgr
        &&& a.config == b.config
        &&& a.attr_ttl == b.attr_ttl
        &&& a.entry_ttl == b.entry_ttl
    }

    /// Create a new OBS filesystem core
    pub fn new(config: Config, metrics: Metrics) -> (r: Self)
        requires
            config.cache.block_size > 0,
        ensures
            r.wf(),
            r.config == config,
            r.metrics == metrics,
            r.attr_ttl == config.cache.metadata.attr_ttl,
            r.entry_ttl == config.cache.metadata.dir_ttl,
            r.inode_mgr.paths() == map![Seq::<char>::empty() => ROOT_INODE],
            r.inode_mgr.entries().dom() == set![ROOT_INODE],
            r.inode_mgr.entries()[ROOT_INODE].path == Seq::<char>::empty(),
            r.inode_mgr.entries()[ROOT_INODE].is_dir,
            r.inode_mgr.entries()[ROOT_INODE].attr.is_directory_attr(
                ROOT_INODE,
                config.permission.fixed.uid,
                config.permission.fixed.gid,
                config.permission.fixed.dir_mode,
            ),
            r.metadata_cache.config() == config.cache.metadata,
            r.metadata_cache.attrs() == Map::<u64, FileAttr>::empty(),
            r.metadata_cache.dirs() == Map::<u64, Seq<u64>>::empty(),
            r.metadata_cache.negatives() == Set::<Seq<char>>::empty(),
            r.data_cache.blocks() == Map::<BlockKey, Seq<u8>>::empty(),
            r.handle_mgr.handles() == Map::<u64, HandleState>::empty(),
    {
        let inode_mgr = InodeManager::new(config.permission);
        let metadata_cache = MetadataCache::new(config.cache.metadata);
        let data_cache = DataCache::new(&config.cache);
        let readahead = ReadaheadManager::new(ReadaheadConfig::from_performance(&config.performance));
        let write_buffer = WriteBuffer::new(WriteBufferConfig::from_performance(&config.performance));
        let handle_mgr = HandleManager::new();
        let attr_ttl = config.cache.metadata.attr_ttl;
        let entry_ttl = config.cache.metadata.dir_ttl;
        ObsFsCore {
            inode_mgr,
            metadata_cache,
            data_cache,
            readahead,
            write_buffer,
            handle_mgr,
            config,
            metrics,
            attr_ttl,
            entry_ttl,
        }
    }

    /// Whether `count` more inodes can still be numbered.
    pub fn inodes_fit(&self, count: usize) -> (r: bool)
        ensures
            r == (self.inode_mgr.next() + count < u64::MAX),
    {
        let next = self.inode_mgr.stats().next_inode;
        next < u64::MAX && (count as u64) < u64::MAX - next
    }

    /// Whether another handle can still be numbered.
    pub fn handles_fit(&self) -> (r: bool)
        ensures
            r == (self.handle_mgr.next() < u64::MAX),
    {
        self.handle_mgr.next_handle() < u64::MAX
    }

    /// Whether `len` more bytes can be counted as in memory.
    pub fn cache_fits(&self, len: usize) -> (r: bool)
        requires
            self.wf(),
        ensures
            r == (self.data_cache.usage() + len <= u64::MAX),
    {
        let used = self.data_cache.stats().memory_usage;
        (len as u64) <= u64::MAX - used && len as u128 <= u64::MAX as u128
    }

    /// Whether a read of `size` bytes at `offset`, with the read-ahead window
    /// after it, stays within the byte offsets a file can have.
    pub fn window_fits(&self, offset: u64, size: u32) -> (r: bool)
        ensures
            r == (offset + size + self.readahead.config().window_size <= u64::MAX),
    {
        (offset as u128 + size as u128 + self.readahead.window_size() as u128) <= u64::MAX as u128
    }

    /// Whether the blocks of a write of `len` bytes at `offset` stay within
    /// the byte offsets a file can have.
    pub fn block_range_fits(&self, offset: u64, len: usize) -> (r: bool)
        ensures
            r == (offset + len + self.data_cache.bsize() <= u64::MAX),
    {
        (offset as u128 + len as u128 + self.data_cache.block_size() as u128) <= u64::MAX as u128
    }

    /// Get path for an inode
    pub fn get_path(&self, inode: u64) -> (r: Result<String, FsError>)
        ensures
            match r {
                Ok(p) => self.inode_mgr.entries().contains_key(inode) && p@ == self.inode_mgr.entries()[inode].path,
                Err(e) => !self.inode_mgr.entries().contains_key(inode) && e.errno == ENOENT,
            },
    {
        match self.inode_mgr.get_path(inode) {
            Some(p) => Ok(p),
            None => Err(FsError::not_found()),
        }
    }

    /// Build full OBS path with optional prefix
    pub fn obs_path(&self, path: &str) -> (r: String)
        ensures
            r@ == prefixed(
                match self.config.obs.prefix {
                    Some(p) => Some(p@),
                    None => None,
                },
                path@,
            ),
    {
        match &self.config.obs.prefix {
            Some(prefix) => {
                if path.is_empty() {
                    prefix.clone()
                } else {
                    let v = chars_of(prefix.as_str());
                    let hi = skip_trailing_at(&v, 0, v.len(), '/');
                    assert(v@.subrange(0, v@.len() as int) =~= v@);
                    let mut r = string_of(&v, 0, hi);
                    push_char(&mut r, '/');
                    r.append(path);
                    r
                }
            },
            None => path.to_owned(),
        }
    }

    /// The object key the configured prefix gives `path`.
    pub open spec fn key_of(&self, path: Seq<char>) -> Seq<char> {
        prefixed(
            match self.config.obs.prefix {
                Some(p) => Some(p@),
                None => None,
            },
            path,
        )
    }

    /// The path of `name` in directory `parent`, and its object key.
    pub fn child_of(&self, parent: u64, name: &str) -> (r: Result<(String, String), FsError>)
        ensures
            match r {
                Ok((child, key)) => {
                    &&& self.inode_mgr.entries().contains_key(parent)
                    &&& child@ == joined(self.inode_mgr.entries()[parent].path, name@)
                    &&& key@ == self.key_of(child@)
                },
                Err(e) => !self.inode_mgr.entries().contains_key(parent) && e.errno == ENOENT,
            },
    {
        let parent_path = match self.get_path(parent) {
            Ok(p) => p,
            Err(e) => return Err(e),
        };
        let child_path = InodeManager::join_path(parent_path.as_str(), name);
        let obs_path = self.obs_path(child_path.as_str());
        Ok((child_path, obs_path))
    }
    /// Lookup a name in a directory, as far as the caches go, given how long
    /// ago the path was found missing (`negative_age`) and how long ago its
    /// inode's attributes were cached (`attr_age`): the lookup fails as not
    /// found when the parent is unknown or the path was found missing within
    /// the negative time to live; it is answered with the path's inode and
    /// attributes when they are cached within the attribute time to live;
    /// anything else must be asked of storage.
    pub fn lookup_start_after(&mut self, parent: u64, name: &str, negative_age: Duration, attr_age: Duration) -> (r:
        Result<LookupStart, FsError>)
        requires
            old(self).wf(),
        ensures
            final(self).wf(),
            final(self).inode_mgr == old(self).inode_mgr,
            Self::same_but_tables(&*final(self), &*old(self)),
            final(self).metadata_cache.config() == old(self).metadata_cache.config(),
            final(self).metadata_cache.dirs() == old(self).metadata_cache.dirs(),
            lookup_outcome(*old(self), parent, name@, r),
            lookup_outcome_after(*old(self), parent, name@, negative_age, attr_age, r),
            r matches Ok(LookupStart::Fetch { child_path, .. }) ==> !final(self).metadata_cache.negatives().contains(
                child_path@,
            ),
    {
        let (child_path, obs_path) = match self.child_of(parent, name) {
            Ok(c) => c,
            Err(e) => return Err(e),
        };
        if self.metadata_cache.is_negative_after(child_path.as_str(), negative_age) {
            return Err(FsError::not_found());
        }
        if let Some(inode) = self.inode_mgr.get_inode(child_path.as_str()) {
            if let Some(attr) = self.metadata_cache.get_attr_after(inode, attr_age, &mut self.metrics) {
                return Ok(LookupStart::Found(inode, attr));
            }
        }
        Ok(LookupStart::Fetch { child_path, obs_path })
    }

    /// Lookup a name in a directory, as far as the caches go: a path known
    /// not to exist is not found; a known inode with cached attributes is
    /// found; anything else must be asked of storage. The ages of the cached
    /// entries are read from the clock (see `lookup_start_after`).
    pub fn lookup_start(&mut self, parent: u64, name: &str) -> (r: Result<LookupStart, FsError>)
        requires
            old(self).wf(),
        ensures
            final(self).wf(),
            final(self).inode_mgr == old(self).inode_mgr,
            Self::same_but_tables(&*final(self), &*old(self)),
            final(self).metadata_cache.config() == old(self).metadata_cache.config(),
            final(self).metadata_cache.dirs() == old(self).metadata_cache.dirs(),
            lookup_outcome(*old(self), parent, name@, r),
            r matches Ok(LookupStart::Fetch { child_path, .. }) ==> !final(self).metadata_cache.negatives().contains(
                child_path@,
            ),
    {
        let zero = duration_from_secs(0);
        let (negative_age, attr_age) = match self.child_of(parent, name) {
            Ok((child_path, _)) => {
                let n = match self.metadata_cache.negative_age(child_path.as_str()) {
                    Some(a) => a,
                    None => zero,
                };
                let a = match self.inode_mgr.get_inode(child_path.as_str()) {
                    Some(inode) => match self.metadata_cache.attr_age(inode) {
                        Some(a) => a,
                        None => zero,
                    },
                    None => zero,
                };
                (n, a)
            },
            Err(_) => (zero, zero),
        };
        self.lookup_start_after(parent, name, negative_age, attr_age)
    }

    /// Register the object found for `child_path`: its inode (made if new)
    /// and its attributes, which are cached.
    pub fn lookup_found(&mut self, child_path: &str, meta: &ObjectMeta) -> (r: (u64, FileAttr))
        requires
            old(self).wf(),
            old(self).inode_mgr.next() < u64::MAX,
        ensures
            final(self).wf(),
            Self::same_but_tables(&*final(self), &*old(self)),
            crate::fs::inode::get_or_create_effect(
                old(self).inode_mgr,
                final(self).inode_mgr,
                child_path@,
                meta.is_dir,
                meta.size,
                r.0,
            ),
            object_attr(r.1, r.0, meta, old(self).config.permission),
            final(self).metadata_cache.attrs().contains_key(r.0),
            final(self).metadata_cache.attrs()[r.0] == r.1,
    {
        let inode = self.inode_mgr.get_or_create_inode(child_path, meta.is_dir, meta.size);
        let attr = AttrBuilder::new(&self.config.permission).from_object_meta(inode, meta);
        self.metadata_cache.put_attr(inode, attr);
        (inode, attr)
    }

    /// Register the directory marker found for `child_path`: its inode
    /// (made as a directory if new) and its attributes, which are cached.
    pub fn lookup_found_dir(&mut self, child_path: &str, meta: &ObjectMeta) -> (r: (u64, FileAttr))
        requires
            old(self).wf(),
            old(self).inode_mgr.next() < u64::MAX,
        ensures
            final(self).wf(),
            Self::same_but_tables(&*final(self), &*old(self)),
            crate::fs::inode::get_or_create_effect(old(self).inode_mgr, final(self).inode_mgr, child_path@, true, 0, r.0),
            object_attr(r.1, r.0, meta, old(self).config.permission),
            final(self).metadata_cache.attrs().contains_key(r.0),
            final(self).metadata_cache.attrs()[r.0] == r.1,
    {
        let inode = self.inode_mgr.get_or_create_inode(child_path, true, 0);
        let attr = AttrBuilder::new(&self.config.permission).from_object_meta(inode, meta);
        self.metadata_cache.put_attr(inode, attr);
        (inode, attr)
    }

    /// Register `child_path` as a directory that exists only through the
    /// objects below it: its inode (made as a directory if new) and fresh
    /// directory attributes, which are cached.
    pub fn lookup_implicit_dir(&mut self, child_path: &str) -> (r: (u64, FileAttr))
        requires
            old(self).wf(),
            old(self).inode_mgr.next() < u64::MAX,
        ensures
            final(self).wf(),
            Self::same_but_tables(&*final(self), &*old(self)),
            crate::fs::inode::get_or_create_effect(old(self).inode_mgr, final(self).inode_mgr, child_path@, true, 0, r.0),
            r.1.is_directory_attr(
                r.0,
                old(self).config.permission.fixed.uid,
                old(self).config.permission.fixed.gid,
                old(self).config.permission.fixed.dir_mode,
            ),
            final(self).metadata_cache.attrs().contains_key(r.0),
            final(self).metadata_cache.attrs()[r.0] == r.1,
    {
        let inode = self.inode_mgr.get_or_create_inode(child_path, true, 0);
        let attr = AttrBuilder::new(&self.config.permission).new_directory(inode, None);
        self.metadata_cache.put_attr(inode, attr);
        (inode, attr)
    }

    /// Record that nothing exists at `child_path`; the lookup fails with
    /// not found.
    pub fn lookup_missing(&mut self, child_path: &str) -> (r: FsError)
        requires
            old(self).wf(),
        ensures
            final(self).wf(),
            final(self).inode_mgr == old(self).inode_mgr,
            Self::same_but_tables(&*final(self), &*old(self)),
            final(self).metrics == old(self).metrics,
            final(self).metadata_cache.negatives() == old(self).metadata_cache.negatives().insert(child_path@),
            final(self).metadata_cache.attrs() == old(self).metadata_cache.attrs(),
            final(self).metadata_cache.dirs() == old(self).metadata_cache.dirs(),
            r.errno == ENOENT,
    {
        self.metadata_cache.put_negative(child_path);
        FsError::not_found()
    }
    /// Begin reading directory `inode` from `offset`: its path, the prefix
    /// to list, and the `.` and `..` entries still due.
    pub fn readdir_start(&self, inode: u64, offset: i64) -> (r: Result<ReaddirStart, FsError>)
        ensures
            match r {
                Err(e) => !self.inode_mgr.entries().contains_key(inode) && e.errno == ENOENT,
                Ok(st) => {
                    let path = self.inode_mgr.entries()[inode].path;
                    &&& self.inode_mgr.entries().contains_key(inode)
                    &&& st.path@ == path
                    &&& st.list_prefix@ == list_prefix_of(self.key_of(path))
                    &&& entry_views(st.entries@) == dot_entries(
                        inode,
                        parent_inode_of(self.inode_mgr.paths(), inode, path),
                        offset,
                    )
                },
            },
    {
        let path = match self.get_path(inode) {
            Ok(p) => p,
            Err(e) => return Err(e),
        };
        let obs_path = self.obs_path(path.as_str());
        let mut entries: Vec<DirEntry> = Vec::new();
        if offset < 1 {
            entries.push(DirEntry::dot(inode));
        }
        if offset < 2 {
            let parent_inode = if inode == ROOT_INODE {
                ROOT_INODE
            } else {
                match InodeManager::parent_path(path.as_str()) {
                    Some(p) => match self.inode_mgr.get_inode(p.as_str()) {
                        Some(i) => i,
                        None => ROOT_INODE,
                    },
                    None => ROOT_INODE,
                }
            };
            entries.push(DirEntry::dotdot(parent_inode));
        }
        let list_prefix = if obs_path.as_str().is_empty() {
            String::new()
        } else {
            dir_key_of(obs_path.as_str())
        };
        proof {
            let parent = parent_inode_of(self.inode_mgr.paths(), inode, path@);
            assert(entry_views(entries@) =~= dot_entries(inode, parent, offset));
        }
        Ok(ReaddirStart { path, list_prefix, entries })
    }

    /// Finish reading directory `inode` at `path` from `offset`, given the
    /// objects listed below it: each listed object that becomes an entry
    /// (see `listing_picks`) gets an inode (made if new) and its attributes
    /// cached, and the directory's children become those inodes.
    pub fn readdir_finish(
        &mut self,
        inode: u64,
        path: &str,
        offset: i64,
        start_entries: Vec<DirEntry>,
        metas: &Vec<ObjectMeta>,
    ) -> (r: Vec<DirEntry>)
        requires
            old(self).wf(),
            old(self).inode_mgr.next() + metas@.len() < u64::MAX,
            metas@.len() + 3 <= i64::MAX,
        ensures
            final(self).wf(),
            Self::same_but_tables(&*final(self), &*old(self)),
            ({
                let picks = listing_picks(listed_names(metas@), 0, 3, offset as int);
                let added = listing_entries(path@, metas@, picks, final(self).inode_mgr.paths());
                &&& entry_views(r@) == entry_views(start_entries@) + added
                &&& forall|p: Seq<char>| #[trigger]
                    old(self).inode_mgr.paths().contains_key(p) ==> final(self).inode_mgr.paths().contains_key(p)
                        && final(self).inode_mgr.paths()[p] == old(self).inode_mgr.paths()[p]
                &&& old(self).inode_mgr.entries().contains_key(inode) ==> {
                    &&& final(self).inode_mgr.entries().contains_key(inode)
                    &&& final(self).inode_mgr.entries()[inode].children == Some(
                        added.map_values(|e: DirEntryView| e.inode),
                    )
                }
                &&& old(self).metadata_cache.attrs().len() + metas@.len() < old(self).metadata_cache.config().max_entries
                    ==> attrs_from_listing(
                    final(self).metadata_cache.attrs(),
                    final(self).inode_mgr.paths(),
                    path@,
                    metas@,
                    picks,
                    old(self).config.permission,
                )
            }),
            final(self).metadata_cache.config() == old(self).metadata_cache.config(),
    {
        let ghost names = listed_names(metas@);
        let ghost all_picks = listing_picks(names, 0, 3, offset as int);
        let ghost mut done: Seq<(int, int)> = Seq::empty();
        let mut entries = start_entries;
        let mut child_inodes: Vec<u64> = Vec::new();
        let mut entry_offset: i64 = 3;
        let mut i: usize = 0;
        proof {
            reveal(attrs_from_listing);
            assert(done + all_picks =~= all_picks);
            assert(entry_views(entries@) =~= entry_views(start_entries@) + listing_entries(
                path@,
                metas@,
                done,
                self.inode_mgr.paths(),
            ));
        }
        while i < metas.len()
            invariant
                self.wf(),
                Self::same_but_tables(&*self, &*old(self)),
                self.metadata_cache.config() == old(self).metadata_cache.config(),
                old(self).metadata_cache.attrs().len() + metas@.len() < old(self).metadata_cache.config().max_entries
                    ==> self.metadata_cache.attrs().len() <= old(self).metadata_cache.attrs().len() + i,
                old(self).metadata_cache.attrs().len() + metas@.len() < old(self).metadata_cache.config().max_entries
                    ==> attrs_from_listing(
                    self.metadata_cache.attrs(),
                    self.inode_mgr.paths(),
                    path@,
                    metas@,
                    done,
                    self.config.permission,
                ),
                names == listed_names(metas@),
                all_picks == listing_picks(names, 0, 3, offset as int),
                i <= metas@.len(),
                metas@.len() + 3 <= i64::MAX,
                3 <= entry_offset <= 3 + i,
                all_picks == done + listing_picks(names, i as int, entry_offset as int, offset as int),
                forall|j: int| 0 <= j < done.len() ==> 0 <= #[trigger] done[j].0 < i,
                forall|j: int|
                    0 <= j < done.len() ==> self.inode_mgr.paths().contains_key(
                        #[trigger] listed_key(path@, metas@, done[j]),
                    ),
                entry_views(entries@) == entry_views(start_entries@) + listing_entries(
                    path@,
                    metas@,
                    done,
                    self.inode_mgr.paths(),
                ),
                child_inodes@ == listing_entries(path@, metas@, done, self.inode_mgr.paths()).map_values(
                    |e: DirEntryView| e.inode,
                ),
                self.inode_mgr.next() + (metas@.len() - i) < u64::MAX,
                forall|p: Seq<char>| #[trigger]
                    old(self).inode_mgr.paths().contains_key(p) ==> self.inode_mgr.paths().contains_key(p)
                        && self.inode_mgr.paths()[p] == old(self).inode_mgr.paths()[p],
                old(self).inode_mgr.entries().contains_key(inode) ==> self.inode_mgr.entries().contains_key(inode),
            decreases metas@.len() - i,
        {
            let meta = &metas[i];
            if entry_offset as i128 <= offset as i128 {
                entry_offset = entry_offset + 1;
            } else {
                let name = meta.name();
                proof {
                    assert(names[i as int] == name@);
                }
                if !is_hidden_name(name.as_str()) {
                    let child_path = InodeManager::join_path(path, name.as_str());
                    let ghost before = self.inode_mgr.paths();
                    let child_inode = self.inode_mgr.get_or_create_inode(child_path.as_str(), meta.is_dir, meta.size);
                    let kind = if meta.is_dir {
                        FileKind::Directory
                    } else {
                        FileKind::RegularFile
                    };
                    let ghost p = (i as int, entry_offset as int);
                    let entry = DirEntry::new(child_inode, name.as_str(), kind, entry_offset);
                    let ghost before_entries = entries@;
                    entries.push(entry);
                    child_inodes.push(child_inode);
                    let attr = AttrBuilder::new(&self.config.permission).from_object_meta(child_inode, meta);
                    let ghost mc0 = self.metadata_cache;
                    self.metadata_cache.put_attr(child_inode, attr);
                    proof {
                        if old(self).metadata_cache.attrs().len() + metas@.len() < old(
                            self,
                        ).metadata_cache.config().max_entries {
                            crate::cache::metadata::lemma_attr_store_with_room(mc0, self.metadata_cache, child_inode, attr);
                            lemma_listing_attrs_push(
                                mc0.attrs(),
                                self.metadata_cache.attrs(),
                                before,
                                self.inode_mgr.paths(),
                                path@,
                                metas@,
                                done,
                                p,
                                child_inode,
                                attr,
                                self.config.permission,
                            );
                        }
                        assert(listed_key(path@, metas@, p) == normalized(child_path@));
                        assert(self.inode_mgr.paths().contains_key(normalized(child_path@)));
                        assert(self.inode_mgr.paths()[normalized(child_path@)] == child_inode);
                        lemma_listing_stable(path@, metas@, done, before, self.inode_mgr.paths());
                        lemma_listing_push(path@, metas@, done, p, self.inode_mgr.paths());
                        assert(entry_views(entries@) =~= entry_views(before_entries).push(entry@));
                        let ghost new_done = done.push(p);
                        assert(all_picks == new_done + listing_picks(names, i + 1, entry_offset + 1, offset as int)) by {
                            assert(listing_picks(names, i as int, entry_offset as int, offset as int) == seq![p]
                                + listing_picks(names, i + 1, entry_offset + 1, offset as int));
                            assert(done + (seq![p] + listing_picks(names, i + 1, entry_offset + 1, offset as int))
                                =~= new_done + listing_picks(names, i + 1, entry_offset + 1, offset as int));
                        }
                        done = new_done;
                    }
                    entry_offset = entry_offset + 1;
                }
            }
            i = i + 1;
        }
        let ghost added = listing_entries(path@, metas@, done, self.inode_mgr.paths());
        proof {
            assert(listing_picks(names, i as int, entry_offset as int, offset as int) =~= Seq::<(int, int)>::empty());
            assert(done =~= all_picks);
        }
        let ghost paths_before = self.inode_mgr.paths();
        self.inode_mgr.set_children(inode, child_inodes);
        proof {
            if old(self).metadata_cache.attrs().len() + metas@.len() < old(self).metadata_cache.config().max_entries {
                assert(self.inode_mgr.paths() == paths_before);
            }
        }
        entries
    }
    /// Get file attributes, as far as the cache goes. Counts the operation.
    pub fn getattr_start(&mut self, inode: u64) -> (r: Result<GetattrStart, FsError>)
        requires
            old(self).wf(),
        ensures
            final(self).wf(),
            final(self).inode_mgr == old(self).inode_mgr,
            Self::same_but_tables(&*final(self), &*old(self)),
            final(self).metrics.getattr_ops == crate::utils::metrics::wrapped(old(self).metrics.getattr_ops, 1),
            final(self).metadata_cache.dirs() == old(self).metadata_cache.dirs(),
            final(self).metadata_cache.negatives() == old(self).metadata_cache.negatives(),
            old(self).inode_mgr.entries().contains_key(inode) ==> r is Ok,
            !old(self).metadata_cache.attrs().contains_key(inode) ==> (if old(self).inode_mgr.entries().contains_key(
                inode,
            ) {
                r matches Ok(GetattrStart::Fetch(_))
            } else {
                r is Err
            }),
            match r {
                Ok(GetattrStart::Cached(a)) => old(self).metadata_cache.attrs().contains_key(inode)
                    && a == old(self).metadata_cache.attrs()[inode],
                Ok(GetattrStart::Fetch(key)) => {
                    &&& !final(self).metadata_cache.attrs().contains_key(inode)
                    &&& old(self).inode_mgr.entries().contains_key(inode)
                    &&& key@ == old(self).key_of(old(self).inode_mgr.entries()[inode].path)
                },
                Err(e) => {
                    &&& !final(self).metadata_cache.attrs().contains_key(inode)
                    &&& !old(self).inode_mgr.entries().contains_key(inode)
                    &&& e.errno == ENOENT
                },
            },
    {
        self.metrics.inc_getattr_ops();
        if let Some(attr) = self.metadata_cache.get_attr(inode, &mut self.metrics) {
            return Ok(GetattrStart::Cached(attr));
        }
        let path = match self.get_path(inode) {
            Ok(p) => p,
            Err(e) => return Err(e),
        };
        Ok(GetattrStart::Fetch(self.obs_path(path.as_str())))
    }

    /// Finish a getattr with the object's metadata: its attributes, which
    /// are cached.
    pub fn getattr_finish(&mut self, inode: u64, meta: &ObjectMeta) -> (r: FileAttr)
        requires
            old(self).wf(),
        ensures
            final(self).wf(),
            final(self).inode_mgr == old(self).inode_mgr,
            Self::same_but_tables(&*final(self), &*old(self)),
            object_attr(r, inode, meta, old(self).config.permission),
            final(self).metadata_cache.attrs().contains_key(inode),
            final(self).metadata_cache.attrs()[inode] == r,
    {
        let attr = AttrBuilder::new(&self.config.permission).from_object_meta(inode, meta);
        self.metadata_cache.put_attr(inode, attr);
        attr
    }

    /// Begin a read of `size` bytes at `offset` through handle `fh`, the data
    /// fetched ahead for this offset, if any, having been fetched
    /// `prefetch_age` ago: counts the operation and moves the handle past the
    /// read. Data fetched ahead for this offset within the prefetch time to
    /// live answers first (up to `size` bytes), then the cached block holding
    /// the offset (from the offset on, up to `size` bytes, when the block
    /// reaches that far). A block missing from memory is looked for in the
    /// disk tier; when it is not there either, a cache miss is counted and
    /// storage must be read. A file whose write buffer holds bytes not yet
    /// uploaded is to be flushed first, and nothing else happens.
    pub fn read_start_after(&mut self, inode: u64, fh: u64, offset: u64, size: u32, prefetch_age: Duration) -> (r:
        Result<ReadStart, FsError>)
        requires
            old(self).wf(),
            offset + size <= u64::MAX,
        ensures
            final(self).wf(),
            final(self).inode_mgr == old(self).inode_mgr,
            final(self).metadata_cache == old(self).metadata_cache,
            final(self).write_buffer == old(self).write_buffer,
            final(self).config == old(self).config,
            write_pending(*old(self), inode) ==> r == Ok::<ReadStart, FsError>(ReadStart::Flush) && *final(self)
                == *old(self),
            !write_pending(*old(self), inode) ==> final(self).metrics.read_ops == crate::utils::metrics::wrapped(
                old(self).metrics.read_ops,
                1,
            ),
            old(self).inode_mgr.entries().contains_key(inode) ==> r is Ok,
            old(self).inode_mgr.entries().contains_key(inode) && !write_pending(*old(self), inode) ==> prefetch_read_outcome(
                *old(self),
                inode,
                offset,
                size,
                prefetch_age,
                r,
            ),
            old(self).inode_mgr.entries().contains_key(inode) && old(self).handle_mgr.handles().contains_key(fh)
                && !write_pending(*old(self), inode) ==> final(self).handle_mgr.handles()[fh].position == offset
                + size,
            final(self).handle_mgr.handles().dom() == old(self).handle_mgr.handles().dom(),
            old(self).inode_mgr.entries().contains_key(inode) && !write_pending(*old(self), inode)
                && !old(self).readahead.prefetched().contains_key((inode, offset)) ==> cache_read_outcome(
                *old(self),
                inode,
                offset,
                size,
                r,
            ),
            match r {
                Err(e) => !old(self).inode_mgr.entries().contains_key(inode) && e.errno == ENOENT,
                Ok(ReadStart::Flush) => write_pending(*old(self), inode),
                Ok(ReadStart::Data(d)) => {
                    let bs = old(self).data_cache.bsize();
                    let block = old(self).data_cache.blocks()[key_for(inode, offset, bs)];
                    let start = ((offset % bs) as usize) as int;
                    ||| {
                        &&& old(self).readahead.prefetched().contains_key((inode, offset))
                        &&& bytes_contents(d) == old(self).readahead.prefetched()[(inode, offset)].take(
                            if (size as int) < old(self).readahead.prefetched()[(inode, offset)].len() {
                                size as int
                            } else {
                                old(self).readahead.prefetched()[(inode, offset)].len() as int
                            },
                        )
                    }
                    ||| {
                        &&& old(self).data_cache.blocks().contains_key(key_for(inode, offset, bs))
                        &&& start < block.len()
                        &&& bytes_contents(d) == block.subrange(
                            start as int,
                            if start + size < block.len() {
                                start + size
                            } else {
                                block.len() as int
                            },
                        )
                    }
                },
                Ok(ReadStart::Fetch { obs_path }) => {
                    &&& old(self).inode_mgr.entries().contains_key(inode)
                    &&& obs_path@ == old(self).key_of(old(self).inode_mgr.entries()[inode].path)
                },
                Ok(ReadStart::Disk { key, obs_path }) => {
                    &&& old(self).inode_mgr.entries().contains_key(inode)
                    &&& obs_path@ == old(self).key_of(old(self).inode_mgr.entries()[inode].path)
                    &&& key == key_for(inode, offset, old(self).data_cache.bsize())
                    &&& !old(self).data_cache.blocks().contains_key(key)
                    &&& old(self).data_cache.disk_tier() matches Some(d) && d.entries().contains_key(key)
                },
            },
    {
        if self.write_buffer.has_pending(inode) {
            return Ok(ReadStart::Flush);
        }
        self.metrics.inc_read_ops();
        let path = match self.get_path(inode) {
            Ok(p) => p,
            Err(e) => return Err(e),
        };
        let obs_path = self.obs_path(path.as_str());
        self.handle_mgr.record_access(fh, offset, size as u64, false);
        if let Some(data) = self.readahead.get_prefetched_after(inode, offset, prefetch_age) {
            let n = bytes_len(&data);
            let end = if (size as usize) < n {
                size as usize
            } else {
                n
            };
            let r = bytes_slice(&data, 0, end);
            proof {
                assert(bytes_contents(r) =~= bytes_contents(data).take(end as int));
            }
            return Ok(ReadStart::Data(r));
        }
        match self.data_cache.lookup(inode, offset, &mut self.metrics) {
            Some(data) => {
                let start = (offset % self.data_cache.block_size()) as usize;
                let n = bytes_len(&data);
                if start < n {
                    let end = if size as usize <= n - start {
                        start + size as usize
                    } else {
                        n
                    };
                    return Ok(ReadStart::Data(bytes_slice(&data, start, end)));
                }
            },
            None => {
                match self.data_cache.disk_lookup(inode, offset) {
                    Some(key) => return Ok(ReadStart::Disk { key, obs_path }),
                    None => self.metrics.inc_read_cache_miss(),
                }
            },
        }
        Ok(ReadStart::Fetch { obs_path })
    }

    /// Begin a read of `size` bytes at `offset` through handle `fh`: counts
    /// the operation and moves the handle past the read. Data fetched ahead
    /// for this offset answers first (up to `size` bytes), then the cached
    /// block holding the offset (from the offset on, up to `size` bytes, when
    /// the block reaches that far). A block missing from memory is looked
    /// for in the disk tier; when it is not there either, a cache miss is
    /// counted and storage must be read. A file whose write buffer holds
    /// bytes not yet uploaded is to be flushed first. The age of the data
    /// fetched ahead is read from the clock (see `read_start_after`).
    pub fn read_start(&mut self, inode: u64, fh: u64, offset: u64, size: u32) -> (r: Result<ReadStart, FsError>)
        requires
            old(self).wf(),
            offset + size <= u64::MAX,
        ensures
            final(self).wf(),
            final(self).inode_mgr == old(self).inode_mgr,
            final(self).metadata_cache == old(self).metadata_cache,
            final(self).write_buffer == old(self).write_buffer,
            final(self).config == old(self).config,
            write_pending(*old(self), inode) ==> r == Ok::<ReadStart, FsError>(ReadStart::Flush) && *final(self)
                == *old(self),
            !write_pending(*old(self), inode) ==> final(self).metrics.read_ops == crate::utils::metrics::wrapped(
                old(self).metrics.read_ops,
                1,
            ),
            old(self).inode_mgr.entries().contains_key(inode) ==> r is Ok,
            old(self).inode_mgr.entries().contains_key(inode) && old(self).handle_mgr.handles().contains_key(fh)
                && !write_pending(*old(self), inode) ==> final(self).handle_mgr.handles()[fh].position == offset
                + size,
            final(self).handle_mgr.handles().dom() == old(self).handle_mgr.handles().dom(),
            old(self).inode_mgr.entries().contains_key(inode) && !write_pending(*old(self), inode)
                && !old(self).readahead.prefetched().contains_key((inode, offset)) ==> cache_read_outcome(
                *old(self),
                inode,
                offset,
                size,
                r,
            ),
            match r {
                Err(e) => !old(self).inode_mgr.entries().contains_key(inode) && e.errno == ENOENT,
                Ok(ReadStart::Flush) => write_pending(*old(self), inode),
                Ok(ReadStart::Data(d)) => {
                    let bs = old(self).data_cache.bsize();
                    let block = old(self).data_cache.blocks()[key_for(inode, offset, bs)];
                    let start = ((offset % bs) as usize) as int;
                    ||| {
                        &&& old(self).readahead.prefetched().contains_key((inode, offset))
                        &&& bytes_contents(d) == old(self).readahead.prefetched()[(inode, offset)].take(
                            if (size as int) < old(self).readahead.prefetched()[(inode, offset)].len() {
                                size as int
                            } else {
                                old(self).readahead.prefetched()[(inode, offset)].len() as int
                            },
                        )
                    }
                    ||| {
                        &&& old(self).data_cache.blocks().contains_key(key_for(inode, offset, bs))
                        &&& start < block.len()
                        &&& bytes_contents(d) == block.subrange(
                            start as int,
                            if start + size < block.len() {
                                start + size
                            } else {
                                block.len() as int
                            },
                        )
                    }
                },
                Ok(ReadStart::Fetch { obs_path }) => {
                    &&& old(self).inode_mgr.entries().contains_key(inode)
                    &&& obs_path@ == old(self).key_of(old(self).inode_mgr.entries()[inode].path)
                },
                Ok(ReadStart::Disk { key, obs_path }) => {
                    &&& old(self).inode_mgr.entries().contains_key(inode)
                    &&& obs_path@ == old(self).key_of(old(self).inode_mgr.entries()[inode].path)
                    &&& key == key_for(inode, offset, old(self).data_cache.bsize())
                    &&& !old(self).data_cache.blocks().contains_key(key)
                    &&& old(self).data_cache.disk_tier() matches Some(d) && d.entries().contains_key(key)
                },
            },
    {
        let age = match self.readahead.prefetch_age(inode, offset) {
            Some(a) => a,
            None => duration_from_secs(0),
        };
        self.read_start_after(inode, fh, offset, size, age)
    }

    /// Continue a read whose block the disk tier held: `from_disk` is what
    /// its file gave, if it could be read. A block read back goes into memory
    /// and counts as a hit; the part of it from the offset on (up to `size`
    /// bytes) answers the read when the block reaches that far. Otherwise
    /// (a miss is counted when the file gave nothing) storage must be read.
    /// Also returns the blocks that memory pushed out.
    pub fn read_disk_finish(&mut self, inode: u64, offset: u64, size: u32, from_disk: Option<Bytes>) -> (r: (
        Option<Bytes>,
        Vec<EvictedBlock>,
    ))
        requires
            old(self).wf(),
            offset + size <= u64::MAX,
            from_disk is Some ==> old(self).data_cache.usage() + bytes_contents(from_disk->0).len() <= u64::MAX,
        ensures
            final(self).wf(),
            final(self).inode_mgr == old(self).inode_mgr,
            final(self).metadata_cache == old(self).metadata_cache,
            final(self).write_buffer == old(self).write_buffer,
            final(self).readahead == old(self).readahead,
            final(self).handle_mgr == old(self).handle_mgr,
            final(self).config == old(self).config,
            match from_disk {
                Some(d) => {
                    let bs = old(self).data_cache.bsize();
                    let block = bytes_contents(d);
                    let start = ((offset % bs) as usize) as int;
                    &&& crate::cache::data::stores(
                        old(self).data_cache,
                        final(self).data_cache,
                        key_for(inode, offset, bs),
                        block,
                        r.1@,
                    )
                    &&& final(self).metrics.read_cache_hits == crate::utils::metrics::wrapped(
                        old(self).metrics.read_cache_hits,
                        1,
                    )
                    &&& start < block.len() ==> r.0 is Some && bytes_contents(r.0->0) == block.subrange(
                        start,
                        if start + size < block.len() {
                            start + size
                        } else {
                            block.len() as int
                        },
                    )
                    &&& start >= block.len() ==> r.0 is None
                },
                None => {
                    &&& r.0 is None
                    &&& r.1@.len() == 0
                    &&& final(self).data_cache == old(self).data_cache
                    &&& final(self).metrics.read_cache_misses == crate::utils::metrics::wrapped(
                        old(self).metrics.read_cache_misses,
                        1,
                    )
                },
            },
    {
        let (got, evicted) = self.data_cache.promote(inode, offset, from_disk, &mut self.metrics);
        match got {
            Some(data) => {
                let start = (offset % self.data_cache.block_size()) as usize;
                let n = bytes_len(&data);
                if start < n {
                    let end = if size as usize <= n - start {
                        start + size as usize
                    } else {
                        n
                    };
                    (Some(bytes_slice(&data, start, end)), evicted)
                } else {
                    (None, evicted)
                }
            },
            None => (None, evicted),
        }
    }
    /// Finish a read with the data read from storage: when `offset` starts a
    /// block, the data is cached as that block (a read from inside a block
    /// would hold bytes from the wrong position, and is not cached); the read
    /// is recorded for read-ahead, and its bytes are counted. Returns the
    /// data, what to fetch ahead, if anything, and the blocks the cache
    /// pushed out.
    pub fn read_finish(&mut self, inode: u64, offset: u64, size: u32, data: Bytes) -> (r: (
        Bytes,
        Option<PrefetchRequest>,
        Vec<EvictedBlock>,
    ))
        requires
            old(self).wf(),
            old(self).data_cache.usage() + bytes_contents(data).len() <= u64::MAX,
            offset + size + old(self).readahead.config().window_size <= u64::MAX,
        ensures
            final(self).wf(),
            final(self).inode_mgr == old(self).inode_mgr,
            final(self).metadata_cache == old(self).metadata_cache,
            final(self).write_buffer == old(self).write_buffer,
            final(self).handle_mgr == old(self).handle_mgr,
            final(self).config == old(self).config,
            bytes_contents(r.0) == bytes_contents(data),
            offset % old(self).data_cache.bsize() == 0 ==> crate::cache::data::stores(
                old(self).data_cache,
                final(self).data_cache,
                key_for(inode, offset, old(self).data_cache.bsize()),
                bytes_contents(data),
                r.2@,
            ),
            offset % old(self).data_cache.bsize() != 0 ==> final(self).data_cache == old(self).data_cache
                && r.2@.len() == 0,
            final(self).readahead.prefetched() == old(self).readahead.prefetched(),
            final(self).readahead.config() == old(self).readahead.config(),
            !old(self).readahead.config().enable ==> r.1 is None && final(self).readahead.states()
                == old(self).readahead.states(),
            old(self).readahead.config().enable ==> {
                let st = old(self).readahead.states();
                let p = if st.contains_key(inode) {
                    st[inode]
                } else {
                    crate::cache::readahead::fresh_progress()
                };
                let (q, req) = crate::cache::readahead::read_step(
                    old(self).readahead.config(),
                    p,
                    inode,
                    offset,
                    size as u64,
                );
                &&& final(self).readahead.states() == st.insert(inode, q)
                &&& r.1 == req
            },
            final(self).metrics.read_bytes == crate::utils::metrics::wrapped(
                old(self).metrics.read_bytes,
                bytes_contents(data).len() as u64,
            ),
    {
        let evicted = if offset % self.data_cache.block_size() == 0 {
            self.data_cache.put(inode, offset, bytes_clone(&data))
        } else {
            Vec::new()
        };
        let request = self.readahead.record_read(inode, offset, size as u64);
        self.metrics.add_read_bytes(bytes_len(&data) as u64);
        (data, request, evicted)
    }

    /// Begin a write: counts the operation; returns the object key of the
    /// file and its size as cached (zero when its attributes are not).
    pub fn write_start(&mut self, inode: u64) -> (r: Result<(String, u64), FsError>)
        requires
            old(self).wf(),
        ensures
            final(self).wf(),
            final(self).inode_mgr == old(self).inode_mgr,
            Self::same_but_tables(&*final(self), &*old(self)),
            final(self).metrics.write_ops == crate::utils::metrics::wrapped(old(self).metrics.write_ops, 1),
            final(self).metadata_cache.dirs() == old(self).metadata_cache.dirs(),
            final(self).metadata_cache.negatives() == old(self).metadata_cache.negatives(),
            match r {
                Err(e) => !old(self).inode_mgr.entries().contains_key(inode) && e.errno == ENOENT
                    && final(self).metadata_cache == old(self).metadata_cache,
                Ok((key, size)) => {
                    &&& old(self).inode_mgr.entries().contains_key(inode)
                    &&& key@ == old(self).key_of(old(self).inode_mgr.entries()[inode].path)
                    &&& size == if final(self).metadata_cache.attrs().contains_key(inode) {
                        old(self).metadata_cache.attrs()[inode].size
                    } else {
                        0
                    }
                },
            },
    {
        self.metrics.inc_write_ops();
        let path = match self.get_path(inode) {
            Ok(p) => p,
            Err(e) => return Err(e),
        };
        let obs_path = self.obs_path(path.as_str());
        let file_size = match self.metadata_cache.get_attr(inode, &mut self.metrics) {
            Some(a) => a.size,
            None => 0,
        };
        Ok((obs_path, file_size))
    }

    /// Finish a write of `written` bytes at `offset` through handle `fh`,
    /// made at time `now`: the handle moves past them and is dirty, the file
    /// grows to their end if shorter (cached attributes and inode entry
    /// alike), the cached modification time becomes `now` (nothing else of
    /// the cached attributes changes), cached blocks of the range are dropped
    /// and the bytes are counted.
    pub fn write_finish_at(&mut self, inode: u64, fh: u64, offset: u64, written: usize, now: SystemTime)
        requires
            old(self).wf(),
            offset + written + old(self).data_cache.bsize() <= u64::MAX,
        ensures
            final(self).wf(),
            final(self).readahead == old(self).readahead,
            final(self).write_buffer == old(self).write_buffer,
            final(self).config == old(self).config,
            old(self).handle_mgr.handles().contains_key(fh) ==> {
                let o = old(self).handle_mgr.handles()[fh];
                let n = final(self).handle_mgr.handles()[fh];
                n.position == offset + written && n.dirty && n.inode == o.inode
            },
            final(self).metadata_cache.attrs().dom() == old(self).metadata_cache.attrs().dom(),
            old(self).metadata_cache.attrs().contains_key(inode) ==> final(self).metadata_cache.attrs()[inode]
                == attrs_after_write(old(self).metadata_cache.attrs()[inode], offset + written, now),
            old(self).inode_mgr.entries().contains_key(inode) ==> final(self).inode_mgr.entries()[inode].attr.size
                == offset + written,
            final(self).inode_mgr.paths() == old(self).inode_mgr.paths(),
            ({
                let bs = old(self).data_cache.bsize();
                let gone = Set::new(
                    |k: crate::cache::data::BlockKey|
                        crate::cache::data::in_block_range(
                            k,
                            inode,
                            (offset / bs) as int,
                            (offset + written + bs - 1) / (bs as int),
                            bs,
                        ),
                );
                final(self).data_cache.blocks() == old(self).data_cache.blocks().remove_keys(gone)
            }),
            final(self).metrics.write_bytes == crate::utils::metrics::wrapped(
                old(self).metrics.write_bytes,
                written as u64,
            ),
            forall|o: u64|
                offset <= o < offset + written ==> !#[trigger] final(self).data_cache.blocks().contains_key(
                    key_for(inode, o, old(self).data_cache.bsize()),
                ),
    {
        self.handle_mgr.record_access(fh, offset, written as u64, true);
        let new_size = offset + written as u64;
        self.metadata_cache.update_attr(inode, |a: FileAttr| -> (b: FileAttr)
            ensures
                b == attrs_after_write(a, new_size as int, now),
            {
                let mut b = a;
                if new_size > b.size {
                    b.size = new_size;
                }
                b.mtime = now;
                b
            });
        self.inode_mgr.update_size(inode, new_size);
        self.data_cache.invalidate_range(inode, offset, written);
        self.metrics.add_write_bytes(written as u64);
        proof {
            assert forall|o: u64| offset <= o < offset + written implies !#[trigger] self.data_cache.blocks().contains_key(
                key_for(inode, o, old(self).data_cache.bsize()),
            ) by {
                lemma_written_byte_in_range(inode, o, offset, written as nat, old(self).data_cache.bsize());
            }
        }
    }

    /// Finish a write of `written` bytes at `offset` through handle `fh`:
    /// the handle moves past them and is dirty, the file grows to their end
    /// if shorter (cached attributes and inode entry alike), the cached
    /// modification time becomes the system clock's reading taken for the
    /// write (nothing else of the cached attributes changes), cached blocks of
    /// the range are dropped and the bytes are counted. The reading is
    /// handed to `write_finish_at`, which states the result exactly.
    pub fn write_finish(&mut self, inode: u64, fh: u64, offset: u64, written: usize)
        requires
            old(self).wf(),
            offset + written + old(self).data_cache.bsize() <= u64::MAX,
        ensures
            final(self).wf(),
            final(self).readahead == old(self).readahead,
            final(self).write_buffer == old(self).write_buffer,
            final(self).config == old(self).config,
            old(self).handle_mgr.handles().contains_key(fh) ==> {
                let o = old(self).handle_mgr.handles()[fh];
                let n = final(self).handle_mgr.handles()[fh];
                n.position == offset + written && n.dirty && n.inode == o.inode
            },
            final(self).metadata_cache.attrs().dom() == old(self).metadata_cache.attrs().dom(),
            old(self).metadata_cache.attrs().contains_key(inode) ==> final(self).metadata_cache.attrs()[inode]
                == (FileAttr {
                size: crate::cache::write_buffer::larger(old(self).metadata_cache.attrs()[inode].size, offset + written),
                mtime: final(self).metadata_cache.attrs()[inode].mtime,
                ..old(self).metadata_cache.attrs()[inode]
            }),
            old(self).inode_mgr.entries().contains_key(inode) ==> final(self).inode_mgr.entries()[inode].attr.size
                == offset + written,
            final(self).inode_mgr.paths() == old(self).inode_mgr.paths(),
            ({
                let bs = old(self).data_cache.bsize();
                let gone = Set::new(
                    |k: crate::cache::data::BlockKey|
                        crate::cache::data::in_block_range(
                            k,
                            inode,
                            (offset / bs) as int,
                            (offset + written + bs - 1) / (bs as int),
                            bs,
                        ),
                );
                final(self).data_cache.blocks() == old(self).data_cache.blocks().remove_keys(gone)
            }),
            final(self).metrics.write_bytes == crate::utils::metrics::wrapped(
                old(self).metrics.write_bytes,
                written as u64,
            ),
            forall|o: u64|
                offset <= o < offset + written ==> !#[trigger] final(self).data_cache.blocks().contains_key(
                    key_for(inode, o, old(self).data_cache.bsize()),
                ),
    {
        let now = crate::utils::clock::system_time_now();
        self.write_finish_at(inode, fh, offset, written, now);
    }

    /// Finish creating file `child_path` in `parent` once its empty object
    /// was stored: it gets an inode (made if new) and fresh file attributes
    /// with `mode`, which are cached; the path is no longer known missing,
    /// the parent's cached listing is dropped, and a handle is opened with
    /// `flags`. Returns the inode, the attributes and the handle.
    pub fn create_finish(&mut self, parent: u64, child_path: &str, mode: u32, flags: u32) -> (r: (u64, FileAttr, u64))
        requires
            old(self).wf(),
            old(self).inode_mgr.next() < u64::MAX,
            old(self).handle_mgr.next() < u64::MAX,
        ensures
            final(self).wf(),
            creates_file(*old(self), *final(self), parent, child_path@, mode, flags, r),
    {
        let inode = self.inode_mgr.get_or_create_inode(child_path, false, 0);
        let attr = AttrBuilder::new(&self.config.permission).new_file(inode, Some(mode));
        self.metadata_cache.put_attr(inode, attr);
        self.metadata_cache.remove_negative(child_path);
        self.metadata_cache.invalidate_dir(parent);
        let fh = self.handle_mgr.open(inode, flags, false);
        (inode, attr, fh)
    }

    /// Finish making directory `child_path` in `parent` once its marker was
    /// stored: it gets an inode (made as a directory if new) and fresh
    /// directory attributes with `mode`, which are cached; the path is no
    /// longer known missing and the parent's cached listing is dropped.
    pub fn mkdir_finish(&mut self, parent: u64, child_path: &str, mode: u32) -> (r: (u64, FileAttr))
        requires
            old(self).wf(),
            old(self).inode_mgr.next() < u64::MAX,
        ensures
            final(self).wf(),
            Self::same_but_tables(&*final(self), &*old(self)),
            crate::fs::inode::get_or_create_effect(old(self).inode_mgr, final(self).inode_mgr, child_path@, true, 0, r.0),
            r.1.is_directory_attr(r.0, old(self).config.permission.fixed.uid, old(self).config.permission.fixed.gid, mode),
            final(self).metadata_cache.attrs().contains_key(r.0),
            final(self).metadata_cache.attrs()[r.0] == r.1,
            final(self).metadata_cache.negatives() == old(self).metadata_cache.negatives().remove(child_path@),
            !final(self).metadata_cache.dirs().contains_key(parent),
    {
        let inode = self.inode_mgr.get_or_create_inode(child_path, true, 0);
        let attr = AttrBuilder::new(&self.config.permission).new_directory(inode, Some(mode));
        self.metadata_cache.put_attr(inode, attr);
        self.metadata_cache.remove_negative(child_path);
        self.metadata_cache.invalidate_dir(parent);
        (inode, attr)
    }

    /// Finish removing file `child_path` from `parent` once its object was
    /// deleted: its inode, if known, is forgotten along with everything
    /// cached for it, and the parent's cached listing is dropped. Returns the
    /// blocks that left the disk tier, whose files are to be removed.
    pub fn unlink_finish(&mut self, parent: u64, child_path: &str) -> (r: Vec<BlockKey>)
        requires
            old(self).wf(),
        ensures
            final(self).wf(),
            final(self).write_buffer == old(self).write_buffer,
            final(self).handle_mgr == old(self).handle_mgr,
            final(self).config == old(self).config,
            !final(self).metadata_cache.dirs().contains_key(parent),
            !final(self).inode_mgr.paths().contains_key(normalized(child_path@)),
            ({
                let np = normalized(child_path@);
                &&& old(self).inode_mgr.paths().contains_key(np) ==> {
                    let i = old(self).inode_mgr.paths()[np];
                    &&& final(self).inode_mgr.entries() == old(self).inode_mgr.entries().remove(i)
                    &&& !final(self).metadata_cache.attrs().contains_key(i)
                    &&& final(self).data_cache.blocks() == old(self).data_cache.blocks().restrict(
                        Set::new(|k: crate::cache::data::BlockKey| k.inode != i),
                    )
                    &&& final(self).readahead.states() == old(self).readahead.states().remove(i)
                    &&& disk_dropped(old(self).data_cache, final(self).data_cache, i, r@)
                }
                &&& !old(self).inode_mgr.paths().contains_key(np) ==> {
                    &&& final(self).inode_mgr == old(self).inode_mgr
                    &&& final(self).data_cache == old(self).data_cache
                    &&& final(self).readahead == old(self).readahead
                    &&& r@.len() == 0
                }
            }),
    {
        let mut gone: Vec<BlockKey> = Vec::new();
        if let Some(inode) = self.inode_mgr.get_inode(child_path) {
            self.metadata_cache.invalidate(inode);
            gone = self.data_cache.invalidate(inode);
            self.readahead.invalidate(inode);
            self.inode_mgr.remove(inode);
        }
        self.metadata_cache.invalidate_dir(parent);
        gone
    }

    /// Begin removing directory `name` from `parent`: its path and the
    /// prefix under which its objects are listed (also the key of its
    /// marker).
    pub fn rmdir_start(&self, parent: u64, name: &str) -> (r: Result<(String, String), FsError>)
        ensures
            match r {
                Ok((child, prefix)) => {
                    &&& self.inode_mgr.entries().contains_key(parent)
                    &&& child@ == joined(self.inode_mgr.entries()[parent].path, name@)
                    &&& prefix@ == dir_key(self.key_of(child@))
                },
                Err(e) => !self.inode_mgr.entries().contains_key(parent) && e.errno == ENOENT,
            },
    {
        let (child_path, obs_path) = match self.child_of(parent, name) {
            Ok(c) => c,
            Err(e) => return Err(e),
        };
        Ok((child_path, dir_key_of(obs_path.as_str())))
    }

    /// Whether a directory may be removed given the objects listed under
    /// `prefix`: it fails as not empty when any holds a child.
    pub fn rmdir_check(prefix: &str, metas: &Vec<ObjectMeta>) -> (r: Result<(), FsError>)
        ensures
            match r {
                Ok(()) => !holds_children(prefix@, metas@),
                Err(e) => holds_children(prefix@, metas@) && e.errno == ENOTEMPTY,
            },
    {
        let key = prefix.to_owned();
        let mut i: usize = 0;
        while i < metas.len()
            invariant
                key@ == prefix@,
                i <= metas@.len(),
                forall|j: int|
                    0 <= j < i ==> !(#[trigger] metas@[j].path@ != prefix@ && !ends_with_slash_dot(metas@[j].path@)),
            decreases metas@.len() - i,
        {
            let p = &metas[i].path;
            let v = chars_of(p.as_str());
            let dot_end = v.len() >= 2 && v[v.len() - 2] == '/' && v[v.len() - 1] == '.';
            if *p != key && !dot_end {
                return Err(FsError::not_empty());
            }
            i = i + 1;
        }
        Ok(())
    }

    /// Finish removing directory `child_path` from `parent` once its marker
    /// was deleted: its inode, if known, is forgotten with its cached
    /// metadata, and the parent's cached listing is dropped.
    pub fn rmdir_finish(&mut self, parent: u64, child_path: &str)
        requires
            old(self).wf(),
        ensures
            final(self).wf(),
            Self::same_but_tables(&*final(self), &*old(self)),
            !final(self).metadata_cache.dirs().contains_key(parent),
            ({
                let np = normalized(child_path@);
                &&& old(self).inode_mgr.paths().contains_key(np) ==> {
                    let i = old(self).inode_mgr.paths()[np];
                    &&& final(self).inode_mgr.entries() == old(self).inode_mgr.entries().remove(i)
                    &&& !final(self).metadata_cache.attrs().contains_key(i)
                }
                &&& !old(self).inode_mgr.paths().contains_key(np) ==> final(self).inode_mgr == old(self).inode_mgr
            }),
    {
        if let Some(inode) = self.inode_mgr.get_inode(child_path) {
            self.metadata_cache.invalidate(inode);
            self.inode_mgr.remove(inode);
        }
        self.metadata_cache.invalidate_dir(parent);
    }

    /// Begin a rename: the old and new paths and their object keys.
    pub fn rename_start(&self, parent: u64, name: &str, new_parent: u64, new_name: &str) -> (r: Result<
        (String, String, String, String),
        FsError,
    >)
        ensures
            match r {
                Ok((old_path, new_path, old_key, new_key)) => {
                    &&& self.inode_mgr.entries().contains_key(parent)
                    &&& self.inode_mgr.entries().contains_key(new_parent)
                    &&& old_path@ == joined(self.inode_mgr.entries()[parent].path, name@)
                    &&& new_path@ == joined(self.inode_mgr.entries()[new_parent].path, new_name@)
                    &&& old_key@ == self.key_of(old_path@)
                    &&& new_key@ == self.key_of(new_path@)
                },
                Err(e) => (!self.inode_mgr.entries().contains_key(parent) || !self.inode_mgr.entries().contains_key(
                    new_parent,
                )) && e.errno == ENOENT,
            },
    {
        let (old_path, old_key) = match self.child_of(parent, name) {
            Ok(c) => c,
            Err(e) => return Err(e),
        };
        let (new_path, new_key) = match self.child_of(new_parent, new_name) {
            Ok(c) => c,
            Err(e) => return Err(e),
        };
        Ok((old_path, new_path, old_key, new_key))
    }

    /// Finish a rename once the object was copied and the old one deleted:
    /// the inode moves to the new path, its cached metadata is dropped, the
    /// new path is no longer known missing, and the cached listings of both
    /// parents are dropped.
    pub fn rename_finish(&mut self, parent: u64, new_parent: u64, old_path: &str, new_path: &str)
        requires
            old(self).wf(),
        ensures
            final(self).wf(),
            Self::same_but_tables(&*final(self), &*old(self)),
            crate::fs::inode::rename_effect(old(self).inode_mgr, final(self).inode_mgr, old_path@, new_path@),
            !final(self).metadata_cache.dirs().contains_key(parent),
            !final(self).metadata_cache.dirs().contains_key(new_parent),
            final(self).metadata_cache.negatives() == old(self).metadata_cache.negatives().remove(new_path@),
            final(self).inode_mgr.paths().contains_key(normalized(new_path@)) ==> !final(self).metadata_cache.attrs().contains_key(
                final(self).inode_mgr.paths()[normalized(new_path@)],
            ),
    {
        self.inode_mgr.rename(old_path, new_path);
        self.metadata_cache.remove_negative(new_path);
        if let Some(inode) = self.inode_mgr.get_inode(new_path) {
            self.metadata_cache.invalidate(inode);
        }
        self.metadata_cache.invalidate_dir(parent);
        if parent != new_parent {
            self.metadata_cache.invalidate_dir(new_parent);
        }
    }

    /// Open a file
    pub fn do_open(&mut self, inode: u64, flags: u32) -> (r: u64)
        requires
            old(self).wf(),
            old(self).handle_mgr.next() < u64::MAX,
        ensures
            final(self).wf(),
            r == old(self).handle_mgr.next(),
            final(self).handle_mgr.handles()[r].fresh(inode, flags, false),
            final(self).handle_mgr.handles().remove(r) == old(self).handle_mgr.handles(),
            final(self).inode_mgr == old(self).inode_mgr,
            final(self).metadata_cache == old(self).metadata_cache,
            final(self).data_cache == old(self).data_cache,
    {
        self.handle_mgr.open(inode, flags, false)
    }

    /// Open a directory
    pub fn do_opendir(&mut self, inode: u64, flags: u32) -> (r: u64)
        requires
            old(self).wf(),
            old(self).handle_mgr.next() < u64::MAX,
        ensures
            final(self).wf(),
            r == old(self).handle_mgr.next(),
            final(self).handle_mgr.handles()[r].fresh(inode, flags, true),
            final(self).handle_mgr.handles().remove(r) == old(self).handle_mgr.handles(),
            final(self).inode_mgr == old(self).inode_mgr,
            final(self).metadata_cache == old(self).metadata_cache,
            final(self).data_cache == old(self).data_cache,
    {
        self.handle_mgr.open(inode, flags, true)
    }

    /// Close a handle
    pub fn do_close(&mut self, fh: u64)
        requires
            old(self).wf(),
        ensures
            final(self).wf(),
            final(self).handle_mgr.handles() == old(self).handle_mgr.handles().remove(fh),
            final(self).inode_mgr == old(self).inode_mgr,
            final(self).metadata_cache == old(self).metadata_cache,
            final(self).data_cache == old(self).data_cache,
    {
        let _ = self.handle_mgr.close(fh);
    }

    /// Finish releasing a file once its buffer was flushed: the handle is
    /// closed and the cached attributes are dropped, so that they are read
    /// again.
    pub fn release_finish(&mut self, inode: u64, fh: u64)
        requires
            old(self).wf(),
        ensures
            final(self).wf(),
            final(self).handle_mgr.handles() == old(self).handle_mgr.handles().remove(fh),
            final(self).metadata_cache.attrs() == old(self).metadata_cache.attrs().remove(inode),
            final(self).inode_mgr == old(self).inode_mgr,
            final(self).data_cache == old(self).data_cache,
    {
        let _ = self.handle_mgr.close(fh);
        self.metadata_cache.invalidate_attr(inode);
    }

    /// The object key of a file about to be truncated.
    pub fn truncate_start(&self, inode: u64) -> (r: Result<String, FsError>)
        ensures
            match r {
                Ok(key) => self.inode_mgr.entries().contains_key(inode) && key@ == self.key_of(
                    self.inode_mgr.entries()[inode].path,
                ),
                Err(e) => !self.inode_mgr.entries().contains_key(inode) && e.errno == ENOENT,
            },
    {
        match self.get_path(inode) {
            Ok(p) => Ok(self.obs_path(p.as_str())),
            Err(e) => Err(e),
        }
    }

    /// Finish a truncation: the cached blocks and read-ahead state of the
    /// file are dropped. Returns the blocks that left the disk tier, whose
    /// files are to be removed.
    pub fn truncate_finish(&mut self, inode: u64) -> (r: Vec<BlockKey>)
        requires
            old(self).wf(),
        ensures
            final(self).wf(),
            disk_dropped(old(self).data_cache, final(self).data_cache, inode, r@),
            final(self).data_cache.blocks() == old(self).data_cache.blocks().restrict(
                Set::new(|k: crate::cache::data::BlockKey| k.inode != inode),
            ),
            final(self).readahead.states() == old(self).readahead.states().remove(inode),
            final(self).readahead.prefetched() == old(self).readahead.prefetched().restrict(
                Set::new(|k: (u64, u64)| k.0 != inode),
            ),
            final(self).inode_mgr == old(self).inode_mgr,
            final(self).metadata_cache == old(self).metadata_cache,
    {
        let gone = self.data_cache.invalidate(inode);
        self.readahead.invalidate(inode);
        gone
    }

    /// Check file access permissions: any known inode may be accessed.
    pub fn do_access(&self, inode: u64) -> (r: Result<(), FsError>)
        ensures
            r is Ok <==> self.inode_mgr.entries().contains_key(inode),
            r matches Err(e) ==> e.errno == ENOENT,
    {
        match self.inode_mgr.get_entry(inode) {
            Some(_) => Ok(()),
            None => Err(FsError::not_found()),
        }
    }
    /// Finish a setattr (after any truncation), the cached attributes of
    /// `inode`, if any, having been cached `attr_age` ago: the new attributes
    /// are the cached ones when they are within the attribute time to live,
    /// else the inode entry's, with the mode, owner, group, size and access
    /// and modification times set by `flags`. They are cached. An unknown
    /// inode without fresh cached attributes is not found.
    pub fn setattr_finish_after(&mut self, inode: u64, flags: &SetAttrFlags, attr_age: Duration) -> (r: Result<
        FileAttr,
        FsError,
    >)
        requires
            old(self).wf(),
        ensures
            final(self).wf(),
            final(self).inode_mgr == old(self).inode_mgr,
            Self::same_but_tables(&*final(self), &*old(self)),
            ({
                let f = SetAttrFlags { ctime: None, fh: None, ..*flags };
                let fresh = old(self).metadata_cache.attrs().contains_key(inode) && within_ttl(
                    attr_age,
                    old(self).metadata_cache.config().attr_ttl,
                );
                &&& fresh ==> r == Ok::<FileAttr, FsError>(applied(f, old(self).metadata_cache.attrs()[inode]))
                &&& !fresh && old(self).inode_mgr.entries().contains_key(inode) ==> r == Ok::<FileAttr, FsError>(
                    applied(f, old(self).inode_mgr.entries()[inode].attr),
                )
                &&& !fresh && !old(self).inode_mgr.entries().contains_key(inode) ==> (r matches Err(e) && e.errno
                    == ENOENT)
            }),
            r matches Ok(a) ==> (final(self).metadata_cache.attrs().contains_key(inode)
                && final(self).metadata_cache.attrs()[inode] == a),
    {
        match self.metadata_cache.get_attr_after(inode, attr_age, &mut self.metrics) {
            Some(a) => {
                let mut attr = a;
                let f = SetAttrFlags { ctime: None, fh: None, ..*flags };
                f.apply(&mut attr);
                self.metadata_cache.put_attr(inode, attr);
                Ok(attr)
            },
            None => match self.inode_mgr.get_entry(inode) {
                Some(e) => {
                    let mut attr = e.attr;
                    let f = SetAttrFlags { ctime: None, fh: None, ..*flags };
                    f.apply(&mut attr);
                    self.metadata_cache.put_attr(inode, attr);
                    Ok(attr)
                },
                None => Err(FsError::not_found()),
            },
        }
    }

    /// Finish a setattr (after any truncation): the new attributes are the
    /// cached ones, or, when none are cached, the inode entry's, with the
    /// mode, owner, group, size and access and modification times set by
    /// `flags`. They are cached. An unknown inode without cached attributes
    /// is not found. The age of the cached attributes is read from the clock
    /// (see `setattr_finish_after`).
    pub fn setattr_finish(&mut self, inode: u64, flags: &SetAttrFlags) -> (r: Result<FileAttr, FsError>)
        requires
            old(self).wf(),
        ensures
            final(self).wf(),
            final(self).inode_mgr == old(self).inode_mgr,
            Self::same_but_tables(&*final(self), &*old(self)),
            match r {
                Ok(a) => {
                    &&& final(self).metadata_cache.attrs().contains_key(inode)
                    &&& final(self).metadata_cache.attrs()[inode] == a
                    &&& {
                        ||| old(self).metadata_cache.attrs().contains_key(inode) && a == applied(
                            SetAttrFlags { ctime: None, fh: None, ..*flags },
                            old(self).metadata_cache.attrs()[inode],
                        )
                        ||| old(self).inode_mgr.entries().contains_key(inode) && a == applied(
                            SetAttrFlags { ctime: None, fh: None, ..*flags },
                            old(self).inode_mgr.entries()[inode].attr,
                        )
                    }
                    &&& !old(self).metadata_cache.attrs().contains_key(inode) ==> a == applied(
                        SetAttrFlags { ctime: None, fh: None, ..*flags },
                        old(self).inode_mgr.entries()[inode].attr,
                    )
                },
                Err(e) => {
                    &&& !old(self).inode_mgr.entries().contains_key(inode)
                    &&& e.errno == ENOENT
                },
            },
            !old(self).metadata_cache.attrs().contains_key(inode) ==> (r is Ok <==> old(self).inode_mgr.entries().contains_key(inode)),
            old(self).inode_mgr.entries().contains_key(inode) ==> r is Ok,
    {
        let age = match self.metadata_cache.attr_age(inode) {
            Some(a) => a,
            None => duration_from_secs(0),
        };
        self.setattr_finish_after(inode, flags, age)
    }
}

} // verus!

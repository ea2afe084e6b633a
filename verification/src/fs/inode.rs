//! Inode management: stable inode numbers for object paths.

use dashmap::DashMap;
use std::time::{Duration, Instant, SystemTime};
use vstd::prelude::*;

use crate::config::PermissionConfig;
use crate::fs::path_index::PathIndex;
use crate::fs::platform::{current_gid, current_uid, normalize_path, normalized, FileKind};
use crate::utils::clock::{
    duration_from_secs, duration_nanos, exceeds, instant_checked_sub, instant_elapsed, instant_now, system_time_now,
};
use crate::utils::text::{
    after_last, before_last, chars_of, find_last, push_char, skip_leading, skip_trailing, skip_trailing_at, string_of,
};

verus! {

/// Root inode number (FUSE convention)
pub const ROOT_INODE: u64 = 1;

/// Number of 512-byte blocks that hold `size` bytes.
pub open spec fn blocks_for(size: u64) -> u64 {
    ((size + 511) / 512) as u64
}

/// Computes the number of 512-byte blocks that hold `size` bytes.
pub fn block_count(size: u64) -> (r: u64)
    ensures
        r == blocks_for(size),
{
    size / 512 + if size % 512 == 0 { 0 } else { 1 }
}

/// The permission bits of `mode`.
pub open spec fn perm_bits(mode: u32) -> u16 {
    (mode & 0o7777) as u16
}

/// File attributes (platform-agnostic)
#[derive(Debug, Clone, Copy)]
pub struct FileAttr {
    /// Inode number
    pub ino: u64,
    /// Size in bytes
    pub size: u64,
    /// Number of blocks
    pub blocks: u64,
    /// Access time
    pub atime: SystemTime,
    /// Modification time
    pub mtime: SystemTime,
    /// Change time
    pub ctime: SystemTime,
    /// Creation time
    pub crtime: SystemTime,
    /// File type
    pub kind: FileKind,
    /// Permission mode
    pub perm: u16,
    /// Number of hard links
    pub nlink: u32,
    /// User ID
    pub uid: u32,
    /// Group ID
    pub gid: u32,
    /// Device ID (for special files)
    pub rdev: u32,
    /// Block size
    pub blksize: u32,
    /// Flags (macOS only)
    pub flags: u32,
}

impl FileAttr {
    /// The attributes of a directory, apart from its times.
    pub open spec fn is_directory_attr(self, ino: u64, uid: u32, gid: u32, mode: u32) -> bool {
        &&& self.ino == ino
        &&& self.size == 4096
        &&& self.blocks == 8
        &&& self.kind == FileKind::Directory
        &&& self.perm == perm_bits(mode)
        &&& self.nlink == 2
        &&& self.uid == uid
        &&& self.gid == gid
        &&& self.rdev == 0
        &&& self.blksize == 4096
        &&& self.flags == 0
    }

    /// The attributes of a regular file, apart from its times.
    pub open spec fn is_file_attr(self, ino: u64, size: u64, uid: u32, gid: u32, mode: u32) -> bool {
        &&& self.ino == ino
        &&& self.size == size
        &&& self.blocks == blocks_for(size)
        &&& self.kind == FileKind::RegularFile
        &&& self.perm == perm_bits(mode)
        &&& self.nlink == 1
        &&& self.uid == uid
        &&& self.gid == gid
        &&& self.rdev == 0
        &&& self.blksize == 4096
        &&& self.flags == 0
    }

    /// All four times are the same instant.
    pub open spec fn same_times(self) -> bool {
        self.mtime == self.atime && self.ctime == self.atime && self.crtime == self.atime
    }

    /// Create attributes for a directory
    pub fn directory(ino: u64, uid: u32, gid: u32, mode: u32) -> (r: Self)
        ensures
            r.is_directory_attr(ino, uid, gid, mode),
            r.same_times(),
    {
        let now = system_time_now();
        FileAttr {
            ino,
            size: 4096,
            blocks: 8,
            atime: now,
            mtime: now,
            ctime: now,
            crtime: now,
            kind: FileKind::Directory,
            perm: (mode & 0o7777) as u16,
            nlink: 2,
            uid,
            gid,
            rdev: 0,
            blksize: 4096,
            flags: 0,
        }
    }

    /// Create attributes for a regular file
    pub fn file(ino: u64, size: u64, uid: u32, gid: u32, mode: u32) -> (r: Self)
        ensures
            r.is_file_attr(ino, size, uid, gid, mode),
            r.same_times(),
    {
        let now = system_time_now();
        let blocks = block_count(size);
        FileAttr {
            ino,
            size,
            blocks,
            atime: now,
            mtime: now,
            ctime: now,
            crtime: now,
            kind: FileKind::RegularFile,
            perm: (mode & 0o7777) as u16,
            nlink: 1,
            uid,
            gid,
            rdev: 0,
            blksize: 4096,
            flags: 0,
        }
    }

    /// Create attributes for a symlink
    pub fn symlink(ino: u64, size: u64, uid: u32, gid: u32) -> (r: Self)
        ensures
            r.ino == ino,
            r.size == size,
            r.blocks == 0,
            r.kind == FileKind::Symlink,
            r.perm == 0o777,
            r.nlink == 1,
            r.uid == uid,
            r.gid == gid,
            r.rdev == 0,
            r.blksize == 4096,
            r.flags == 0,
            r.same_times(),
    {
        let now = system_time_now();
        FileAttr {
            ino,
            size,
            blocks: 0,
            atime: now,
            mtime: now,
            ctime: now,
            crtime: now,
            kind: FileKind::Symlink,
            perm: 0o777,
            nlink: 1,
            uid,
            gid,
            rdev: 0,
            blksize: 4096,
            flags: 0,
        }
    }
}

impl Default for FileAttr {
    /// A zero-length regular file with mode 0o644, owned by the process's user and group.
    fn default() -> (r: Self)
        ensures
            r.ino == 0,
            r.size == 0,
            r.blocks == 0,
            r.kind == FileKind::RegularFile,
            r.perm == 0o644,
            r.nlink == 1,
            r.rdev == 0,
            r.blksize == 4096,
            r.flags == 0,
            r.same_times(),
    {
        let now = system_time_now();
        FileAttr {
            ino: 0,
            size: 0,
            blocks: 0,
            atime: now,
            mtime: now,
            ctime: now,
            crtime: now,
            kind: FileKind::RegularFile,
            perm: 0o644,
            nlink: 1,
            uid: current_uid(),
            gid: current_gid(),
            rdev: 0,
            blksize: 4096,
            flags: 0,
        }
    }
}

/// Entry stored for each inode
#[derive(Debug, Clone)]
pub struct InodeEntry {
    /// Object path in the bucket
    pub path: String,
    /// File attributes
    pub attr: FileAttr,
    /// Whether this is a directory
    pub is_dir: bool,
    /// Cached children inodes (for directories)
    pub children: Option<Vec<u64>>,
    /// When this entry was cached
    pub cached_at: Instant,
    /// Reference count (for open handles)
    pub ref_count: u64,
}

/// What an inode entry holds, with strings and vectors as sequences.
pub struct InodeEntryView {
    pub path: Seq<char>,
    pub attr: FileAttr,
    pub is_dir: bool,
    pub children: Option<Seq<u64>>,
    pub cached_at: Instant,
    pub ref_count: u64,
}

/// Copies a vector of inode numbers.
pub fn copy_inodes(v: &Vec<u64>) -> (r: Vec<u64>)
    ensures
        r@ == v@,
{
    let mut r: Vec<u64> = Vec::new();
    let mut i: usize = 0;
    while i < v.len()
        invariant
            i <= v@.len(),
            r@ == v@.take(i as int),
        decreases v@.len() - i,
    {
        r.push(v[i]);
        assert(v@.take(i + 1) =~= v@.take(i as int).push(v@[i as int]));
        i = i + 1;
    }
    assert(v@.take(v@.len() as int) =~= v@);
    r
}

/// Copies an optional vector of inode numbers.
pub fn copy_children(c: &Option<Vec<u64>>) -> (r: Option<Vec<u64>>)
    ensures
        match c {
            Some(v) => r is Some && r->0@ == v@,
            None => r is None,
        },
{
    match c {
        Some(v) => Some(copy_inodes(v)),
        None => None,
    }
}

impl View for InodeEntry {
    type V = InodeEntryView;

    open spec fn view(&self) -> InodeEntryView {
        InodeEntryView {
            path: self.path@,
            attr: self.attr,
            is_dir: self.is_dir,
            children: match self.children {
                Some(v) => Some(v@),
                None => None,
            },
            cached_at: self.cached_at,
            ref_count: self.ref_count,
        }
    }
}

impl InodeEntry {
    /// A copy of the entry.
    pub fn copy(&self) -> (r: Self)
        ensures
            r@ == self@,
    {
        InodeEntry {
            path: self.path.clone(),
            attr: self.attr,
            is_dir: self.is_dir,
            children: copy_children(&self.children),
            cached_at: self.cached_at,
            ref_count: self.ref_count,
        }
    }
}


/// What `get_or_create_inode(path, is_dir, size)` does to a table, returning `r`:
/// a known normalized path keeps its inode and leaves the table as it was; a
/// new one receives the next number and an entry with the configured owner
/// and mode.
pub open spec fn get_or_create_effect(
    before: InodeManager,
    after: InodeManager,
    path: Seq<char>,
    is_dir: bool,
    size: u64,
    r: u64,
) -> bool {
    let np = normalized(path);
    &&& after.permissions() == before.permissions()
    &&& before.paths().contains_key(np) ==> {
        &&& r == before.paths()[np]
        &&& after.paths() == before.paths()
        &&& after.entries() == before.entries()
        &&& after.next() == before.next()
    }
    &&& !before.paths().contains_key(np) ==> {
        let fixed = before.permissions().fixed;
        let e = after.entries()[r];
        &&& r == before.next()
        &&& after.next() == before.next() + 1
        &&& after.paths() == before.paths().insert(np, r)
        &&& after.entries().remove(r) == before.entries()
        &&& after.entries().contains_key(r)
        &&& e.path == np
        &&& e.is_dir == is_dir
        &&& e.children is None
        &&& e.ref_count == 0
        &&& is_dir ==> e.attr.is_directory_attr(r, fixed.uid, fixed.gid, fixed.dir_mode)
        &&& !is_dir ==> e.attr.is_file_attr(r, size, fixed.uid, fixed.gid, fixed.file_mode)
    }
}

/// What `rename(old_path, new_path)` does to a table: the inode of the old
/// normalized path moves to the new one and its entry takes the new path;
/// an inode that the new path named before is dropped, so that no entry
/// claims a path that names another inode. An unknown old path leaves the
/// table as it was.
pub open spec fn rename_effect(before: InodeManager, after: InodeManager, old_path: Seq<char>, new_path: Seq<char>) -> bool {
    let op = normalized(old_path);
    let np = normalized(new_path);
    &&& after.next() == before.next()
    &&& after.permissions() == before.permissions()
    &&& !before.paths().contains_key(op) ==> after.paths() == before.paths() && after.entries() == before.entries()
    &&& before.paths().contains_key(op) ==> {
        let i = before.paths()[op];
        let o = before.entries()[i];
        let n = after.entries()[i];
        let others = if before.paths().contains_key(np) && before.paths()[np] != i {
            before.entries().remove(before.paths()[np])
        } else {
            before.entries()
        };
        &&& after.paths() == before.paths().remove(op).insert(np, i)
        &&& after.entries().dom() == others.dom()
        &&& forall|j: u64| j != i && #[trigger] others.contains_key(j) ==> after.entries()[j]
            == before.entries()[j]
        &&& n.path == np
        &&& n.attr == o.attr && n.is_dir == o.is_dir && n.children == o.children
        &&& n.ref_count == o.ref_count
    }
}

/// The table maps paths to inodes and inodes to paths both ways: an entry
/// carries a path exactly when that path names the entry's inode.
pub proof fn lemma_paths_and_entries_inverse(m: InodeManager, i: u64, p: Seq<char>)
    requires
        m.wf(),
    ensures
        (m.entries().contains_key(i) && m.entries()[i].path == p) <==> (m.paths().contains_key(p) && m.paths()[p] == i),
{
}

proof fn lemma_before_last_past_plain(s: Seq<char>, f: Seq<char>)
    requires
        forall|i: int| 0 <= i < f.len() ==> f[i] != '/',
    ensures
        before_last(s + f, '/') == before_last(s, '/'),
    decreases f.len(),
{
    if f.len() == 0 {
        assert(s + f =~= s);
    } else {
        assert((s + f).last() == f.last());
        assert((s + f).drop_last() =~= s + f.drop_last());
        lemma_before_last_past_plain(s, f.drop_last());
    }
}

/// Taking the parent of a joined path undoes the join: a name without `/`
/// joined below a path without leading or trailing `/` (as `join_path`
/// joins them) has that path as its parent (as `parent_path` takes it).
pub proof fn lemma_parent_of_joined(q: Seq<char>, f: Seq<char>)
    requires
        q.len() > 0 ==> q[0] != '/' && q.last() != '/',
        f.len() > 0,
        forall|i: int| 0 <= i < f.len() ==> f[i] != '/',
    ensures
        ({
            let j = if q.len() == 0 {
                f
            } else {
                skip_trailing(q, '/').push('/') + f
            };
            &&& normalized(j).len() > 0
            &&& before_last(normalized(j), '/') == q
        }),
{
    let j = if q.len() == 0 {
        f
    } else {
        skip_trailing(q, '/').push('/') + f
    };
    if q.len() > 0 {
        assert(skip_trailing(q, '/') == q);
        assert(j[0] == q[0]);
    } else {
        assert(j[0] == f[0]);
    }
    assert(j.last() == f.last());
    assert(skip_leading(j, '/') == j);
    assert(skip_trailing(j, '/') == j);
    assert(normalized(j) == j);
    if q.len() > 0 {
        lemma_before_last_past_plain(q.push('/'), f);
        assert(j =~= q.push('/') + f);
        assert(q.push('/').drop_last() =~= q);
    } else {
        lemma_before_last_past_plain(Seq::empty(), f);
        assert(Seq::<char>::empty() + f =~= f);
    }
}

/// Two different paths of a well-formed table never share an inode.
pub proof fn lemma_paths_name_distinct_inodes(m: InodeManager, p: Seq<char>, q: Seq<char>)
    requires
        m.wf(),
        m.paths().contains_key(p),
        m.paths().contains_key(q),
        p != q,
    ensures
        m.paths()[p] != m.paths()[q],
{
}

/// Asking again for the inode of a path gives the same inode and changes nothing.
pub proof fn lemma_get_or_create_is_stable(
    m0: InodeManager,
    m1: InodeManager,
    m2: InodeManager,
    path: Seq<char>,
    is_dir1: bool,
    size1: u64,
    r1: u64,
    is_dir2: bool,
    size2: u64,
    r2: u64,
)
    requires
        get_or_create_effect(m0, m1, path, is_dir1, size1, r1),
        get_or_create_effect(m1, m2, path, is_dir2, size2, r2),
    ensures
        r2 == r1,
        m1.paths().contains_key(normalized(path)),
        m1.paths()[normalized(path)] == r1,
        m2.paths() == m1.paths(),
        m2.entries() == m1.entries(),
{
}

/// A path and its variants with extra leading or trailing slashes name the same inode.
pub proof fn lemma_slashes_do_not_matter(m: InodeManager, path: Seq<char>)
    ensures
        normalized(seq!['/'] + path + seq!['/']) == normalized(path),
{
    crate::fs::platform::lemma_normalized_ignores_outer_slashes(path);
}

/// After a rename, the new path names the inode that the old path named, and
/// the old path names nothing (when the two differ).
pub proof fn lemma_rename_moves_inode(m0: InodeManager, m1: InodeManager, old_path: Seq<char>, new_path: Seq<char>)
    requires
        rename_effect(m0, m1, old_path, new_path),
        m0.paths().contains_key(normalized(old_path)),
    ensures
        m1.paths().contains_key(normalized(new_path)),
        m1.paths()[normalized(new_path)] == m0.paths()[normalized(old_path)],
        normalized(old_path) != normalized(new_path) ==> !m1.paths().contains_key(normalized(old_path)),
        m1.entries()[m0.paths()[normalized(old_path)]].path == normalized(new_path),
{
}

/// Inode numbers are never reused: a path that gets a new inode gets one that
/// differs from every inode the table held at any earlier point, removed
/// ones included (the next number only grows).
pub proof fn lemma_new_inode_is_fresh(
    m0: InodeManager,
    m1: InodeManager,
    m2: InodeManager,
    i: u64,
    path: Seq<char>,
    is_dir: bool,
    size: u64,
    r: u64,
)
    requires
        m0.wf(),
        m0.entries().contains_key(i),
        m0.next() <= m1.next(),
        get_or_create_effect(m1, m2, path, is_dir, size, r),
        !m1.paths().contains_key(normalized(path)),
    ensures
        r != i,
        m1.wf() ==> !m1.entries().contains_key(r),
{
}

/// Inode manager statistics
#[derive(Debug, Clone, Copy)]
pub struct InodeStats {
    pub total_inodes: usize,
    pub next_inode: u64,
}

/// The inode entries, by inode number.
pub type EntryTable = DashMap<u64, InodeEntry>;

/// The entries of an entry table: each inode number with what its entry
/// holds.
pub uninterp spec fn entry_table(m: EntryTable) -> Map<u64, InodeEntryView>;

/// `DashMap::new`: an empty table.
#[verifier::external_body]
fn entry_table_new() -> (r: EntryTable)
    ensures
        entry_table(r).is_empty(),
{
    DashMap::new()
}

/// `DashMap::get`, with the entry copied out of the guard (by
/// `InodeEntry::copy`): what the table holds for `k`, if anything.
#[verifier::external_body]
fn entry_table_get(m: &EntryTable, k: u64) -> (r: Option<InodeEntry>)
    ensures
        match r {
            Some(e) => entry_table(*m).contains_key(k) && e@ == entry_table(*m)[k],
            None => !entry_table(*m).contains_key(k),
        },
{
    match m.get(&k) {
        Some(e) => Some(e.value().copy()),
        None => None,
    }
}

/// `DashMap::insert`: the table afterwards maps `k` to `v`, all else as
/// before.
#[verifier::external_body]
fn entry_table_insert(m: &mut EntryTable, k: u64, v: InodeEntry)
    ensures
        entry_table(*final(m)) == entry_table(*old(m)).insert(k, v@),
{
    m.insert(k, v);
}

/// `DashMap::remove`, with the key dropped from the pair it returns: the
/// table loses `k`, and what it held for `k` is returned.
#[verifier::external_body]
fn entry_table_remove(m: &mut EntryTable, k: u64) -> (r: Option<InodeEntry>)
    ensures
        entry_table(*final(m)) == entry_table(*old(m)).remove(k),
        match r {
            Some(e) => entry_table(*old(m)).contains_key(k) && e@ == entry_table(*old(m))[k],
            None => !entry_table(*old(m)).contains_key(k),
        },
{
    match m.remove(&k) {
        Some(kv) => Some(kv.1),
        None => None,
    }
}

/// `DashMap::len`: how many entries the table holds.
#[verifier::external_body]
fn entry_table_len(m: &EntryTable) -> (r: usize)
    ensures
        r == entry_table(*m).len(),
{
    m.len()
}

/// Inode manager for path-to-inode mapping
pub struct InodeManager {
    /// Path to inode mapping
    path_to_inode: PathIndex,
    /// Inode to entry mapping
    inode_to_entry: EntryTable,
    /// Next inode number
    next_inode: u64,
    /// Permission configuration
    permission_config: PermissionConfig,
}

impl InodeManager {
    /// The map from normalized paths to inode numbers.
    pub closed spec fn paths(&self) -> Map<Seq<char>, u64> {
        self.path_to_inode.view()
    }

    /// The map from inode numbers to their entries.
    pub closed spec fn entries(&self) -> Map<u64, InodeEntryView> {
        entry_table(self.inode_to_entry)
    }

    /// The inode number that the next new path receives.
    pub closed spec fn next(&self) -> u64 {
        self.next_inode
    }

    /// The permission configuration that new entries take their owner and modes from.
    pub closed spec fn permissions(&self) -> PermissionConfig {
        self.permission_config
    }

    /// Well-formedness: every known path names an entry that carries this
    /// path, and every entry is named by the path it carries (the map from
    /// paths to inodes and the one back are inverse), with a number below
    /// the next number to hand out.
    pub open spec fn wf(&self) -> bool {
        &&& forall|p: Seq<char>| #[trigger]
            self.paths().contains_key(p) ==> self.entries().contains_key(self.paths()[p])
                && self.entries()[self.paths()[p]].path == p
        &&& forall|i: u64| #[trigger] self.entries().contains_key(i) ==> i < self.next()
            && self.paths().contains_key(self.entries()[i].path) && self.paths()[self.entries()[i].path] == i
        &&& self.next() > ROOT_INODE
    }

    /// Create a new inode manager holding the root directory (the empty path).
    pub fn new(permission_config: PermissionConfig) -> (r: Self)
        ensures
            r.wf(),
            r.permissions() == permission_config,
            r.next() == ROOT_INODE + 1,
            r.paths() == Map::<Seq<char>, u64>::empty().insert(Seq::empty(), ROOT_INODE),
            r.entries().dom() == Set::<u64>::empty().insert(ROOT_INODE),
            r.entries()[ROOT_INODE].path == Seq::<char>::empty(),
            r.entries()[ROOT_INODE].is_dir,
            r.entries()[ROOT_INODE].children is None,
            r.entries()[ROOT_INODE].ref_count == 1,
            r.entries()[ROOT_INODE].attr.is_directory_attr(
                ROOT_INODE,
                permission_config.fixed.uid,
                permission_config.fixed.gid,
                permission_config.fixed.dir_mode,
            ),
    {
        let attr = FileAttr::directory(
            ROOT_INODE,
            permission_config.fixed.uid,
            permission_config.fixed.gid,
            permission_config.fixed.dir_mode,
        );
        let entry = InodeEntry {
            path: String::new(),
            attr,
            is_dir: true,
            children: None,
            cached_at: instant_now(),
            ref_count: 1,
        };
        let mut path_to_inode = PathIndex::new();
        path_to_inode.insert(String::new(), ROOT_INODE);
        let mut inode_to_entry = entry_table_new();
        entry_table_insert(&mut inode_to_entry, ROOT_INODE, entry);
        let r = InodeManager { path_to_inode, inode_to_entry, next_inode: ROOT_INODE + 1, permission_config };
        assert(r.entries().dom() =~= Set::<u64>::empty().insert(ROOT_INODE));
        assert(r.paths() =~= Map::<Seq<char>, u64>::empty().insert(Seq::empty(), ROOT_INODE));
        r
    }

    /// Get or create inode for a path. The path is normalized first; a known
    /// path keeps its inode, a new one receives the next number and an entry
    /// with the configured owner and mode.
    pub fn get_or_create_inode(&mut self, path: &str, is_dir: bool, size: u64) -> (r: u64)
        requires
            old(self).wf(),
            old(self).next() < u64::MAX,
        ensures
            final(self).wf(),
            get_or_create_effect(*old(self), *final(self), path@, is_dir, size, r),
    {
        let normalized_path = normalize_path(path);
        if let Some(inode) = self.path_to_inode.get(normalized_path.as_str()) {
            return inode;
        }
        let inode = self.next_inode;
        self.next_inode = self.next_inode + 1;
        let attr = if is_dir {
            FileAttr::directory(
                inode,
                self.permission_config.fixed.uid,
                self.permission_config.fixed.gid,
                self.permission_config.fixed.dir_mode,
            )
        } else {
            FileAttr::file(
                inode,
                size,
                self.permission_config.fixed.uid,
                self.permission_config.fixed.gid,
                self.permission_config.fixed.file_mode,
            )
        };
        let entry = InodeEntry {
            path: normalized_path.clone(),
            attr,
            is_dir,
            children: None,
            cached_at: instant_now(),
            ref_count: 0,
        };
        self.path_to_inode.insert(normalized_path, inode);
        entry_table_insert(&mut self.inode_to_entry, inode, entry);
        assert(self.entries().remove(inode) =~= old(self).entries());
        inode
    }

    /// Get inode for a path (normalized first)
    pub fn get_inode(&self, path: &str) -> (r: Option<u64>)
        ensures
            r == (if self.paths().contains_key(normalized(path@)) {
                Some(self.paths()[normalized(path@)])
            } else {
                None
            }),
    {
        let normalized_path = normalize_path(path);
        self.path_to_inode.get(normalized_path.as_str())
    }

    /// Get entry by inode
    pub fn get_entry(&self, inode: u64) -> (r: Option<InodeEntry>)
        ensures
            match r {
                Some(e) => self.entries().contains_key(inode) && e@ == self.entries()[inode],
                None => !self.entries().contains_key(inode),
            },
    {
        entry_table_get(&self.inode_to_entry, inode)
    }

    /// Get path by inode
    pub fn get_path(&self, inode: u64) -> (r: Option<String>)
        ensures
            match r {
                Some(p) => self.entries().contains_key(inode) && p@ == self.entries()[inode].path,
                None => !self.entries().contains_key(inode),
            },
    {
        match entry_table_get(&self.inode_to_entry, inode) {
            Some(e) => Some(e.path.clone()),
            None => None,
        }
    }

    /// Replaces the entry of `inode`, which the table holds.
    fn put_entry(&mut self, inode: u64, e: InodeEntry)
        requires
            old(self).wf(),
            old(self).entries().contains_key(inode),
            e.path@ == old(self).entries()[inode].path,
        ensures
            final(self).wf(),
            final(self).paths() == old(self).paths(),
            final(self).next() == old(self).next(),
            final(self).permissions() == old(self).permissions(),
            final(self).entries() == old(self).entries().insert(inode, e@),
    {
        entry_table_insert(&mut self.inode_to_entry, inode, e);
        assert(self.entries() =~= old(self).entries().insert(inode, e@));
    }

    /// Update entry attributes with `f`, and refresh the entry's cache time.
    pub fn update_attr<F: FnOnce(FileAttr) -> FileAttr>(&mut self, inode: u64, f: F)
        requires
            old(self).wf(),
            old(self).entries().contains_key(inode) ==> f.requires((old(self).entries()[inode].attr,)),
        ensures
            final(self).wf(),
            final(self).paths() == old(self).paths(),
            final(self).next() == old(self).next(),
            final(self).permissions() == old(self).permissions(),
            final(self).entries().dom() == old(self).entries().dom(),
            forall|i: u64| i != inode && #[trigger] old(self).entries().contains_key(i) ==> final(self).entries()[i]
                == old(self).entries()[i],
            old(self).entries().contains_key(inode) ==> {
                let o = old(self).entries()[inode];
                let n = final(self).entries()[inode];
                &&& f.ensures((o.attr,), n.attr)
                &&& n.path == o.path
                &&& n.is_dir == o.is_dir
                &&& n.children == o.children
                &&& n.ref_count == o.ref_count
            },
    {
        if let Some(mut e) = entry_table_get(&self.inode_to_entry, inode) {
            e.attr = f(e.attr);
            e.cached_at = instant_now();
            self.put_entry(inode, e);
        }
    }

    /// Update entry size: blocks follow the size and the modification time is now.
    pub fn update_size(&mut self, inode: u64, size: u64)
        requires
            old(self).wf(),
        ensures
            final(self).wf(),
            final(self).paths() == old(self).paths(),
            final(self).next() == old(self).next(),
            final(self).permissions() == old(self).permissions(),
            final(self).entries().dom() == old(self).entries().dom(),
            forall|i: u64| i != inode && #[trigger] old(self).entries().contains_key(i) ==> final(self).entries()[i]
                == old(self).entries()[i],
            old(self).entries().contains_key(inode) ==> {
                let o = old(self).entries()[inode];
                let n = final(self).entries()[inode];
                &&& n.attr.size == size
                &&& n.attr.blocks == blocks_for(size)
                &&& n.attr.ino == o.attr.ino && n.attr.kind == o.attr.kind && n.attr.perm == o.attr.perm
                &&& n.attr.uid == o.attr.uid && n.attr.gid == o.attr.gid && n.attr.nlink == o.attr.nlink
                &&& n.attr.atime == o.attr.atime && n.attr.ctime == o.attr.ctime
                &&& n.path == o.path && n.is_dir == o.is_dir && n.children == o.children
                &&& n.ref_count == o.ref_count
            },
    {
        if let Some(mut e) = entry_table_get(&self.inode_to_entry, inode) {
            e.attr.size = size;
            e.attr.blocks = block_count(size);
            e.attr.mtime = system_time_now();
            e.cached_at = instant_now();
            self.put_entry(inode, e);
        }
    }

    /// Update entry mtime
    pub fn update_mtime(&mut self, inode: u64, mtime: SystemTime)
        requires
            old(self).wf(),
        ensures
            final(self).wf(),
            final(self).paths() == old(self).paths(),
            final(self).next() == old(self).next(),
            final(self).permissions() == old(self).permissions(),
            final(self).entries().dom() == old(self).entries().dom(),
            forall|i: u64| i != inode && #[trigger] old(self).entries().contains_key(i) ==> final(self).entries()[i]
                == old(self).entries()[i],
            old(self).entries().contains_key(inode) ==> {
                let o = old(self).entries()[inode];
                let n = final(self).entries()[inode];
                &&& n.attr == (FileAttr { mtime, ..o.attr })
                &&& n.path == o.path && n.is_dir == o.is_dir && n.children == o.children
                &&& n.ref_count == o.ref_count
            },
    {
        if let Some(mut e) = entry_table_get(&self.inode_to_entry, inode) {
            e.attr.mtime = mtime;
            e.cached_at = instant_now();
            self.put_entry(inode, e);
        }
    }

    /// Set children for a directory
    pub fn set_children(&mut self, inode: u64, children: Vec<u64>)
        requires
            old(self).wf(),
        ensures
            final(self).wf(),
            final(self).paths() == old(self).paths(),
            final(self).next() == old(self).next(),
            final(self).permissions() == old(self).permissions(),
            final(self).entries().dom() == old(self).entries().dom(),
            forall|i: u64| i != inode && #[trigger] old(self).entries().contains_key(i) ==> final(self).entries()[i]
                == old(self).entries()[i],
            old(self).entries().contains_key(inode) ==> {
                let o = old(self).entries()[inode];
                let n = final(self).entries()[inode];
                &&& n.children == Some(children@)
                &&& n.attr == o.attr && n.path == o.path && n.is_dir == o.is_dir
                &&& n.ref_count == o.ref_count
            },
    {
        if let Some(mut e) = entry_table_get(&self.inode_to_entry, inode) {
            e.children = Some(children);
            e.cached_at = instant_now();
            self.put_entry(inode, e);
        }
    }

    /// Get children of a directory
    pub fn get_children(&self, inode: u64) -> (r: Option<Vec<u64>>)
        ensures
            match r {
                Some(c) => self.entries().contains_key(inode) && self.entries()[inode].children == Some(c@),
                None => !self.entries().contains_key(inode) || self.entries()[inode].children is None,
            },
    {
        match entry_table_get(&self.inode_to_entry, inode) {
            Some(e) => copy_children(&e.children),
            None => None,
        }
    }

    /// Increment reference count
    pub fn inc_ref(&mut self, inode: u64)
        requires
            old(self).wf(),
            old(self).entries().contains_key(inode) ==> old(self).entries()[inode].ref_count < u64::MAX,
        ensures
            final(self).wf(),
            final(self).paths() == old(self).paths(),
            final(self).next() == old(self).next(),
            final(self).permissions() == old(self).permissions(),
            !old(self).entries().contains_key(inode) ==> final(self).entries() == old(self).entries(),
            old(self).entries().contains_key(inode) ==> final(self).entries() == old(self).entries().insert(
                inode,
                InodeEntryView { ref_count: (old(self).entries()[inode].ref_count + 1) as u64, ..old(self).entries()[inode] },
            ),
    {
        if let Some(mut e) = entry_table_get(&self.inode_to_entry, inode) {
            e.ref_count = e.ref_count + 1;
            self.put_entry(inode, e);
        }
    }

    /// Decrement reference count, not below zero; returns the new count (zero
    /// for an unknown inode).
    pub fn dec_ref(&mut self, inode: u64) -> (r: u64)
        requires
            old(self).wf(),
        ensures
            final(self).wf(),
            final(self).paths() == old(self).paths(),
            final(self).next() == old(self).next(),
            final(self).permissions() == old(self).permissions(),
            !old(self).entries().contains_key(inode) ==> final(self).entries() == old(self).entries() && r == 0,
            old(self).entries().contains_key(inode) ==> {
                let o = old(self).entries()[inode];
                &&& r == (if o.ref_count > 0 { o.ref_count - 1 } else { 0 })
                &&& final(self).entries() == old(self).entries().insert(inode, InodeEntryView { ref_count: r, ..o })
            },
    {
        if let Some(mut e) = entry_table_get(&self.inode_to_entry, inode) {
            e.ref_count = if e.ref_count > 0 { e.ref_count - 1 } else { 0 };
            let r = e.ref_count;
            self.put_entry(inode, e);
            r
        } else {
            0
        }
    }

    /// Remove inode: drops its entry and the mapping of the entry's path.
    pub fn remove(&mut self, inode: u64)
        requires
            old(self).wf(),
        ensures
            final(self).wf(),
            final(self).next() == old(self).next(),
            final(self).permissions() == old(self).permissions(),
            final(self).entries() == old(self).entries().remove(inode),
            old(self).entries().contains_key(inode) ==> final(self).paths() == old(self).paths().remove(
                old(self).entries()[inode].path,
            ),
            !old(self).entries().contains_key(inode) ==> final(self).paths() == old(self).paths(),
    {
        if let Some(entry) = entry_table_remove(&mut self.inode_to_entry, inode) {
            self.path_to_inode.remove(entry.path.as_str());
            assert(self.entries() =~= old(self).entries().remove(inode));
        } else {
            assert(self.entries() =~= old(self).entries().remove(inode));
        }
    }

    /// Remove inode by path: drops the mapping of the normalized path and the
    /// entry it named.
    pub fn remove_by_path(&mut self, path: &str)
        requires
            old(self).wf(),
        ensures
            final(self).wf(),
            final(self).next() == old(self).next(),
            final(self).permissions() == old(self).permissions(),
            final(self).paths() == old(self).paths().remove(normalized(path@)),
            old(self).paths().contains_key(normalized(path@)) ==> final(self).entries() == old(self).entries().remove(old(self).paths()[normalized(path@)]),
            !old(self).paths().contains_key(normalized(path@)) ==> final(self).entries() == old(self).entries(),
    {
        let normalized_path = normalize_path(path);
        if let Some(inode) = self.path_to_inode.remove(normalized_path.as_str()) {
            entry_table_remove(&mut self.inode_to_entry, inode);
            assert(self.entries() =~= old(self).entries().remove(inode));
        }
    }

    /// Rename/move inode: the inode of the old path moves to the new path.
    pub fn rename(&mut self, old_path: &str, new_path: &str)
        requires
            old(self).wf(),
        ensures
            final(self).wf(),
            final(self).next() == old(self).next(),
            final(self).permissions() == old(self).permissions(),
            rename_effect(*old(self), *final(self), old_path@, new_path@),
    {
        let old_normalized = normalize_path(old_path);
        let new_normalized = normalize_path(new_path);
        if let Some(inode) = self.path_to_inode.remove(old_normalized.as_str()) {
            let ghost displaced = old(self).paths().contains_key(new_normalized@) && old(self).paths()[new_normalized@] != inode;
            let ghost others = if displaced {
                old(self).entries().remove(old(self).paths()[new_normalized@])
            } else {
                old(self).entries()
            };
            match self.path_to_inode.get(new_normalized.as_str()) {
                Some(j) => {
                    if j != inode {
                        entry_table_remove(&mut self.inode_to_entry, j);
                    }
                },
                None => {},
            }
            self.path_to_inode.insert(new_normalized.clone(), inode);
            if let Some(mut e) = entry_table_get(&self.inode_to_entry, inode) {
                e.path = new_normalized;
                e.cached_at = instant_now();
                entry_table_insert(&mut self.inode_to_entry, inode, e);
            }
            assert(self.entries().dom() =~= others.dom());
            assert forall|p: Seq<char>| #[trigger] self.paths().contains_key(p) implies self.entries().contains_key(
                self.paths()[p],
            ) && self.entries()[self.paths()[p]].path == p by {
                if p != new_normalized@ {
                    assert(old(self).paths().contains_key(p) && old(self).paths()[p] == self.paths()[p]);
                    if self.paths()[p] == inode {
                        assert(old(self).entries()[inode].path == p);
                        assert(old(self).entries()[inode].path == old_normalized@);
                    }
                }
            }
        } else {
            assert(self.paths() =~= old(self).paths());
        }
    }

    /// How long ago the entry of `inode` was cached, when there is one. The
    /// length depends on the clock and is not stated.
    pub fn entry_age(&self, inode: u64) -> (r: Option<Duration>)
        ensures
            r is Some <==> self.entries().contains_key(inode),
    {
        match entry_table_get(&self.inode_to_entry, inode) {
            Some(e) => Some(instant_elapsed(&e.cached_at)),
            None => None,
        }
    }

    /// Whether the entry of `inode`, cached `age` ago, was cached more than
    /// `ttl` ago (an unknown inode counts as expired).
    pub fn is_expired_after(&self, inode: u64, ttl: Duration, age: Duration) -> (r: bool)
        ensures
            r == (!self.entries().contains_key(inode) || duration_nanos(age) > duration_nanos(ttl)),
    {
        match entry_table_get(&self.inode_to_entry, inode) {
            Some(_) => exceeds(age, ttl),
            None => true,
        }
    }

    /// Whether the entry of `inode` was cached more than `ttl` ago (an unknown
    /// inode counts as expired; see `is_expired_after`, which is handed the
    /// entry's age).
    pub fn is_expired(&self, inode: u64, ttl: Duration) -> (r: bool)
        ensures
            !self.entries().contains_key(inode) ==> r,
    {
        match self.entry_age(inode) {
            Some(age) => self.is_expired_after(inode, ttl, age),
            None => true,
        }
    }

    /// Invalidate entry: it counts as cached an hour ago and forgets its children.
    pub fn invalidate(&mut self, inode: u64)
        requires
            old(self).wf(),
        ensures
            final(self).wf(),
            final(self).paths() == old(self).paths(),
            final(self).next() == old(self).next(),
            final(self).permissions() == old(self).permissions(),
            final(self).entries().dom() == old(self).entries().dom(),
            forall|i: u64| i != inode && #[trigger] old(self).entries().contains_key(i) ==> final(self).entries()[i]
                == old(self).entries()[i],
            old(self).entries().contains_key(inode) ==> {
                let o = old(self).entries()[inode];
                let n = final(self).entries()[inode];
                &&& n.children is None
                &&& n.attr == o.attr && n.path == o.path && n.is_dir == o.is_dir
                &&& n.ref_count == o.ref_count
            },
    {
        if let Some(mut e) = entry_table_get(&self.inode_to_entry, inode) {
            let now = instant_now();
            e.cached_at = match instant_checked_sub(&now, duration_from_secs(3600)) {
                Some(t) => t,
                None => e.cached_at,
            };
            e.children = None;
            self.put_entry(inode, e);
        }
    }

    /// Invalidate the entry of a path
    pub fn invalidate_path(&mut self, path: &str)
        requires
            old(self).wf(),
        ensures
            final(self).wf(),
            final(self).paths() == old(self).paths(),
            final(self).next() == old(self).next(),
            final(self).permissions() == old(self).permissions(),
            final(self).entries().dom() == old(self).entries().dom(),
            old(self).paths().contains_key(normalized(path@)) ==> ({
                let i = old(self).paths()[normalized(path@)];
                &&& final(self).entries()[i].children is None
                &&& final(self).entries()[i].attr == old(self).entries()[i].attr
            }),
            !old(self).paths().contains_key(normalized(path@)) ==> final(self).entries() == old(self).entries(),
    {
        let normalized_path = normalize_path(path);
        if let Some(inode) = self.path_to_inode.get(normalized_path.as_str()) {
            self.invalidate(inode);
        }
    }

    /// Get statistics
    pub fn stats(&self) -> (r: InodeStats)
        ensures
            r.total_inodes == self.entries().len(),
            r.next_inode == self.next(),
    {
        assert(self.entries().dom() =~= entry_table(self.inode_to_entry).dom());
        InodeStats { total_inodes: entry_table_len(&self.inode_to_entry), next_inode: self.next_inode }
    }

    /// Get parent path: the normalized path up to its last `/` (empty for a
    /// top-level path); none for the root.
    pub fn parent_path(path: &str) -> (r: Option<String>)
        ensures
            normalized(path@).len() == 0 ==> r is None,
            normalized(path@).len() > 0 ==> r is Some && r->0@ == before_last(normalized(path@), '/'),
    {
        let normalized = normalize_path(path);
        let v = chars_of(normalized.as_str());
        if v.len() == 0 {
            return None;
        }
        assert(v@.subrange(0, v@.len() as int) =~= v@);
        match find_last(&v, 0, v.len(), '/') {
            Some(k) => Some(string_of(&v, 0, k)),
            None => Some(String::new()),
        }
    }

    /// Get file name from path: the part after the last `/` once trailing
    /// slashes are dropped.
    pub fn file_name(path: &str) -> (r: String)
        ensures
            r@ == after_last(skip_trailing(path@, '/'), '/'),
    {
        let v = chars_of(path);
        let hi = skip_trailing_at(&v, 0, v.len(), '/');
        assert(v@.subrange(0, v@.len() as int) =~= v@);
        match find_last(&v, 0, hi, '/') {
            Some(k) => string_of(&v, k + 1, hi),
            None => string_of(&v, 0, hi),
        }
    }

    /// Join path components: the name alone under the root, otherwise the
    /// parent without trailing slashes, a `/`, and the name.
    pub fn join_path(parent: &str, name: &str) -> (r: String)
        ensures
            parent@.len() == 0 ==> r@ == name@,
            parent@.len() > 0 ==> r@ == skip_trailing(parent@, '/').push('/') + name@,
    {
        if parent.is_empty() {
            return name.to_owned();
        }
        let v = chars_of(parent);
        let hi = skip_trailing_at(&v, 0, v.len(), '/');
        assert(v@.subrange(0, v@.len() as int) =~= v@);
        let mut r = string_of(&v, 0, hi);
        push_char(&mut r, '/');
        r.append(name);
        r
    }
}

} // verus!

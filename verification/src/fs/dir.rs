//! Directory entries and listings, and how object keys map to the names of
//! a directory's children.

use std::time::Duration;
use vstd::prelude::*;

use crate::fs::inode::FileAttr;
use crate::fs::platform::FileKind;
use crate::utils::clock::{duration_from_secs, duration_nanos};
use crate::utils::text::{
    before_first, chars_of, lemma_before_first_at, lemma_leading_gone, lemma_trailing_is_prefix, contains_char, find_first, has_prefix, skip_leading, skip_leading_at,
    skip_trailing, skip_trailing_at, starts_with, string_of,
};

verus! {

/// Directory entry for readdir operations
#[derive(Debug, Clone)]
pub struct DirEntry {
    /// Inode number
    pub inode: u64,
    /// Entry name
    pub name: String,
    /// File type
    pub kind: FileKind,
    /// Offset for next entry
    pub offset: i64,
}

/// What a directory entry says.
pub struct DirEntryView {
    pub inode: u64,
    pub name: Seq<char>,
    pub kind: FileKind,
    pub offset: i64,
}

impl View for DirEntry {
    type V = DirEntryView;

    open spec fn view(&self) -> DirEntryView {
        DirEntryView { inode: self.inode, name: self.name@, kind: self.kind, offset: self.offset }
    }
}

impl DirEntry {
    /// Create a new directory entry
    pub fn new(inode: u64, name: &str, kind: FileKind, offset: i64) -> (r: Self)
        ensures
            r@ == (DirEntryView { inode, name: name@, kind, offset }),
    {
        DirEntry { inode, name: name.to_owned(), kind, offset }
    }

    /// Create entry for "."
    pub fn dot(inode: u64) -> (r: Self)
        ensures
            r@ == (DirEntryView { inode, name: seq!['.'], kind: FileKind::Directory, offset: 1 }),
    {
        proof {
            reveal_strlit(".");
        }
        let r = Self::new(inode, ".", FileKind::Directory, 1);
        assert(r.name@ =~= seq!['.']);
        r
    }

    /// Create entry for ".."
    pub fn dotdot(parent_inode: u64) -> (r: Self)
        ensures
            r@ == (DirEntryView { inode: parent_inode, name: seq!['.', '.'], kind: FileKind::Directory, offset: 2 }),
    {
        proof {
            reveal_strlit("..");
        }
        let r = Self::new(parent_inode, "..", FileKind::Directory, 2);
        assert(r.name@ =~= seq!['.', '.']);
        r
    }

    /// A copy of the entry.
    pub fn copy(&self) -> (r: Self)
        ensures
            r@ == self@,
    {
        DirEntry { inode: self.inode, name: self.name.clone(), kind: self.kind, offset: self.offset }
    }
}

/// Directory entry builder for readdir plus operations
#[derive(Debug, Clone)]
pub struct DirEntryPlus {
    /// Basic entry info
    pub entry: DirEntry,
    /// Full file attributes
    pub attr: Option<FileAttr>,
    /// Attribute TTL
    pub attr_ttl: Duration,
    /// Entry TTL
    pub entry_ttl: Duration,
}

impl DirEntryPlus {
    /// Create a new directory entry plus, with one-second times to live.
    pub fn new(entry: DirEntry, attr: Option<FileAttr>) -> (r: Self)
        ensures
            r.entry@ == entry@,
            r.attr == attr,
            duration_nanos(r.attr_ttl) == 1_000_000_000,
            duration_nanos(r.entry_ttl) == 1_000_000_000,
    {
        DirEntryPlus { entry, attr, attr_ttl: duration_from_secs(1), entry_ttl: duration_from_secs(1) }
    }

    /// Set TTLs
    pub fn with_ttl(self, attr_ttl: Duration, entry_ttl: Duration) -> (r: Self)
        ensures
            r.entry@ == self.entry@,
            r.attr == self.attr,
            r.attr_ttl == attr_ttl,
            r.entry_ttl == entry_ttl,
    {
        DirEntryPlus { attr_ttl, entry_ttl, ..self }
    }
}

/// Directory listing result
#[derive(Debug, Clone)]
pub struct DirListing {
    /// Directory entries
    pub entries: Vec<DirEntry>,
    /// Whether listing is complete
    pub complete: bool,
    /// Continuation token for pagination
    pub continuation_token: Option<String>,
}

/// The views of a sequence of entries.
pub open spec fn entry_views(v: Seq<DirEntry>) -> Seq<DirEntryView> {
    v.map_values(|e: DirEntry| e@)
}

/// The entries of `v` whose offset is past `offset`, in order.
pub open spec fn entries_after(v: Seq<DirEntryView>, offset: i64) -> Seq<DirEntryView> {
    v.filter(|e: DirEntryView| e.offset > offset)
}

impl DirListing {
    /// Create a new, complete directory listing
    pub fn new(entries: Vec<DirEntry>) -> (r: Self)
        ensures
            entry_views(r.entries@) == entry_views(entries@),
            r.complete,
            r.continuation_token is None,
    {
        DirListing { entries, complete: true, continuation_token: None }
    }

    /// Create with pagination info
    pub fn with_pagination(entries: Vec<DirEntry>, complete: bool, continuation_token: Option<String>) -> (r: Self)
        ensures
            entry_views(r.entries@) == entry_views(entries@),
            r.complete == complete,
            r.continuation_token == continuation_token,
    {
        DirListing { entries, complete, continuation_token }
    }

    /// Get entries starting from offset: those whose offset is past it.
    pub fn from_offset(&self, offset: i64) -> (r: Vec<DirEntry>)
        ensures
            entry_views(r@) == entries_after(entry_views(self.entries@), offset),
    {
        let ghost all = entry_views(self.entries@);
        let mut r: Vec<DirEntry> = Vec::new();
        let mut i: usize = 0;
        while i < self.entries.len()
            invariant
                all == entry_views(self.entries@),
                i <= self.entries@.len(),
                entry_views(r@) == entries_after(all.take(i as int), offset),
            decreases self.entries@.len() - i,
        {
            let e = &self.entries[i];
            proof {
                reveal(Seq::filter);
                assert(all.take(i + 1).drop_last() =~= all.take(i as int));
                assert(all.take(i + 1).last() == e@);
            }
            if e.offset > offset {
                let ghost before = r@;
                r.push(e.copy());
                proof {
                    assert(entry_views(r@) =~= entry_views(before).push(e@));
                }
            }
            i = i + 1;
        }
        assert(all.take(all.len() as int) =~= all);
        r
    }
}

/// The path of `path` below `prefix`, leading slashes dropped.
pub open spec fn below_prefix(path: Seq<char>, prefix: Seq<char>) -> Seq<char> {
    skip_leading(path.subrange(prefix.len() as int, path.len() as int), '/')
}

/// The name of the child of the directory at `prefix` that holds `path`:
/// the first component of the path below the prefix; none when `path` is
/// not below `prefix` or that component is empty.
pub open spec fn child_name(path: Seq<char>, prefix: Seq<char>) -> Option<Seq<char>> {
    if has_prefix(path, prefix) {
        let name = before_first(below_prefix(path, prefix), '/');
        if name.len() == 0 {
            None
        } else {
            Some(name)
        }
    } else {
        None
    }
}

/// Extract directory name from OBS path
pub fn extract_dir_name(path: &str, prefix: &str) -> (r: Option<String>)
    ensures
        match child_name(path@, prefix@) {
            Some(n) => r is Some && r->0@ == n,
            None => r is None,
        },
{
    let v = chars_of(path);
    let p = chars_of(prefix);
    if !starts_with(&v, &p) {
        return None;
    }
    let k = skip_leading_at(&v, p.len(), v.len(), '/');
    let e = find_first(&v, k, v.len(), '/');
    if e == k {
        None
    } else {
        Some(string_of(&v, k, e))
    }
}

/// `path` names a direct child of the directory at `prefix`: below the
/// prefix it is nonempty and holds no `/` but trailing ones.
pub open spec fn direct_child(path: Seq<char>, prefix: Seq<char>) -> bool {
    &&& has_prefix(path, prefix)
    &&& below_prefix(path, prefix).len() > 0
    &&& !skip_trailing(below_prefix(path, prefix), '/').contains('/')
}

/// The name `extract_dir_name` gives for a direct child of the directory is
/// the child's path below it with trailing `/` dropped.
pub proof fn lemma_direct_child_name(path: Seq<char>, prefix: Seq<char>)
    requires
        direct_child(path, prefix),
    ensures
        child_name(path, prefix) == Some(skip_trailing(below_prefix(path, prefix), '/')),
{
    let b = below_prefix(path, prefix);
    let st = skip_trailing(b, '/');
    lemma_leading_gone(path.subrange(prefix.len() as int, path.len() as int), '/');
    lemma_trailing_is_prefix(b, '/');
    if st.len() == 0 {
        assert(b[0] == '/');
    }
    assert forall|i: int| 0 <= i < st.len() implies b[i] != '/' by {
        assert(st[i] == b[i]);
        if b[i] == '/' {
            assert(st.contains('/'));
        }
    }
    lemma_before_first_at(b, '/', st.len() as int);
}

/// Check if path is direct child of prefix
pub fn is_direct_child(path: &str, prefix: &str) -> (r: bool)
    ensures
        r == direct_child(path@, prefix@),
{
    let v = chars_of(path);
    let p = chars_of(prefix);
    if !starts_with(&v, &p) {
        return false;
    }
    let k = skip_leading_at(&v, p.len(), v.len(), '/');
    let t = skip_trailing_at(&v, k, v.len(), '/');
    proof {
        assert(below_prefix(path@, prefix@) == v@.subrange(k as int, v@.len() as int));
    }
    !contains_char(&v, k, t, '/') && k < v.len()
}

} // verus!

//! The map from normalized paths to inode numbers, held in a concurrent map.

use dashmap::DashMap;
use vstd::prelude::*;

verus! {

/// The inode numbers of the known paths, by path.
pub type PathTable = DashMap<String, u64>;

/// The entries of a path table: each path, as its characters, with its
/// inode number.
pub uninterp spec fn path_table(m: PathTable) -> Map<Seq<char>, u64>;

/// `DashMap::new`: an empty table.
#[verifier::external_body]
fn path_table_new() -> (r: PathTable)
    ensures
        path_table(r).is_empty(),
{
    DashMap::new()
}

/// `DashMap::get`, with the number copied out of the guard: the inode of
/// `p`, if the table holds `p`.
#[verifier::external_body]
fn path_table_get(m: &PathTable, p: &str) -> (r: Option<u64>)
    ensures
        r == (if path_table(*m).contains_key(p@) {
            Some(path_table(*m)[p@])
        } else {
            None
        }),
{
    match m.get(p) {
        Some(e) => Some(*e.value()),
        None => None,
    }
}

/// `DashMap::insert`: the table afterwards maps `p` to `inode`, all else as
/// before.
#[verifier::external_body]
fn path_table_insert(m: &mut PathTable, p: String, inode: u64)
    ensures
        path_table(*final(m)) == path_table(*old(m)).insert(p@, inode),
{
    m.insert(p, inode);
}

/// `DashMap::remove`, with the key dropped from the pair it returns: the
/// table loses `p`, and the inode it held for `p` is returned.
#[verifier::external_body]
fn path_table_remove(m: &mut PathTable, p: &str) -> (r: Option<u64>)
    ensures
        path_table(*final(m)) == path_table(*old(m)).remove(p@),
        r == (if path_table(*old(m)).contains_key(p@) {
            Some(path_table(*old(m))[p@])
        } else {
            None
        }),
{
    match m.remove(p) {
        Some(kv) => Some(kv.1),
        None => None,
    }
}

/// Map from path strings to inode numbers.
pub struct PathIndex {
    table: PathTable,
}

impl PathIndex {
    /// The map from paths to inodes.
    pub closed spec fn view(&self) -> Map<Seq<char>, u64> {
        path_table(self.table)
    }

    /// An empty index.
    pub fn new() -> (r: Self)
        ensures
            r.view() == Map::<Seq<char>, u64>::empty(),
    {
        let r = PathIndex { table: path_table_new() };
        assert(r.view() =~= Map::<Seq<char>, u64>::empty());
        r
    }

    /// The inode of path `p`, if any.
    pub fn get(&self, p: &str) -> (r: Option<u64>)
        ensures
            r == (if self.view().contains_key(p@) {
                Some(self.view()[p@])
            } else {
                None
            }),
    {
        path_table_get(&self.table, p)
    }

    /// Maps `p` to `inode`, replacing any earlier inode of `p`.
    pub fn insert(&mut self, p: String, inode: u64)
        ensures
            final(self).view() == old(self).view().insert(p@, inode),
    {
        path_table_insert(&mut self.table, p, inode);
    }

    /// Removes `p`, returning its inode if it had one.
    pub fn remove(&mut self, p: &str) -> (r: Option<u64>)
        ensures
            r == (if old(self).view().contains_key(p@) {
                Some(old(self).view()[p@])
            } else {
                None
            }),
            final(self).view() == old(self).view().remove(p@),
    {
        path_table_remove(&mut self.table, p)
    }
}

} // verus!

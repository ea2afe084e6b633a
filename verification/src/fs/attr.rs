//! File attributes from object metadata, and partial attribute updates.

use std::time::SystemTime;
use vstd::prelude::*;

use crate::config::{PermissionConfig, PermissionMode};
use crate::fs::inode::{block_count, blocks_for, perm_bits, FileAttr};
use crate::fs::platform::FileKind;
use crate::storage::obs::ObjectMeta;
use crate::utils::clock::system_time_now;
use crate::utils::text::chars_of;

verus! {

/// The owner, group and mode given to an object: the configured fixed ones,
/// with the directory or the file mode by kind. Objects keep no permissions
/// of their own yet, so preserved mode falls back to the fixed settings.
pub open spec fn permissions_for(config: PermissionConfig, is_dir: bool) -> (u32, u32, u32) {
    (config.fixed.uid, config.fixed.gid, if is_dir {
        config.fixed.dir_mode
    } else {
        config.fixed.file_mode
    })
}

/// Attribute builder for creating file attributes from OBS metadata
pub struct AttrBuilder<'a> {
    permission_config: &'a PermissionConfig,
}

impl<'a> AttrBuilder<'a> {
    /// The permission settings attributes are built with.
    pub closed spec fn config(&self) -> PermissionConfig {
        *self.permission_config
    }

    /// Create a new attribute builder
    pub fn new(permission_config: &'a PermissionConfig) -> (r: Self)
        ensures
            r.config() == *permission_config,
    {
        AttrBuilder { permission_config }
    }

    /// Build file attributes from OBS object metadata. Access, modification
    /// and change times are the object's last modification, or now when the
    /// object has none.
    pub fn from_object_meta(&self, inode: u64, meta: &ObjectMeta) -> (r: FileAttr)
        ensures
            ({
                let (uid, gid, mode) = permissions_for(self.config(), meta.is_dir);
                &&& meta.is_dir ==> r.is_directory_attr(inode, uid, gid, mode)
                &&& !meta.is_dir ==> r.is_file_attr(inode, meta.size, uid, gid, mode)
            }),
            r.atime == r.mtime,
            r.ctime == r.mtime,
            meta.last_modified is Some ==> r.mtime == meta.last_modified->0,
    {
        let (uid, gid, mode) = self.get_permissions(meta);
        let mtime = match meta.last_modified {
            Some(t) => t,
            None => system_time_now(),
        };
        if meta.is_dir {
            let mut attr = FileAttr::directory(inode, uid, gid, mode);
            attr.mtime = mtime;
            attr.atime = mtime;
            attr.ctime = mtime;
            attr
        } else {
            let mut attr = FileAttr::file(inode, meta.size, uid, gid, mode);
            attr.mtime = mtime;
            attr.atime = mtime;
            attr.ctime = mtime;
            attr
        }
    }

    /// Get permissions based on configuration mode
    fn get_permissions(&self, meta: &ObjectMeta) -> (r: (u32, u32, u32))
        ensures
            r == permissions_for(self.config(), meta.is_dir),
    {
        match self.permission_config.mode {
            PermissionMode::Fixed => {
                let mode = if meta.is_dir {
                    self.permission_config.fixed.dir_mode
                } else {
                    self.permission_config.fixed.file_mode
                };
                (self.permission_config.fixed.uid, self.permission_config.fixed.gid, mode)
            },
            PermissionMode::Preserved => {
                let mode = if meta.is_dir {
                    self.permission_config.fixed.dir_mode
                } else {
                    self.permission_config.fixed.file_mode
                };
                (self.permission_config.fixed.uid, self.permission_config.fixed.gid, mode)
            },
        }
    }

    /// Create attributes for a new, empty file: the given mode, or the
    /// configured file mode.
    pub fn new_file(&self, inode: u64, mode: Option<u32>) -> (r: FileAttr)
        ensures
            r.is_file_attr(
                inode,
                0,
                self.config().fixed.uid,
                self.config().fixed.gid,
                match mode {
                    Some(m) => m,
                    None => self.config().fixed.file_mode,
                },
            ),
            r.same_times(),
    {
        let file_mode = match mode {
            Some(m) => m,
            None => self.permission_config.fixed.file_mode,
        };
        FileAttr::file(inode, 0, self.permission_config.fixed.uid, self.permission_config.fixed.gid, file_mode)
    }

    /// Create attributes for a new directory: the given mode, or the
    /// configured directory mode.
    pub fn new_directory(&self, inode: u64, mode: Option<u32>) -> (r: FileAttr)
        ensures
            r.is_directory_attr(
                inode,
                self.config().fixed.uid,
                self.config().fixed.gid,
                match mode {
                    Some(m) => m,
                    None => self.config().fixed.dir_mode,
                },
            ),
            r.same_times(),
    {
        let dir_mode = match mode {
            Some(m) => m,
            None => self.permission_config.fixed.dir_mode,
        };
        FileAttr::directory(inode, self.permission_config.fixed.uid, self.permission_config.fixed.gid, dir_mode)
    }

    /// Create attributes for a symlink whose target is `target_len` bytes long
    pub fn new_symlink(&self, inode: u64, target_len: u64) -> (r: FileAttr)
        ensures
            r.ino == inode,
            r.size == target_len,
            r.blocks == 0,
            r.kind == FileKind::Symlink,
            r.perm == 0o777,
            r.nlink == 1,
            r.uid == self.config().fixed.uid,
            r.gid == self.config().fixed.gid,
            r.same_times(),
    {
        FileAttr::symlink(inode, target_len, self.permission_config.fixed.uid, self.permission_config.fixed.gid)
    }
}

/// Setattr flags for partial attribute updates
#[derive(Debug, Clone, Copy)]
pub struct SetAttrFlags {
    pub mode: Option<u32>,
    pub uid: Option<u32>,
    pub gid: Option<u32>,
    pub size: Option<u64>,
    pub atime: Option<SystemTime>,
    pub mtime: Option<SystemTime>,
    pub ctime: Option<SystemTime>,
    pub fh: Option<u64>,
}

impl Default for SetAttrFlags {
    /// No attribute is set.
    fn default() -> (r: Self)
        ensures
            r.mode is None,
            r.uid is None,
            r.gid is None,
            r.size is None,
            r.atime is None,
            r.mtime is None,
            r.ctime is None,
            r.fh is None,
    {
        SetAttrFlags { mode: None, uid: None, gid: None, size: None, atime: None, mtime: None, ctime: None, fh: None }
    }
}

/// The attributes `a` with the values that `f` sets.
pub open spec fn applied(f: SetAttrFlags, a: FileAttr) -> FileAttr {
    FileAttr {
        perm: match f.mode {
            Some(m) => perm_bits(m),
            None => a.perm,
        },
        uid: match f.uid {
            Some(u) => u,
            None => a.uid,
        },
        gid: match f.gid {
            Some(g) => g,
            None => a.gid,
        },
        size: match f.size {
            Some(s) => s,
            None => a.size,
        },
        blocks: match f.size {
            Some(s) => blocks_for(s),
            None => a.blocks,
        },
        atime: match f.atime {
            Some(t) => t,
            None => a.atime,
        },
        mtime: match f.mtime {
            Some(t) => t,
            None => a.mtime,
        },
        ctime: match f.ctime {
            Some(t) => t,
            None => a.ctime,
        },
        ..a
    }
}

/// Setting attributes takes each field that the flags set from the flags,
/// whatever else they set or leave unset: the owner, the group, the size,
/// the three times, and the permission bits (the low twelve bits of the
/// mode), with the block count the least number of 512-byte blocks that
/// hold the new size. A field the flags leave unset keeps its value, and the
/// inode number, kind, link count, creation time and the rest never change.
pub proof fn lemma_set_fields_come_from_flags(f: SetAttrFlags, a: FileAttr)
    ensures
        ({
            let r = applied(f, a);
            &&& (f.uid matches Some(u) ==> r.uid == u) && (f.uid is None ==> r.uid == a.uid)
            &&& (f.gid matches Some(g) ==> r.gid == g) && (f.gid is None ==> r.gid == a.gid)
            &&& (f.size matches Some(s) ==> r.size == s) && (f.size is None ==> r.size == a.size)
            &&& (f.atime matches Some(t) ==> r.atime == t) && (f.atime is None ==> r.atime == a.atime)
            &&& (f.mtime matches Some(t) ==> r.mtime == t) && (f.mtime is None ==> r.mtime == a.mtime)
            &&& (f.ctime matches Some(t) ==> r.ctime == t) && (f.ctime is None ==> r.ctime == a.ctime)
            &&& (f.mode matches Some(m) ==> r.perm as int == m % 4096) && (f.mode is None ==> r.perm == a.perm)
            &&& (f.size matches Some(s) ==> r.blocks * 512 >= s && r.blocks * 512 < s + 512)
            &&& (f.size is None ==> r.blocks == a.blocks)
            &&& r.ino == a.ino && r.kind == a.kind && r.nlink == a.nlink && r.crtime == a.crtime
            &&& r.rdev == a.rdev && r.blksize == a.blksize && r.flags == a.flags
        }),
{
    if let Some(m) = f.mode {
        assert((m & 0o7777u32) == m % 4096 && m % 4096 < 4096) by (bit_vector);
    }
    if let Some(s) = f.size {
        let b: int = (s + 511) / 512;
        assert(b * 512 >= s && b * 512 < s + 512) by (nonlinear_arith)
            requires
                b == (s + 511) / 512,
                s >= 0,
        ;
        assert(b <= u64::MAX) by (nonlinear_arith)
            requires
                b == (s + 511) / 512,
                s <= u64::MAX,
        ;
    }
}

/// Setting the same attributes twice gives what setting them once gave.
pub proof fn lemma_set_twice_is_set_once(f: SetAttrFlags, a: FileAttr)
    ensures
        applied(f, applied(f, a)) == applied(f, a),
{
}

impl SetAttrFlags {
    /// Check if any attribute is being set (the file handle is not an
    /// attribute)
    pub fn has_any(&self) -> (r: bool)
        ensures
            r == (self.mode is Some || self.uid is Some || self.gid is Some || self.size is Some
                || self.atime is Some || self.mtime is Some || self.ctime is Some),
    {
        self.mode.is_some() || self.uid.is_some() || self.gid.is_some() || self.size.is_some()
            || self.atime.is_some() || self.mtime.is_some() || self.ctime.is_some()
    }

    /// Check if size is being changed (truncate)
    pub fn is_truncate(&self) -> (r: bool)
        ensures
            r == self.size is Some,
    {
        self.size.is_some()
    }

    /// Apply flags to existing attributes
    pub fn apply(&self, attr: &mut FileAttr)
        ensures
            *final(attr) == applied(*self, *old(attr)),
    {
        if let Some(mode) = self.mode {
            attr.perm = (mode & 0o7777) as u16;
        }
        if let Some(uid) = self.uid {
            attr.uid = uid;
        }
        if let Some(gid) = self.gid {
            attr.gid = gid;
        }
        if let Some(size) = self.size {
            attr.size = size;
            attr.blocks = block_count(size);
        }
        if let Some(atime) = self.atime {
            attr.atime = atime;
        }
        if let Some(mtime) = self.mtime {
            attr.mtime = mtime;
        }
        if let Some(ctime) = self.ctime {
            attr.ctime = ctime;
        }
    }
}

/// A path names a directory when it is empty or ends with `/`.
pub open spec fn directory_path(path: Seq<char>) -> bool {
    path.len() == 0 || path.last() == '/'
}

/// Determine file type from path
pub fn file_type_from_path(path: &str) -> (r: FileKind)
    ensures
        r == if directory_path(path@) {
            FileKind::Directory
        } else {
            FileKind::RegularFile
        },
{
    if is_directory_path(path) {
        FileKind::Directory
    } else {
        FileKind::RegularFile
    }
}

/// Check if path represents a directory
pub fn is_directory_path(path: &str) -> (r: bool)
    ensures
        r == directory_path(path@),
{
    let v = chars_of(path);
    v.len() == 0 || v[v.len() - 1] == '/'
}

} // verus!

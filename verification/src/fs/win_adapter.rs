//! Decisions of the Windows (WinFSP) adapter: how Windows paths, access
//! rights, create options and cleanup flags read, which status reports an
//! error, and what file information describes a file. The host that calls
//! them runs on Windows alone.

use vstd::prelude::*;

use crate::fs::dir::{entry_views, DirEntry, DirEntryView};
use crate::fs::fs_core::FsError;
use crate::fs::inode::FileAttr;
use crate::fs::platform::errno;
use crate::fs::platform::open_flags::{O_RDONLY, O_RDWR, O_WRONLY};
use crate::fs::platform::{
    filetime_timestamp, system_time_or_epoch, timestamp_of, FileKind, Timestamp, FILE_ATTRIBUTE_DIRECTORY, FILE_ATTRIBUTE_NORMAL,
};
use crate::utils::text::{
    after_last, before_first, before_last, chars_of, find_first, find_last, push_char, skip_leading,
    skip_leading_at, starts_with, string_of,
};

verus! {

/// File context for WinFSP handles
#[derive(Debug, Clone, Copy, PartialEq, Eq, Structural)]
pub struct WinFspFileContext {
    /// Associated inode
    pub inode: u64,
    /// File handle from core
    pub fh: u64,
    /// Whether this is a directory
    pub is_dir: bool,
}

/// The operation failed.
pub const STATUS_UNSUCCESSFUL: u32 = 0xC000_0001;

/// An invalid parameter was passed.
pub const STATUS_INVALID_PARAMETER: u32 = 0xC000_000D;

/// Access was denied.
pub const STATUS_ACCESS_DENIED: u32 = 0xC000_0022;

/// The object name was not found.
pub const STATUS_OBJECT_NAME_NOT_FOUND: u32 = 0xC000_0034;

/// The file is a directory.
pub const STATUS_FILE_IS_A_DIRECTORY: u32 = 0xC000_00BA;

/// The directory is not empty.
pub const STATUS_DIRECTORY_NOT_EMPTY: u32 = 0xC000_0101;

/// The file is not a directory.
pub const STATUS_NOT_A_DIRECTORY: u32 = 0xC000_0103;

/// Access right: read.
pub const GENERIC_READ: u32 = 0x8000_0000;

/// Access right: write.
pub const GENERIC_WRITE: u32 = 0x4000_0000;

/// Create option: the file to create is a directory.
pub const FILE_DIRECTORY_FILE: u32 = 0x0000_0001;

/// Cleanup flag: the file is to be deleted.
pub const CLEANUP_DELETE: u32 = 0x01;

/// The status that an error number is reported as.
pub open spec fn status_of(e: i32) -> u32 {
    if e == errno::ENOENT {
        STATUS_OBJECT_NAME_NOT_FOUND
    } else if e == errno::ENOTEMPTY {
        STATUS_DIRECTORY_NOT_EMPTY
    } else if e == errno::EACCES {
        STATUS_ACCESS_DENIED
    } else if e == errno::EISDIR {
        STATUS_FILE_IS_A_DIRECTORY
    } else if e == errno::ENOTDIR {
        STATUS_NOT_A_DIRECTORY
    } else if e == errno::EINVAL {
        STATUS_INVALID_PARAMETER
    } else {
        STATUS_UNSUCCESSFUL
    }
}

/// Convert FsError to WinFSP status
pub fn fs_err_to_status(err: FsError) -> (r: u32)
    ensures
        r == status_of(err.errno),
{
    let e = err.errno;
    if e == errno::ENOENT {
        STATUS_OBJECT_NAME_NOT_FOUND
    } else if e == errno::ENOTEMPTY {
        STATUS_DIRECTORY_NOT_EMPTY
    } else if e == errno::EACCES {
        STATUS_ACCESS_DENIED
    } else if e == errno::EISDIR {
        STATUS_FILE_IS_A_DIRECTORY
    } else if e == errno::ENOTDIR {
        STATUS_NOT_A_DIRECTORY
    } else if e == errno::EINVAL {
        STATUS_INVALID_PARAMETER
    } else {
        STATUS_UNSUCCESSFUL
    }
}

/// `c` with a backslash turned into a slash.
pub open spec fn slash_for_backslash(c: char) -> char {
    if c == '\\' {
        '/'
    } else {
        c
    }
}

/// A Windows path (`\dir\file`) as a path of the filesystem (`dir/file`):
/// leading backslashes dropped, the others turned into slashes.
pub open spec fn unix_path(p: Seq<char>) -> Seq<char> {
    skip_leading(p, '\\').map_values(|c: char| slash_for_backslash(c))
}

/// Normalize Windows path to Unix style
pub fn normalize_path(path: &str) -> (r: String)
    ensures
        r@ == unix_path(path@),
{
    let v = chars_of(path);
    let start = skip_leading_at(&v, 0, v.len(), '\\');
    proof {
        assert(v@.subrange(0, v@.len() as int) =~= v@);
    }
    let ghost t = v@.subrange(start as int, v@.len() as int);
    let mut r = String::new();
    let mut i = start;
    while i < v.len()
        invariant
            start <= i <= v@.len(),
            t == v@.subrange(start as int, v@.len() as int),
            r@ == t.subrange(0, i - start).map_values(|c: char| slash_for_backslash(c)),
        decreases v@.len() - i,
    {
        let c = v[i];
        if c == '\\' {
            push_char(&mut r, '/');
        } else {
            push_char(&mut r, c);
        }
        i = i + 1;
        proof {
            assert(t.subrange(0, i - start) =~= t.subrange(0, i - start - 1).push(c));
            assert(r@ =~= t.subrange(0, i - start).map_values(|c: char| slash_for_backslash(c)));
        }
    }
    proof {
        assert(t.subrange(0, i - start) =~= t);
    }
    r
}

/// Split a path at its last `/` into the parent path and the name; a path
/// without `/` has an empty parent.
pub fn split_parent(path: &str) -> (r: (String, String))
    ensures
        r.0@ == before_last(path@, '/'),
        r.1@ == after_last(path@, '/'),
{
    let v = chars_of(path);
    proof {
        assert(v@.subrange(0, v@.len() as int) =~= v@);
    }
    match find_last(&v, 0, v.len(), '/') {
        Some(k) => (string_of(&v, 0, k), string_of(&v, k + 1, v.len())),
        None => (String::new(), string_of(&v, 0, v.len())),
    }
}

/// The first component of a path, and what follows it: leading slashes are
/// dropped, and the component runs up to the next `/`.
pub open spec fn first_component(p: Seq<char>) -> (Seq<char>, Seq<char>) {
    let t = skip_leading(p, '/');
    let c = before_first(t, '/');
    (c, t.subrange(c.len() as int, t.len() as int))
}

/// Split off the first component of a path (see `first_component`); the
/// components of a path, looked up one after the other, lead to its inode.
pub fn next_component(path: &str) -> (r: (String, String))
    ensures
        (r.0@, r.1@) == first_component(path@),
{
    let v = chars_of(path);
    proof {
        assert(v@.subrange(0, v@.len() as int) =~= v@);
    }
    let start = skip_leading_at(&v, 0, v.len(), '/');
    let end = find_first(&v, start, v.len(), '/');
    proof {
        let t = v@.subrange(start as int, v@.len() as int);
        assert(t.subrange(end - start, t.len() as int) =~= v@.subrange(end as int, v@.len() as int));
    }
    (string_of(&v, start, end), string_of(&v, end, v.len()))
}

/// The open flags that Windows access rights stand for: read, else write,
/// else read and write.
pub open spec fn access_flags(granted_access: u32) -> u32 {
    if granted_access & GENERIC_READ != 0 {
        O_RDONLY
    } else if granted_access & GENERIC_WRITE != 0 {
        O_WRONLY
    } else {
        O_RDWR
    }
}

/// Convert granted_access to Unix-style flags
pub fn open_flags_for_access(granted_access: u32) -> (r: u32)
    ensures
        r == access_flags(granted_access),
{
    if granted_access & GENERIC_READ != 0 {
        O_RDONLY
    } else if granted_access & GENERIC_WRITE != 0 {
        O_WRONLY
    } else {
        O_RDWR
    }
}

/// Whether a create makes a directory: the directory attribute or the
/// directory create option is set.
pub fn creates_directory(create_options: u32, file_attributes: u32) -> (r: bool)
    ensures
        r == (file_attributes & FILE_ATTRIBUTE_DIRECTORY != 0 || create_options & FILE_DIRECTORY_FILE != 0),
{
    (file_attributes & FILE_ATTRIBUTE_DIRECTORY) != 0 || (create_options & FILE_DIRECTORY_FILE) != 0
}

/// Whether cleanup is to delete the file.
pub fn deletes_on_cleanup(flags: u32) -> (r: bool)
    ensures
        r == (flags & CLEANUP_DELETE != 0),
{
    flags & CLEANUP_DELETE != 0
}

/// Whether a listing holds an entry other than `.` and `..`, which keeps a
/// directory from being deleted.
pub fn has_real_entries(entries: &Vec<DirEntry>) -> (r: bool)
    ensures
        r == exists|i: int|
            0 <= i < entries@.len() && #[trigger] entries@[i]@.name != seq!['.'] && entries@[i]@.name != seq![
                '.',
                '.',
            ],
{
    let mut i: usize = 0;
    while i < entries.len()
        invariant
            i <= entries@.len(),
            forall|j: int|
                0 <= j < i ==> (#[trigger] entries@[j]@.name == seq!['.'] || entries@[j]@.name == seq!['.', '.']),
        decreases entries@.len() - i,
    {
        let name = chars_of(entries[i].name.as_str());
        let dot = name.len() == 1 && name[0] == '.';
        let dotdot = name.len() == 2 && name[0] == '.' && name[1] == '.';
        if !dot && !dotdot {
            proof {
                if entries@[i as int]@.name == seq!['.'] {
                    assert(name@ == seq!['.']);
                }
                if entries@[i as int]@.name == seq!['.', '.'] {
                    assert(name@ == seq!['.', '.']);
                }
            }
            return true;
        }
        proof {
            if dot {
                assert(name@ =~= seq!['.']);
            } else {
                assert(name@ =~= seq!['.', '.']);
            }
        }
        i = i + 1;
    }
    false
}

/// Position of the first entry named `m`, or the number of entries when
/// none is.
pub open spec fn first_named(s: Seq<DirEntryView>, m: Seq<char>) -> int
    decreases s.len(),
{
    if s.len() == 0 {
        0
    } else if s[0].name == m {
        0
    } else {
        1 + first_named(s.drop_first(), m)
    }
}

/// Where a listing resumes after `marker`: at the start without a marker,
/// just past the entry named by it, or at the end when no entry is.
pub open spec fn resume_at(s: Seq<DirEntryView>, marker: Option<Seq<char>>) -> int {
    match marker {
        None => 0,
        Some(m) => if first_named(s, m) < s.len() {
            first_named(s, m) + 1
        } else {
            s.len() as int
        },
    }
}

proof fn lemma_first_named(s: Seq<DirEntryView>, m: Seq<char>)
    ensures
        0 <= first_named(s, m) <= s.len(),
        first_named(s, m) < s.len() ==> s[first_named(s, m)].name == m,
        forall|j: int| 0 <= j < first_named(s, m) ==> s[j].name != m,
    decreases s.len(),
{
    if s.len() > 0 && s[0].name != m {
        lemma_first_named(s.drop_first(), m);
        assert forall|j: int| 0 <= j < first_named(s, m) implies s[j].name != m by {
            if j > 0 {
                assert(s[j] == s.drop_first()[j - 1]);
            }
        }
    }
}

proof fn lemma_first_named_found(s: Seq<DirEntryView>, m: Seq<char>, i: int)
    requires
        0 <= i < s.len(),
        s[i].name == m,
        forall|j: int| 0 <= j < i ==> s[j].name != m,
    ensures
        first_named(s, m) == i,
    decreases s.len(),
{
    if i > 0 {
        assert forall|j: int| 0 <= j < i - 1 implies s.drop_first()[j].name != m by {
            assert(s.drop_first()[j] == s[j + 1]);
        }
        lemma_first_named_found(s.drop_first(), m, i - 1);
    }
}

proof fn lemma_first_named_absent(s: Seq<DirEntryView>, m: Seq<char>)
    requires
        forall|j: int| 0 <= j < s.len() ==> s[j].name != m,
    ensures
        first_named(s, m) == s.len(),
    decreases s.len(),
{
    if s.len() > 0 {
        assert forall|j: int| 0 <= j < s.len() - 1 implies s.drop_first()[j].name != m by {
            assert(s.drop_first()[j] == s[j + 1]);
        }
        lemma_first_named_absent(s.drop_first(), m);
    }
}

/// The entries of a listing that come after `marker`, in order: all of
/// them without a marker, those after the entry named by it otherwise (none
/// when no entry is).
pub fn entries_after_marker(entries: &Vec<DirEntry>, marker: Option<&str>) -> (r: Vec<DirEntry>)
    ensures
        entry_views(r@) == entry_views(entries@).subrange(
            resume_at(
                entry_views(entries@),
                match marker {
                    Some(m) => Some(m@),
                    None => None,
                },
            ),
            entries@.len() as int,
        ),
{
    let ghost s = entry_views(entries@);
    let start: usize = match marker {
        None => 0,
        Some(m) => {
            let mv = chars_of(m);
            let mut i: usize = 0;
            let mut found = false;
            while i < entries.len() && !found
                invariant
                    i <= entries@.len(),
                    s == entry_views(entries@),
                    mv@ == m@,
                    !found ==> forall|j: int| 0 <= j < i ==> s[j].name != m@,
                    found ==> 0 < i && s[i - 1].name == m@ && forall|j: int| 0 <= j < i - 1 ==> s[j].name != m@,
                decreases entries@.len() - i,
            {
                let name = chars_of(entries[i].name.as_str());
                assert(s[i as int].name == entries@[i as int]@.name);
                if name.len() == mv.len() && starts_with(&name, &mv) {
                    assert(name@ =~= mv@);
                    found = true;
                } else {
                    proof {
                        if name@ == mv@ {
                            assert(name@.subrange(0, mv@.len() as int) =~= mv@);
                        }
                    }
                }
                i = i + 1;
            }
            proof {
                lemma_first_named(s, m@);
                if found {
                    lemma_first_named_found(s, m@, i - 1);
                } else {
                    lemma_first_named_absent(s, m@);
                }
            }
            i
        },
    };
    let mut out: Vec<DirEntry> = Vec::new();
    let mut k = start;
    while k < entries.len()
        invariant
            start <= k <= entries@.len(),
            s == entry_views(entries@),
            entry_views(out@) == s.subrange(start as int, k as int),
        decreases entries@.len() - k,
    {
        let e = entries[k].copy();
        let ghost old_out = out@;
        out.push(e);
        k = k + 1;
        proof {
            let sub = s.subrange(start as int, k as int);
            assert(s[k - 1] == entries@[k - 1]@);
            assert(entry_views(out@) =~= entry_views(old_out).push(e@));
            assert(sub =~= s.subrange(start as int, k - 1).push(s[k - 1]));
            assert(entry_views(out@) =~= sub);
        }
    }
    out
}

/// File information, as WinFSP reports it.
#[derive(Debug, Clone, Copy, PartialEq, Eq, Structural)]
pub struct WinFileInfo {
    pub file_attributes: u32,
    pub reparse_tag: u32,
    pub allocation_size: u64,
    pub file_size: u64,
    pub creation_time: u64,
    pub last_access_time: u64,
    pub last_write_time: u64,
    pub change_time: u64,
    pub index_number: u64,
    pub hard_links: u32,
    pub ea_size: u32,
}

/// The FILETIME of a timestamp, or zero when it has none.
pub open spec fn filetime_or_zero(t: Timestamp) -> u64 {
    if t.fits_filetime() {
        crate::fs::platform::filetime_of(t.sec as int, t.nsec as int) as u64
    } else {
        0
    }
}

/// The FILETIME of a timestamp; a timestamp before 1970 or too far ahead for
/// a FILETIME gives zero.
fn filetime_of_time(t: Timestamp) -> (r: u64)
    ensures
        r == filetime_or_zero(t),
{
    if t.filetime_fits() {
        t.to_filetime()
    } else {
        0
    }
}

/// Build FileInfo from our FileAttr: a directory or a normal file, the size
/// and its 512-byte blocks, the four times as FILETIMEs, and the inode as
/// index number.
pub fn build_file_info(attr: &FileAttr) -> (r: WinFileInfo)
    requires
        attr.blocks * 512 <= u64::MAX,
    ensures
        r.file_attributes == if attr.kind == FileKind::Directory {
            FILE_ATTRIBUTE_DIRECTORY
        } else {
            FILE_ATTRIBUTE_NORMAL
        },
        r.reparse_tag == 0,
        r.allocation_size == attr.blocks * 512,
        r.file_size == attr.size,
        r.index_number == attr.ino,
        r.hard_links == 0,
        r.ea_size == 0,
        r.creation_time == filetime_or_zero(timestamp_of(attr.crtime)),
        r.last_access_time == filetime_or_zero(timestamp_of(attr.atime)),
        r.last_write_time == filetime_or_zero(timestamp_of(attr.mtime)),
        r.change_time == filetime_or_zero(timestamp_of(attr.ctime)),
{
    let file_attributes = match attr.kind {
        FileKind::Directory => FILE_ATTRIBUTE_DIRECTORY,
        _ => FILE_ATTRIBUTE_NORMAL,
    };
    WinFileInfo {
        file_attributes,
        reparse_tag: 0,
        allocation_size: attr.blocks * 512,
        file_size: attr.size,
        creation_time: filetime_of_time(Timestamp::from_system_time(attr.crtime)),
        last_access_time: filetime_of_time(Timestamp::from_system_time(attr.atime)),
        last_write_time: filetime_of_time(Timestamp::from_system_time(attr.mtime)),
        change_time: filetime_of_time(Timestamp::from_system_time(attr.ctime)),
        index_number: attr.ino,
        hard_links: 0,
        ea_size: 0,
    }
}

/// The attributes `a` and `b` agree on everything but their four times.
pub open spec fn same_but_times(a: FileAttr, b: FileAttr) -> bool {
    &&& a.ino == b.ino
    &&& a.size == b.size
    &&& a.blocks == b.blocks
    &&& a.kind == b.kind
    &&& a.perm == b.perm
    &&& a.nlink == b.nlink
    &&& a.uid == b.uid
    &&& a.gid == b.gid
    &&& a.rdev == b.rdev
    &&& a.blksize == b.blksize
    &&& a.flags == b.flags
}

/// The attributes after a change of basic information: each time given as a
/// nonzero FILETIME replaces the one held (as the system time of that
/// FILETIME, or the epoch where the clock cannot hold it), and a zero leaves
/// it as it is.
pub fn apply_basic_info(
    attr: FileAttr,
    creation_time: u64,
    last_access_time: u64,
    last_write_time: u64,
    change_time: u64,
) -> (r: FileAttr)
    ensures
        same_but_times(r, attr),
        creation_time == 0 ==> r.crtime == attr.crtime,
        last_access_time == 0 ==> r.atime == attr.atime,
        last_write_time == 0 ==> r.mtime == attr.mtime,
        change_time == 0 ==> r.ctime == attr.ctime,
        creation_time != 0 ==> r.crtime == system_time_or_epoch(filetime_timestamp(creation_time)),
        last_access_time != 0 ==> r.atime == system_time_or_epoch(filetime_timestamp(last_access_time)),
        last_write_time != 0 ==> r.mtime == system_time_or_epoch(filetime_timestamp(last_write_time)),
        change_time != 0 ==> r.ctime == system_time_or_epoch(filetime_timestamp(change_time)),
{
    let mut r = attr;
    if creation_time != 0 {
        r.crtime = Timestamp::from_filetime(creation_time).to_system_time();
    }
    if last_access_time != 0 {
        r.atime = Timestamp::from_filetime(last_access_time).to_system_time();
    }
    if last_write_time != 0 {
        r.mtime = Timestamp::from_filetime(last_write_time).to_system_time();
    }
    if change_time != 0 {
        r.ctime = Timestamp::from_filetime(change_time).to_system_time();
    }
    r
}

} // verus!

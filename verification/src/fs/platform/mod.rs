//! Platform-independent file types, open flags, timestamps and path forms.

pub mod errno;
pub mod open_flags;

use std::time::{Duration, SystemTime};
use vstd::prelude::*;

use crate::utils::clock::{
    duration_as_nanos, duration_nanos, duration_new, epoch_checked_add, epoch_offset, epoch_plus, since_epoch,
    unix_epoch,
};
use crate::utils::text::{chars_of, lemma_leading_gone, lemma_trailing_is_prefix, skip_leading, skip_leading_at, skip_trailing, skip_trailing_at, string_of, trim_both};

verus! {

/// File type.
#[derive(Debug, Clone, Copy, PartialEq, Eq, Structural)]
pub enum FileKind {
    /// Regular file
    RegularFile,
    /// Directory
    Directory,
    /// Symbolic link
    Symlink,
    /// Block device
    BlockDevice,
    /// Character device
    CharDevice,
    /// Named pipe (FIFO)
    NamedPipe,
    /// Unix domain socket
    Socket,
}

impl Default for FileKind {
    fn default() -> (r: Self)
        ensures
            r == FileKind::RegularFile,
    {
        FileKind::RegularFile
    }
}

/// Win32 file attribute: the file is a directory.
pub const FILE_ATTRIBUTE_DIRECTORY: u32 = 0x10;

/// Win32 file attribute: a file with no other attribute set.
pub const FILE_ATTRIBUTE_NORMAL: u32 = 0x80;

/// Win32 file attribute: the file is a reparse point (a link).
pub const FILE_ATTRIBUTE_REPARSE_POINT: u32 = 0x400;

/// The Windows attributes of a file of kind `k`.
pub open spec fn win_attrs(k: FileKind) -> u32 {
    match k {
        FileKind::Directory => FILE_ATTRIBUTE_DIRECTORY,
        FileKind::Symlink => FILE_ATTRIBUTE_REPARSE_POINT,
        _ => FILE_ATTRIBUTE_NORMAL,
    }
}

/// The kind of a file with Windows attributes `attrs`: the directory flag
/// wins over the reparse-point flag; anything else is a regular file.
pub open spec fn kind_of_win_attrs(attrs: u32) -> FileKind {
    if attrs & FILE_ATTRIBUTE_DIRECTORY != 0 {
        FileKind::Directory
    } else if attrs & FILE_ATTRIBUTE_REPARSE_POINT != 0 {
        FileKind::Symlink
    } else {
        FileKind::RegularFile
    }
}

impl FileKind {
    /// Convert to Windows file attributes
    pub fn to_win_attrs(&self) -> (r: u32)
        ensures
            r == win_attrs(*self),
    {
        match self {
            FileKind::Directory => FILE_ATTRIBUTE_DIRECTORY,
            FileKind::Symlink => FILE_ATTRIBUTE_REPARSE_POINT,
            _ => FILE_ATTRIBUTE_NORMAL,
        }
    }

    /// Create from Windows file attributes
    pub fn from_win_attrs(attrs: u32) -> (r: Self)
        ensures
            r == kind_of_win_attrs(attrs),
    {
        if attrs & FILE_ATTRIBUTE_DIRECTORY != 0 {
            FileKind::Directory
        } else if attrs & FILE_ATTRIBUTE_REPARSE_POINT != 0 {
            FileKind::Symlink
        } else {
            FileKind::RegularFile
        }
    }
}

/// Converting a kind to Windows attributes and back gives the same kind for
/// regular files, directories and links.
pub proof fn lemma_win_attrs_round_trip(k: FileKind)
    requires
        k == FileKind::RegularFile || k == FileKind::Directory || k == FileKind::Symlink,
    ensures
        kind_of_win_attrs(win_attrs(k)) == k,
{
    assert(0x10u32 & 0x10u32 != 0) by (bit_vector);
    assert(0x400u32 & 0x10u32 == 0) by (bit_vector);
    assert(0x400u32 & 0x400u32 != 0) by (bit_vector);
    assert(0x80u32 & 0x10u32 == 0) by (bit_vector);
    assert(0x80u32 & 0x400u32 == 0) by (bit_vector);
}

/// Whether the error number with which listing a mount point failed shows
/// a stale mount left by a filesystem that is gone: no such device, an I/O
/// error, or a connection that is not there.
pub fn is_stale_mount_error(raw: Option<i32>) -> (r: bool)
    ensures
        r == (raw == Some(errno::ENXIO) || raw == Some(errno::EIO) || raw == Some(errno::ENOTCONN)),
{
    match raw {
        Some(n) => n == errno::ENXIO || n == errno::EIO || n == errno::ENOTCONN,
        None => false,
    }
}

/// The real user ID of the calling process (`nix::unistd::getuid`).
#[verifier::external_body]
pub fn current_uid() -> u32 {
    nix::unistd::getuid().as_raw()
}

/// The real group ID of the calling process (`nix::unistd::getgid`).
#[verifier::external_body]
pub fn current_gid() -> u32 {
    nix::unistd::getgid().as_raw()
}

/// The access mode bits of `flags`.
pub open spec fn access_mode(flags: u32) -> u32 {
    flags & open_flags::O_ACCMODE
}

/// Whether `flags` open for writing (write-only or read-write).
pub fn is_writable(flags: u32) -> (r: bool)
    ensures
        r == (access_mode(flags) == open_flags::O_WRONLY || access_mode(flags) == open_flags::O_RDWR),
{
    let access_mode = flags & open_flags::O_ACCMODE;
    access_mode == open_flags::O_WRONLY || access_mode == open_flags::O_RDWR
}

/// Whether `flags` open for reading (read-only or read-write).
pub fn is_readable(flags: u32) -> (r: bool)
    ensures
        r == (access_mode(flags) == open_flags::O_RDONLY || access_mode(flags) == open_flags::O_RDWR),
{
    let access_mode = flags & open_flags::O_ACCMODE;
    access_mode == open_flags::O_RDONLY || access_mode == open_flags::O_RDWR
}

/// Whether the append bit is set.
pub fn is_append(flags: u32) -> (r: bool)
    ensures
        r == (flags & open_flags::O_APPEND != 0),
{
    flags & open_flags::O_APPEND != 0
}

/// Whether the truncate bit is set.
pub fn is_truncate(flags: u32) -> (r: bool)
    ensures
        r == (flags & open_flags::O_TRUNC != 0),
{
    flags & open_flags::O_TRUNC != 0
}

/// Offset between the Unix epoch (1970) and the Windows epoch (1601), in 100 ns units.
pub const FILETIME_EPOCH_DIFF: u64 = 116444736000000000;

/// Seconds and nanoseconds since the Unix epoch.
#[derive(Debug, Clone, Copy, PartialEq, Eq, Structural)]
pub struct Timestamp {
    pub sec: i64,
    pub nsec: u32,
}

/// The FILETIME (100 ns units since 1601) of `sec` seconds and `nsec` nanoseconds since 1970.
pub open spec fn filetime_of(sec: int, nsec: int) -> int {
    sec * 10_000_000 + nsec / 100 + FILETIME_EPOCH_DIFF
}

/// The timestamp of a system time: the whole seconds and the nanoseconds
/// past them since the Unix epoch, or zero for a time before it.
pub open spec fn timestamp_of(st: SystemTime) -> Timestamp {
    match epoch_offset(st) {
        Some(n) => Timestamp { sec: ((n / 1_000_000_000) as u64) as i64, nsec: (n % 1_000_000_000) as u32 },
        None => Timestamp { sec: 0, nsec: 0 },
    }
}

/// The system time `ts` stands for: the epoch moved forward by it, when its
/// seconds are not negative and the clock can represent it.
pub open spec fn system_time_of(ts: Timestamp) -> Option<SystemTime> {
    if ts.sec >= 0 && ts.nsec / 1_000_000_000 <= u64::MAX - ts.sec {
        epoch_plus((ts.sec * 1_000_000_000 + ts.nsec) as u128)
    } else {
        None
    }
}

/// The system time of a timestamp as `to_system_time` gives it: the epoch
/// moved forward by it, or the epoch itself where that is not representable.
pub open spec fn system_time_or_epoch(ts: Timestamp) -> SystemTime {
    match system_time_of(ts) {
        Some(t) => t,
        None => epoch_plus(0)->0,
    }
}

/// The timestamp of a Windows FILETIME: the seconds and nanoseconds after
/// 1970 that it counts in 100 ns units from 1601, or zero for a time before
/// 1970.
pub open spec fn filetime_timestamp(ft: u64) -> Timestamp {
    if ft < FILETIME_EPOCH_DIFF {
        Timestamp { sec: 0, nsec: 0 }
    } else {
        Timestamp {
            sec: ((ft - FILETIME_EPOCH_DIFF) / 10_000_000) as i64,
            nsec: (((ft - FILETIME_EPOCH_DIFF) % 10_000_000) * 100) as u32,
        }
    }
}

impl Timestamp {
    /// Whether `to_filetime` is defined on this timestamp: the seconds are not
    /// negative and the result fits in a `u64`.
    pub open spec fn fits_filetime(self) -> bool {
        self.sec >= 0 && filetime_of(self.sec as int, self.nsec as int) <= u64::MAX
    }

    /// Converts to a Windows FILETIME (100-nanosecond intervals since Jan 1, 1601).
    pub fn to_filetime(&self) -> (r: u64)
        requires
            self.fits_filetime(),
        ensures
            r == filetime_of(self.sec as int, self.nsec as int),
    {
        let unix_100ns = (self.sec as u64) * 10_000_000 + (self.nsec as u64) / 100;
        unix_100ns + FILETIME_EPOCH_DIFF
    }

    /// Whether the timestamp has a FILETIME: it is not before 1970 and the
    /// FILETIME fits in 64 bits.
    pub fn filetime_fits(&self) -> (r: bool)
        ensures
            r == self.fits_filetime(),
    {
        if self.sec < 0 {
            return false;
        }
        let total: u128 = (self.sec as u128) * 10_000_000 + (self.nsec as u128) / 100
            + (FILETIME_EPOCH_DIFF as u128);
        total <= (u64::MAX as u128)
    }

    /// The timestamp of a time `offset` after the Unix epoch, or zero for a
    /// time before it (`None`).
    pub fn from_offset(offset: Option<Duration>) -> (r: Self)
        ensures
            match offset {
                Some(d) => {
                    &&& r.sec == ((duration_nanos(d) / 1_000_000_000) as u64) as i64
                    &&& r.nsec == duration_nanos(d) % 1_000_000_000
                },
                None => r == (Timestamp { sec: 0, nsec: 0 }),
            },
    {
        match offset {
            Some(d) => {
                let nanos = duration_as_nanos(d);
                let secs = (nanos / 1_000_000_000) as u64;
                Timestamp { sec: secs as i64, nsec: (nanos % 1_000_000_000) as u32 }
            },
            None => Timestamp { sec: 0, nsec: 0 },
        }
    }

    /// The timestamp of a system time: seconds and nanoseconds since the
    /// Unix epoch, or zero for a time before it.
    pub fn from_system_time(st: SystemTime) -> (r: Self)
        ensures
            r == timestamp_of(st),
            r.nsec < 1_000_000_000,
    {
        Self::from_offset(since_epoch(st))
    }

    /// The system time of the timestamp: the epoch moved forward by it, or
    /// the epoch itself for negative seconds or a time the clock cannot
    /// represent.
    pub fn to_system_time(&self) -> (r: SystemTime)
        ensures
            r == system_time_or_epoch(*self),
            system_time_of(*self) matches Some(t) ==> r == t,
    {
        if self.sec >= 0 && (self.nsec / 1_000_000_000) as u64 <= u64::MAX - self.sec as u64 {
            let d = duration_new(self.sec as u64, self.nsec);
            match epoch_checked_add(d) {
                Some(t) => t,
                None => unix_epoch(),
            }
        } else {
            unix_epoch()
        }
    }

    /// Creates a timestamp from a Windows FILETIME; times before 1970 give zero.
    pub fn from_filetime(ft: u64) -> (r: Self)
        ensures
            r == filetime_timestamp(ft),
            ft < FILETIME_EPOCH_DIFF ==> r == (Timestamp { sec: 0, nsec: 0 }),
            ft >= FILETIME_EPOCH_DIFF ==> {
                &&& r.sec == (ft - FILETIME_EPOCH_DIFF) / 10_000_000
                &&& r.nsec == ((ft - FILETIME_EPOCH_DIFF) % 10_000_000) * 100
            },
    {
        if ft < FILETIME_EPOCH_DIFF {
            return Timestamp { sec: 0, nsec: 0 };
        }
        let unix_100ns = ft - FILETIME_EPOCH_DIFF;
        assert(unix_100ns / 10_000_000 <= i64::MAX);
        assert((unix_100ns % 10_000_000) * 100 < 1_000_000_000);
        Timestamp { sec: (unix_100ns / 10_000_000) as i64, nsec: ((unix_100ns % 10_000_000) * 100) as u32 }
    }
}

/// A FILETIME round trip gives back the timestamp, for timestamps at or after
/// 1970 whose nanoseconds are a whole number of 100 ns below one second.
pub proof fn lemma_filetime_round_trip(ts: Timestamp)
    requires
        ts.fits_filetime(),
        ts.nsec < 1_000_000_000,
        ts.nsec % 100 == 0,
    ensures
        ({
            let ft = filetime_of(ts.sec as int, ts.nsec as int);
            &&& ft >= FILETIME_EPOCH_DIFF
            &&& (ft - FILETIME_EPOCH_DIFF) / 10_000_000 == ts.sec
            &&& ((ft - FILETIME_EPOCH_DIFF) % 10_000_000) * 100 == ts.nsec
        }),
{
    let s = ts.sec as int;
    let n = ts.nsec as int;
    let q = n / 100;
    assert(n == q * 100);
    assert(0 <= q < 10_000_000);
    let x = s * 10_000_000 + q;
    assert(x / 10_000_000 == s && x % 10_000_000 == q) by (nonlinear_arith)
        requires x == s * 10_000_000 + q, 0 <= q < 10_000_000, s >= 0;
}

/// Path with leading and trailing `/` removed.
pub open spec fn normalized(path: Seq<char>) -> Seq<char> {
    trim_both(path, '/')
}

proof fn lemma_skip_leading_push(s: Seq<char>, c: char)
    ensures
        skip_leading(s.push(c), c) == if skip_leading(s, c).len() == 0 {
            Seq::<char>::empty()
        } else {
            skip_leading(s, c).push(c)
        },
    decreases s.len(),
{
    if s.len() == 0 {
        assert(s.push(c).drop_first() =~= Seq::<char>::empty());
        assert(skip_leading(Seq::<char>::empty(), c) == Seq::<char>::empty());
        assert(skip_leading(s.push(c), c) == skip_leading(s.push(c).drop_first(), c));
    } else if s[0] == c {
        assert(s.push(c).drop_first() =~= s.drop_first().push(c));
        lemma_skip_leading_push(s.drop_first(), c);
    } else {
        assert(s.push(c)[0] == s[0]);
        assert(skip_leading(s.push(c), c) == s.push(c));
        assert(skip_leading(s, c) == s);
    }
}

/// Extra slashes before and after a path do not change its normalized form.
pub proof fn lemma_normalized_ignores_outer_slashes(path: Seq<char>)
    ensures
        normalized(seq!['/'] + path + seq!['/']) == normalized(path),
{
    let s = seq!['/'] + path + seq!['/'];
    assert(s.drop_first() =~= path.push('/'));
    assert(s[0] == '/');
    lemma_skip_leading_push(path, '/');
    let t = skip_leading(path, '/');
    if t.len() > 0 {
        assert(t.push('/').drop_last() =~= t);
    }
}

/// Normalizing a normalized path changes nothing.
pub proof fn lemma_normalize_is_idempotent(path: Seq<char>)
    ensures
        normalized(normalized(path)) == normalized(path),
{
    let t = skip_leading(path, '/');
    let u = skip_trailing(t, '/');
    lemma_leading_gone(path, '/');
    lemma_trailing_is_prefix(t, '/');
    if u.len() > 0 {
        assert(u[0] == t[0]);
    }
    assert(skip_leading(u, '/') == u);
    assert(skip_trailing(u, '/') == u);
}

/// Normalizes path separators: drops leading and trailing `/`.
pub fn normalize_path(path: &str) -> (r: String)
    ensures
        r@ == normalized(path@),
{
    let v = chars_of(path);
    let lo = skip_leading_at(&v, 0, v.len(), '/');
    let hi = skip_trailing_at(&v, lo, v.len(), '/');
    assert(v@.subrange(0, v@.len() as int) =~= v@);
    string_of(&v, lo, hi)
}

/// The platform-native form of a path (the same string on Unix).
pub fn to_native_path(path: &str) -> (r: String)
    ensures
        r@ == path@,
{
    path.to_owned()
}

} // verus!

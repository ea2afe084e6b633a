//! Error numbers reported to the kernel (Linux numbering).

use vstd::prelude::*;

verus! {

/// No such file or directory.
pub const ENOENT: i32 = 2;

/// I/O error.
pub const EIO: i32 = 5;

/// No such device or address.
pub const ENXIO: i32 = 6;

/// Bad file descriptor.
pub const EBADF: i32 = 9;

/// Resource temporarily unavailable.
pub const EAGAIN: i32 = 11;

/// Permission denied.
pub const EACCES: i32 = 13;

/// File exists.
pub const EEXIST: i32 = 17;

/// Not a directory.
pub const ENOTDIR: i32 = 20;

/// Is a directory.
pub const EISDIR: i32 = 21;

/// Invalid argument.
pub const EINVAL: i32 = 22;

/// No space left on device.
pub const ENOSPC: i32 = 28;

/// Read-only file system.
pub const EROFS: i32 = 30;

/// Function not implemented.
pub const ENOSYS: i32 = 38;

/// Directory not empty.
pub const ENOTEMPTY: i32 = 39;

/// Transport endpoint is not connected.
pub const ENOTCONN: i32 = 107;

} // verus!

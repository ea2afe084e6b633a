//! Open flag values (Linux numbering).

use vstd::prelude::*;

verus! {

/// Read-only access.
pub const O_RDONLY: u32 = 0;

/// Write-only access.
pub const O_WRONLY: u32 = 1;

/// Read-write access.
pub const O_RDWR: u32 = 2;

/// Access mode mask.
pub const O_ACCMODE: u32 = 3;

/// Append mode.
pub const O_APPEND: u32 = 0o2000;

/// Truncate on open.
pub const O_TRUNC: u32 = 0o1000;

/// Create if it does not exist.
pub const O_CREAT: u32 = 0o100;

/// Exclusive create.
pub const O_EXCL: u32 = 0o200;

} // verus!

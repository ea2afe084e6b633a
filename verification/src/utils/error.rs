//! Error type of the filesystem and its mapping to error numbers.

use std::io;
use vstd::prelude::*;

use crate::fs::platform::errno;
use crate::utils::text::{decimal, u64_to_decimal};

verus! {

/// Kind of an I/O failure, as far as the filesystem tells them apart.
#[derive(Debug, Clone, Copy, PartialEq, Eq, Structural)]
pub enum IoFailureKind {
    ConnectionReset,
    ConnectionAborted,
    TimedOut,
    Interrupted,
    NotFound,
    PermissionDenied,
    AlreadyExists,
    Other,
}

/// An I/O failure: its kind, the operating system's error number if it
/// carried one, and its message.
#[derive(Debug, Clone)]
pub struct IoFailure {
    pub kind: IoFailureKind,
    pub raw_os_error: Option<i32>,
    pub message: String,
}

/// Kind of a storage-service failure.
#[derive(Debug, Clone, Copy, PartialEq, Eq, Structural)]
pub enum StorageErrorKind {
    Unexpected,
    Unsupported,
    ConfigInvalid,
    NotFound,
    PermissionDenied,
    IsADirectory,
    NotADirectory,
    AlreadyExists,
    RateLimited,
    IsSameFile,
    ConditionNotMatch,
    RangeNotSatisfied,
}

/// A storage-service failure: its kind and its message.
#[derive(Debug, Clone)]
pub struct StorageFailure {
    pub kind: StorageErrorKind,
    pub message: String,
}

/// Main error type for filesystem operations.
#[derive(Debug)]
pub enum ObsFuseError {
    /// I/O error from underlying operations
    Io(IoFailure),
    /// Storage service errors
    Storage(StorageFailure),
    /// Configuration errors
    Config(String),
    /// Inode not found
    InodeNotFound(u64),
    /// Path not found
    PathNotFound(String),
    /// File handle not found
    HandleNotFound(u64),
    /// Permission denied
    PermissionDenied(String),
    /// File exists
    FileExists(String),
    /// Not a directory
    NotADirectory(String),
    /// Is a directory
    IsADirectory(String),
    /// Directory not empty
    DirectoryNotEmpty(String),
    /// Invalid argument
    InvalidArgument(String),
    /// Operation not supported
    NotSupported(String),
    /// Cache error
    Cache(String),
    /// Multipart upload error
    MultipartUpload(String),
    /// Internal error
    Internal(String),
}

/// Result type of filesystem operations.
pub type Result<T> = core::result::Result<T, ObsFuseError>;

/// The error number that a storage failure of kind `k` is reported as.
pub open spec fn storage_errno(k: StorageErrorKind) -> i32 {
    match k {
        StorageErrorKind::NotFound => errno::ENOENT,
        StorageErrorKind::PermissionDenied => errno::EACCES,
        StorageErrorKind::AlreadyExists => errno::EEXIST,
        StorageErrorKind::NotADirectory => errno::ENOTDIR,
        StorageErrorKind::IsADirectory => errno::EISDIR,
        StorageErrorKind::RateLimited => errno::EAGAIN,
        StorageErrorKind::Unsupported => errno::ENOSYS,
        _ => errno::EIO,
    }
}

/// Converts a storage failure kind to its error number.
pub fn storage_error_to_errno(k: StorageErrorKind) -> (r: i32)
    ensures
        r == storage_errno(k),
{
    match k {
        StorageErrorKind::NotFound => errno::ENOENT,
        StorageErrorKind::PermissionDenied => errno::EACCES,
        StorageErrorKind::AlreadyExists => errno::EEXIST,
        StorageErrorKind::NotADirectory => errno::ENOTDIR,
        StorageErrorKind::IsADirectory => errno::EISDIR,
        StorageErrorKind::RateLimited => errno::EAGAIN,
        StorageErrorKind::Unsupported => errno::ENOSYS,
        _ => errno::EIO,
    }
}

impl ObsFuseError {
    /// The error number that this error is reported as.
    pub open spec fn errno_spec(&self) -> i32 {
        match self {
            ObsFuseError::Io(e) => match e.raw_os_error {
                Some(n) => n,
                None => errno::EIO,
            },
            ObsFuseError::Storage(e) => storage_errno(e.kind),
            ObsFuseError::Config(_) => errno::EINVAL,
            ObsFuseError::InodeNotFound(_) => errno::ENOENT,
            ObsFuseError::PathNotFound(_) => errno::ENOENT,
            ObsFuseError::HandleNotFound(_) => errno::EBADF,
            ObsFuseError::PermissionDenied(_) => errno::EACCES,
            ObsFuseError::FileExists(_) => errno::EEXIST,
            ObsFuseError::NotADirectory(_) => errno::ENOTDIR,
            ObsFuseError::IsADirectory(_) => errno::EISDIR,
            ObsFuseError::DirectoryNotEmpty(_) => errno::ENOTEMPTY,
            ObsFuseError::InvalidArgument(_) => errno::EINVAL,
            ObsFuseError::NotSupported(_) => errno::ENOSYS,
            ObsFuseError::Cache(_) => errno::EIO,
            ObsFuseError::MultipartUpload(_) => errno::EIO,
            ObsFuseError::Internal(_) => errno::EIO,
        }
    }

    /// Converts the error to its error number.
    pub fn to_errno(&self) -> (r: i32)
        ensures
            r == self.errno_spec(),
    {
        match self {
            ObsFuseError::Io(e) => match e.raw_os_error {
                Some(n) => n,
                None => errno::EIO,
            },
            ObsFuseError::Storage(e) => storage_error_to_errno(e.kind),
            ObsFuseError::Config(_) => errno::EINVAL,
            ObsFuseError::InodeNotFound(_) => errno::ENOENT,
            ObsFuseError::PathNotFound(_) => errno::ENOENT,
            ObsFuseError::HandleNotFound(_) => errno::EBADF,
            ObsFuseError::PermissionDenied(_) => errno::EACCES,
            ObsFuseError::FileExists(_) => errno::EEXIST,
            ObsFuseError::NotADirectory(_) => errno::ENOTDIR,
            ObsFuseError::IsADirectory(_) => errno::EISDIR,
            ObsFuseError::DirectoryNotEmpty(_) => errno::ENOTEMPTY,
            ObsFuseError::InvalidArgument(_) => errno::EINVAL,
            ObsFuseError::NotSupported(_) => errno::ENOSYS,
            ObsFuseError::Cache(_) => errno::EIO,
            ObsFuseError::MultipartUpload(_) => errno::EIO,
            ObsFuseError::Internal(_) => errno::EIO,
        }
    }

    /// The human-readable message of the error.
    pub open spec fn message_spec(&self) -> Seq<char> {
        match self {
            ObsFuseError::Io(e) => "I/O error: "@ + e.message@,
            ObsFuseError::Storage(e) => "Storage error: "@ + e.message@,
            ObsFuseError::Config(s) => "Configuration error: "@ + s@,
            ObsFuseError::InodeNotFound(n) => "Inode not found: "@ + decimal(*n as nat),
            ObsFuseError::PathNotFound(s) => "Path not found: "@ + s@,
            ObsFuseError::HandleNotFound(n) => "File handle not found: "@ + decimal(*n as nat),
            ObsFuseError::PermissionDenied(s) => "Permission denied: "@ + s@,
            ObsFuseError::FileExists(s) => "File exists: "@ + s@,
            ObsFuseError::NotADirectory(s) => "Not a directory: "@ + s@,
            ObsFuseError::IsADirectory(s) => "Is a directory: "@ + s@,
            ObsFuseError::DirectoryNotEmpty(s) => "Directory not empty: "@ + s@,
            ObsFuseError::InvalidArgument(s) => "Invalid argument: "@ + s@,
            ObsFuseError::NotSupported(s) => "Operation not supported: "@ + s@,
            ObsFuseError::Cache(s) => "Cache error: "@ + s@,
            ObsFuseError::MultipartUpload(s) => "Multipart upload error: "@ + s@,
            ObsFuseError::Internal(s) => "Internal error: "@ + s@,
        }
    }

    /// The human-readable message of the error.
    pub fn to_string(&self) -> (r: String)
        ensures
            r@ == self.message_spec(),
    {
        let (head, tail): (&str, String) = match self {
            ObsFuseError::Io(e) => ("I/O error: ", e.message.clone()),
            ObsFuseError::Storage(e) => ("Storage error: ", e.message.clone()),
            ObsFuseError::Config(s) => ("Configuration error: ", s.clone()),
            ObsFuseError::InodeNotFound(n) => ("Inode not found: ", u64_to_decimal(*n)),
            ObsFuseError::PathNotFound(s) => ("Path not found: ", s.clone()),
            ObsFuseError::HandleNotFound(n) => ("File handle not found: ", u64_to_decimal(*n)),
            ObsFuseError::PermissionDenied(s) => ("Permission denied: ", s.clone()),
            ObsFuseError::FileExists(s) => ("File exists: ", s.clone()),
            ObsFuseError::NotADirectory(s) => ("Not a directory: ", s.clone()),
            ObsFuseError::IsADirectory(s) => ("Is a directory: ", s.clone()),
            ObsFuseError::DirectoryNotEmpty(s) => ("Directory not empty: ", s.clone()),
            ObsFuseError::InvalidArgument(s) => ("Invalid argument: ", s.clone()),
            ObsFuseError::NotSupported(s) => ("Operation not supported: ", s.clone()),
            ObsFuseError::Cache(s) => ("Cache error: ", s.clone()),
            ObsFuseError::MultipartUpload(s) => ("Multipart upload error: ", s.clone()),
            ObsFuseError::Internal(s) => ("Internal error: ", s.clone()),
        };
        let mut r = head.to_owned();
        r.append(tail.as_str());
        r
    }

    /// Whether the operation that failed with this error may succeed when retried:
    /// rate limiting and unexpected storage failures, and interrupted or reset
    /// connections.
    pub fn is_retryable(&self) -> (r: bool)
        ensures
            r == Self::retryable(*self),
    {
        match self {
            ObsFuseError::Storage(e) => match e.kind {
                StorageErrorKind::RateLimited | StorageErrorKind::Unexpected => true,
                _ => false,
            },
            ObsFuseError::Io(e) => match e.kind {
                IoFailureKind::ConnectionReset | IoFailureKind::ConnectionAborted
                | IoFailureKind::TimedOut | IoFailureKind::Interrupted => true,
                _ => false,
            },
            _ => false,
        }
    }

    /// Whether an operation that failed with `e` may succeed when retried.
    pub open spec fn retryable(e: ObsFuseError) -> bool {
        match e {
            ObsFuseError::Storage(s) => s.kind == StorageErrorKind::RateLimited || s.kind
                == StorageErrorKind::Unexpected,
            ObsFuseError::Io(io) => io.kind == IoFailureKind::ConnectionReset || io.kind
                == IoFailureKind::ConnectionAborted || io.kind == IoFailureKind::TimedOut
                || io.kind == IoFailureKind::Interrupted,
            _ => false,
        }
    }
}

/// An I/O error of the standard library, carried through unread.
#[verifier::external_type_specification]
#[verifier::external_body]
pub struct ExIoError(io::Error);

/// `io::Error::from_raw_os_error`: an I/O error carrying the operating
/// system's error number `code`. Nothing is stated of the value, which the
/// library does not look into.
#[verifier::external_body]
fn io_error_from_raw(code: i32) -> io::Error {
    io::Error::from_raw_os_error(code)
}

/// Extension trait for converting errors to io::Error
pub trait ToIoError {
    fn to_io_error(&self) -> io::Error;
}

impl ToIoError for ObsFuseError {
    /// An I/O error carrying this error's number (see `to_errno`).
    fn to_io_error(&self) -> io::Error {
        io_error_from_raw(self.to_errno())
    }
}

} // verus!

//! Error messages and error numbers, and the activity counters.

use obsfuse::utils::error::{IoFailure, IoFailureKind, StorageErrorKind, StorageFailure};
use obsfuse::utils::metrics::wrap_add;
use obsfuse::utils::{Metrics, ObsFuseError, ToIoError};

// ==================== Error Creation ====================

#[test]
fn test_error_inode_not_found() {
    let err = ObsFuseError::InodeNotFound(42);
    assert!(err.to_string().contains("42"));
}

#[test]
fn test_error_path_not_found() {
    let err = ObsFuseError::PathNotFound("/test/path".to_string());
    assert!(err.to_string().contains("/test/path"));
}

#[test]
fn test_error_handle_not_found() {
    let err = ObsFuseError::HandleNotFound(123);
    assert!(err.to_string().contains("123"));
}

#[test]
fn test_error_permission_denied() {
    let err = ObsFuseError::PermissionDenied("test operation".to_string());
    assert!(err.to_string().contains("test operation"));
}

#[test]
fn test_error_file_exists() {
    let err = ObsFuseError::FileExists("/existing/file".to_string());
    assert!(err.to_string().contains("/existing/file"));
}

#[test]
fn test_error_not_a_directory() {
    let err = ObsFuseError::NotADirectory("/not/a/dir".to_string());
    assert!(err.to_string().contains("/not/a/dir"));
}

#[test]
fn test_error_is_a_directory() {
    let err = ObsFuseError::IsADirectory("/is/a/dir".to_string());
    assert!(err.to_string().contains("/is/a/dir"));
}

#[test]
fn test_error_directory_not_empty() {
    let err = ObsFuseError::DirectoryNotEmpty("/non/empty/dir".to_string());
    assert!(err.to_string().contains("/non/empty/dir"));
}

#[test]
fn test_error_invalid_argument() {
    let err = ObsFuseError::InvalidArgument("bad arg".to_string());
    assert!(err.to_string().contains("bad arg"));
}

#[test]
fn test_error_not_supported() {
    let err = ObsFuseError::NotSupported("xattr".to_string());
    assert!(err.to_string().contains("xattr"));
}

#[test]
fn test_error_config() {
    let err = ObsFuseError::Config("invalid config".to_string());
    assert!(err.to_string().contains("invalid config"));
}

#[test]
fn test_error_cache() {
    let err = ObsFuseError::Cache("cache error".to_string());
    assert!(err.to_string().contains("cache error"));
}

#[test]
fn test_error_multipart_upload() {
    let err = ObsFuseError::MultipartUpload("upload failed".to_string());
    assert!(err.to_string().contains("upload failed"));
}

#[test]
fn test_error_internal() {
    let err = ObsFuseError::Internal("internal error".to_string());
    assert!(err.to_string().contains("internal error"));
}

#[test]
fn test_error_messages_exact() {
    assert_eq!(ObsFuseError::InodeNotFound(42).to_string(), "Inode not found: 42");
    assert_eq!(ObsFuseError::HandleNotFound(0).to_string(), "File handle not found: 0");
    assert_eq!(ObsFuseError::DirectoryNotEmpty("/d".to_string()).to_string(), "Directory not empty: /d");
    let storage = ObsFuseError::Storage(StorageFailure { kind: StorageErrorKind::NotFound, message: "gone".to_string() });
    assert_eq!(storage.to_string(), "Storage error: gone");
}

// ==================== Error to Errno ====================

#[test]
fn test_to_errno_inode_not_found() {
    assert_eq!(ObsFuseError::InodeNotFound(1).to_errno(), libc::ENOENT);
}

#[test]
fn test_to_errno_path_not_found() {
    assert_eq!(ObsFuseError::PathNotFound("/path".to_string()).to_errno(), libc::ENOENT);
}

#[test]
fn test_to_errno_handle_not_found() {
    assert_eq!(ObsFuseError::HandleNotFound(1).to_errno(), libc::EBADF);
}

#[test]
fn test_to_errno_permission_denied() {
    assert_eq!(ObsFuseError::PermissionDenied("test".to_string()).to_errno(), libc::EACCES);
}

#[test]
fn test_to_errno_file_exists() {
    assert_eq!(ObsFuseError::FileExists("/file".to_string()).to_errno(), libc::EEXIST);
}

#[test]
fn test_to_errno_not_a_directory() {
    assert_eq!(ObsFuseError::NotADirectory("/path".to_string()).to_errno(), libc::ENOTDIR);
}

#[test]
fn test_to_errno_is_a_directory() {
    assert_eq!(ObsFuseError::IsADirectory("/dir".to_string()).to_errno(), libc::EISDIR);
}

#[test]
fn test_to_errno_directory_not_empty() {
    assert_eq!(ObsFuseError::DirectoryNotEmpty("/dir".to_string()).to_errno(), libc::ENOTEMPTY);
}

#[test]
fn test_to_errno_invalid_argument() {
    assert_eq!(ObsFuseError::InvalidArgument("arg".to_string()).to_errno(), libc::EINVAL);
}

#[test]
fn test_to_errno_not_supported() {
    assert_eq!(ObsFuseError::NotSupported("op".to_string()).to_errno(), libc::ENOSYS);
}

#[test]
fn test_to_errno_config() {
    assert_eq!(ObsFuseError::Config("config".to_string()).to_errno(), libc::EINVAL);
}

#[test]
fn test_to_errno_cache() {
    assert_eq!(ObsFuseError::Cache("cache".to_string()).to_errno(), libc::EIO);
}

#[test]
fn test_to_errno_multipart() {
    assert_eq!(ObsFuseError::MultipartUpload("mp".to_string()).to_errno(), libc::EIO);
}

#[test]
fn test_to_errno_internal() {
    assert_eq!(ObsFuseError::Internal("internal".to_string()).to_errno(), libc::EIO);
}

#[test]
fn test_to_errno_io() {
    let err = ObsFuseError::Io(IoFailure {
        kind: IoFailureKind::Other,
        raw_os_error: Some(libc::EPERM),
        message: "operation not permitted".to_string(),
    });
    assert_eq!(err.to_errno(), libc::EPERM);
}

#[test]
fn test_to_errno_io_without_os_error_is_eio() {
    let err = ObsFuseError::Io(IoFailure { kind: IoFailureKind::TimedOut, raw_os_error: None, message: String::new() });
    assert_eq!(err.to_errno(), libc::EIO);
}

#[test]
fn test_to_errno_storage_kinds() {
    let of = |kind| ObsFuseError::Storage(StorageFailure { kind, message: String::new() }).to_errno();
    assert_eq!(of(StorageErrorKind::NotFound), libc::ENOENT);
    assert_eq!(of(StorageErrorKind::PermissionDenied), libc::EACCES);
    assert_eq!(of(StorageErrorKind::AlreadyExists), libc::EEXIST);
    assert_eq!(of(StorageErrorKind::NotADirectory), libc::ENOTDIR);
    assert_eq!(of(StorageErrorKind::IsADirectory), libc::EISDIR);
    assert_eq!(of(StorageErrorKind::RateLimited), libc::EAGAIN);
    assert_eq!(of(StorageErrorKind::Unsupported), libc::ENOSYS);
    assert_eq!(of(StorageErrorKind::Unexpected), libc::EIO);
    assert_eq!(of(StorageErrorKind::RangeNotSatisfied), libc::EIO);
}

#[test]
fn test_is_retryable_kinds() {
    let storage = |kind| ObsFuseError::Storage(StorageFailure { kind, message: String::new() });
    let io = |kind| ObsFuseError::Io(IoFailure { kind, raw_os_error: None, message: String::new() });
    assert!(storage(StorageErrorKind::RateLimited).is_retryable());
    assert!(storage(StorageErrorKind::Unexpected).is_retryable());
    assert!(!storage(StorageErrorKind::NotFound).is_retryable());
    assert!(io(IoFailureKind::ConnectionReset).is_retryable());
    assert!(io(IoFailureKind::TimedOut).is_retryable());
    assert!(!io(IoFailureKind::NotFound).is_retryable());
    assert!(!ObsFuseError::Internal("x".to_string()).is_retryable());
}

// ==================== Metrics ====================

#[test]
fn test_metrics_new() {
    let metrics = Metrics::new();
    assert_eq!(metrics.read_ops, 0);
    assert_eq!(metrics.write_ops, 0);
    assert_eq!(metrics.obs_get_ops, 0);
}

#[test]
fn test_inc_read_ops() {
    let mut metrics = Metrics::new();
    metrics.inc_read_ops();
    metrics.inc_read_ops();
    metrics.inc_read_ops();
    assert_eq!(metrics.read_ops, 3);
}

#[test]
fn test_add_read_bytes() {
    let mut metrics = Metrics::new();
    metrics.add_read_bytes(1024);
    metrics.add_read_bytes(2048);
    assert_eq!(metrics.read_bytes, 3072);
}

#[test]
fn test_read_cache_hit_miss_counters() {
    let mut metrics = Metrics::new();
    metrics.inc_read_cache_hit();
    metrics.inc_read_cache_hit();
    metrics.inc_read_cache_miss();
    assert_eq!(metrics.read_cache_hits, 2);
    assert_eq!(metrics.read_cache_misses, 1);
}

#[test]
fn test_inc_write_ops() {
    let mut metrics = Metrics::new();
    metrics.inc_write_ops();
    metrics.inc_write_ops();
    assert_eq!(metrics.write_ops, 2);
}

#[test]
fn test_add_write_bytes() {
    let mut metrics = Metrics::new();
    metrics.add_write_bytes(512);
    metrics.add_write_bytes(512);
    assert_eq!(metrics.write_bytes, 1024);
}

#[test]
fn test_inc_write_buffer_flush() {
    let mut metrics = Metrics::new();
    metrics.inc_write_buffer_flush();
    metrics.inc_write_buffer_flush();
    metrics.inc_write_buffer_flush();
    assert_eq!(metrics.write_buffer_flushes, 3);
}

#[test]
fn test_inc_lookup_ops() {
    let mut metrics = Metrics::new();
    metrics.inc_lookup_ops();
    assert_eq!(metrics.lookup_ops, 1);
}

#[test]
fn test_inc_getattr_ops() {
    let mut metrics = Metrics::new();
    metrics.inc_getattr_ops();
    metrics.inc_getattr_ops();
    assert_eq!(metrics.getattr_ops, 2);
}

#[test]
fn test_inc_readdir_ops() {
    let mut metrics = Metrics::new();
    metrics.inc_readdir_ops();
    assert_eq!(metrics.readdir_ops, 1);
}

#[test]
fn test_metadata_cache_hit_miss_counters() {
    let mut metrics = Metrics::new();
    metrics.inc_metadata_cache_hit();
    metrics.inc_metadata_cache_hit();
    metrics.inc_metadata_cache_hit();
    metrics.inc_metadata_cache_miss();
    assert_eq!(metrics.metadata_cache_hits, 3);
    assert_eq!(metrics.metadata_cache_misses, 1);
}

#[test]
fn test_inc_obs_get() {
    let mut metrics = Metrics::new();
    metrics.inc_obs_get();
    metrics.inc_obs_get();
    assert_eq!(metrics.obs_get_ops, 2);
}

#[test]
fn test_inc_obs_put() {
    let mut metrics = Metrics::new();
    metrics.inc_obs_put();
    assert_eq!(metrics.obs_put_ops, 1);
}

#[test]
fn test_inc_obs_list() {
    let mut metrics = Metrics::new();
    metrics.inc_obs_list();
    metrics.inc_obs_list();
    metrics.inc_obs_list();
    assert_eq!(metrics.obs_list_ops, 3);
}

#[test]
fn test_inc_obs_delete() {
    let mut metrics = Metrics::new();
    metrics.inc_obs_delete();
    assert_eq!(metrics.obs_delete_ops, 1);
}

#[test]
fn test_inc_obs_error() {
    let mut metrics = Metrics::new();
    metrics.inc_obs_error();
    metrics.inc_obs_error();
    assert_eq!(metrics.obs_errors, 2);
}

#[test]
fn test_uptime() {
    let metrics = Metrics::new();
    let start = std::time::Instant::now();
    while start.elapsed() < std::time::Duration::from_millis(10) {}
    let uptime = metrics.uptime();
    assert!(uptime.as_millis() >= 10);
}

#[test]
fn test_summary() {
    let mut metrics = Metrics::new();
    metrics.inc_read_ops();
    metrics.add_read_bytes(1024);
    metrics.inc_write_ops();
    metrics.add_write_bytes(512);
    metrics.inc_obs_get();
    metrics.inc_obs_put();
    metrics.inc_obs_error();
    assert_eq!(metrics.read_ops, 1);
    assert_eq!(metrics.read_bytes, 1024);
    assert_eq!(metrics.write_ops, 1);
    assert_eq!(metrics.write_bytes, 512);
    assert_eq!(metrics.obs_get_ops, 1);
    assert_eq!(metrics.obs_put_ops, 1);
    assert_eq!(metrics.obs_errors, 1);
    assert_eq!(metrics.lookup_ops, 0);
}

#[test]
fn test_many_updates_count_exactly() {
    let mut metrics = Metrics::new();
    for _ in 0..1000 {
        metrics.inc_read_ops();
        metrics.inc_write_ops();
    }
    assert_eq!(metrics.read_ops, 1000);
    assert_eq!(metrics.write_ops, 1000);
}

#[test]
fn test_counters_wrap_on_overflow() {
    assert_eq!(wrap_add(u64::MAX, 1), 0);
    assert_eq!(wrap_add(u64::MAX, 5), 4);
    assert_eq!(wrap_add(7, 8), 15);
    let mut metrics = Metrics::new();
    metrics.read_bytes = u64::MAX - 1;
    metrics.add_read_bytes(3);
    assert_eq!(metrics.read_bytes, 1);
}

#[test]
fn test_to_io_error() {
    let err = ObsFuseError::PathNotFound("/path".to_string());
    let io_err = err.to_io_error();

    assert_eq!(io_err.raw_os_error(), Some(libc::ENOENT));
}

#[test]
fn test_to_io_error_carries_errno() {
    let err = ObsFuseError::NotADirectory("/f".to_string());
    assert_eq!(err.to_io_error().raw_os_error(), Some(libc::ENOTDIR));
    let err = ObsFuseError::HandleNotFound(3);
    assert_eq!(err.to_io_error().raw_os_error(), Some(err.to_errno()));
}

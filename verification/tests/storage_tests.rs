//! Multipart upload bookkeeping, object metadata and the retry policy.

use obsfuse::storage::retry::after_failure;
use obsfuse::storage::{IsRetryable, MultipartConfig, MultipartUploadState, MultipartUploader, ObjectMeta, ObjectWriteMeta, PartInfo};
use obsfuse::utils::error::{StorageErrorKind, StorageFailure};
use obsfuse::utils::{Metrics, ObsFuseError};

// ==================== Multipart ====================

#[test]
fn test_storage_test_multipart_config_default() {
    let config = MultipartConfig::default();
    assert_eq!(config.part_size, 8 * 1024 * 1024);
    assert_eq!(config.concurrency, 5);
    assert_eq!(config.max_parts, 10000);
}

#[test]
fn test_multipart_state_creation() {
    let state = MultipartUploadState::new("path/to/file.txt".to_string());
    assert_eq!(state.path, "path/to/file.txt");
    assert!(state.parts.is_empty());
    assert_eq!(state.current_part, 1);
    assert!(state.buffer.is_empty());
    assert_eq!(state.total_bytes, 0);
    assert!(!state.initiated);
}

#[test]
fn test_multipart_state_buffer_ready() {
    let mut state = MultipartUploadState::new("test.txt".to_string());
    assert!(!state.buffer_ready(1024));
    state.buffer.extend_from_slice(&[0u8; 500]);
    assert!(!state.buffer_ready(1024));
    state.buffer.extend_from_slice(&[0u8; 600]);
    assert!(state.buffer_ready(1024));
}

#[test]
fn test_multipart_state_take_buffer() {
    let mut state = MultipartUploadState::new("test.txt".to_string());
    state.buffer.extend_from_slice(&[1u8; 2048]);
    let taken = state.take_buffer(1024);
    assert!(taken.is_some());
    assert_eq!(taken.unwrap().len(), 1024);
    assert_eq!(state.buffer.len(), 1024);
    let taken = state.take_buffer(1024);
    assert!(taken.is_some());
    assert!(state.buffer.is_empty());
    let taken = state.take_buffer(1024);
    assert!(taken.is_none());
}

#[test]
fn test_multipart_state_take_remaining() {
    let mut state = MultipartUploadState::new("test.txt".to_string());
    state.buffer.extend_from_slice(&[42u8; 500]);
    let remaining = state.take_remaining();
    assert_eq!(remaining.len(), 500);
    assert!(state.buffer.is_empty());
}

#[test]
fn test_part_info() {
    let part = PartInfo { part_number: 1, etag: "abc123".to_string(), size: 8 * 1024 * 1024 };
    assert_eq!(part.part_number, 1);
    assert_eq!(part.etag, "abc123");
    assert_eq!(part.size, 8 * 1024 * 1024);
}

#[test]
fn test_take_buffer_keeps_order_of_bytes() {
    let mut state = MultipartUploadState::new("t".to_string());
    state.buffer.extend_from_slice(&[1, 2, 3, 4, 5]);
    assert_eq!(state.take_buffer(2), Some(vec![1, 2]));
    assert_eq!(state.buffer, vec![3, 4, 5]);
}

#[test]
fn test_uploader_write_cuts_numbered_parts() {
    let config = MultipartConfig { part_size: 4, concurrency: 1, max_parts: 100 };
    let uploader = MultipartUploader::new(config);
    let mut state = MultipartUploadState::new("obj".to_string());
    let mut metrics = Metrics::new();
    assert!(uploader.write(&mut state, &[0u8; 10], &mut metrics).is_ok());
    assert_eq!(state.parts.len(), 2);
    assert_eq!(state.parts[0].part_number, 1);
    assert_eq!(state.parts[1].part_number, 2);
    assert_eq!(state.parts[0].size, 4);
    assert_eq!(state.buffer.len(), 2);
    assert_eq!(state.current_part, 3);
    assert_eq!(state.total_bytes, 10);
    assert_eq!(metrics.obs_put_ops, 2);

    assert!(uploader.complete(&mut state, &mut metrics).is_ok());
    assert_eq!(state.parts.len(), 3);
    assert_eq!(state.parts[2].part_number, 3);
    assert_eq!(state.parts[2].size, 2);
    assert!(state.buffer.is_empty());
    assert_eq!(metrics.obs_put_ops, 3);
    let total: usize = state.parts.iter().map(|p| p.size).sum();
    assert_eq!(total as u64, state.total_bytes);
}

#[test]
fn test_uploader_complete_with_empty_buffer_adds_nothing() {
    let uploader = MultipartUploader::new(MultipartConfig { part_size: 4, concurrency: 1, max_parts: 10 });
    let mut state = MultipartUploadState::new("obj".to_string());
    let mut metrics = Metrics::new();
    assert!(uploader.complete(&mut state, &mut metrics).is_ok());
    assert!(state.parts.is_empty());
    assert_eq!(metrics.obs_put_ops, 0);
}

#[test]
fn test_uploader_abort_resets_numbering() {
    let uploader = MultipartUploader::new(MultipartConfig { part_size: 2, concurrency: 1, max_parts: 10 });
    let mut state = MultipartUploadState::new("obj".to_string());
    let mut metrics = Metrics::new();
    assert!(uploader.write(&mut state, &[9u8; 5], &mut metrics).is_ok());
    assert!(uploader.abort(&mut state).is_ok());
    assert!(state.parts.is_empty());
    assert!(state.buffer.is_empty());
    assert_eq!(state.current_part, 1);
    assert_eq!(state.total_bytes, 5);
}

#[test]
fn test_uploader_max_file_size() {
    let uploader = MultipartUploader::new(MultipartConfig::default());
    assert_eq!(uploader.part_size(), 8 * 1024 * 1024);
    assert_eq!(uploader.max_file_size(), 10000 * 8 * 1024 * 1024);
}

// ==================== Object metadata ====================

fn object(path: &str, is_dir: bool) -> ObjectMeta {
    ObjectMeta { path: path.to_string(), size: 0, last_modified: None, is_dir, content_type: None, etag: None }
}

#[test]
fn test_object_meta_name_from_path() {
    assert_eq!(object("prefix/dir/file.txt", false).name(), "file.txt");
}

#[test]
fn test_object_meta_name_from_dir() {
    assert_eq!(object("prefix/dir/", true).name(), "dir");
}

#[test]
fn test_object_meta_name_root() {
    assert_eq!(object("file.txt", false).name(), "file.txt");
}

#[test]
fn test_object_meta_fields() {
    let now = std::time::SystemTime::now();
    let meta = ObjectMeta {
        path: "path/file.txt".to_string(),
        size: 1024,
        last_modified: Some(now),
        is_dir: false,
        content_type: Some("text/plain".to_string()),
        etag: Some("abc123".to_string()),
    };
    assert_eq!(meta.size, 1024);
    assert!(!meta.is_dir);
    assert_eq!(meta.content_type, Some("text/plain".to_string()));
    assert_eq!(meta.etag, Some("abc123".to_string()));
}

// ==================== Retry policy ====================

#[test]
fn test_after_failure_counts_and_stops() {
    assert_eq!(after_failure(0, 3, true), (1, true));
    assert_eq!(after_failure(2, 3, true), (3, true));
    assert_eq!(after_failure(3, 3, true), (4, false));
    assert_eq!(after_failure(0, 3, false), (1, false));
}

#[test]
fn test_retry_attempts_until_exhausted() {
    let mut attempts = 0u32;
    loop {
        let (n, again) = after_failure(attempts, 3, true);
        attempts = n;
        if !again {
            break;
        }
    }
    assert_eq!(attempts, 4);
}

#[test]
fn test_is_retryable_through_trait() {
    let e = ObsFuseError::Storage(StorageFailure { kind: StorageErrorKind::RateLimited, message: String::new() });
    assert!(IsRetryable::is_retryable(&e));
    let e = ObsFuseError::PathNotFound("x".to_string());
    assert!(!IsRetryable::is_retryable(&e));
}

#[test]
fn test_object_write_meta_default() {
    let meta = ObjectWriteMeta::default();
    assert!(meta.content_type.is_none());
    assert!(meta.custom_meta.is_empty());
}

//! Tests of the individual modules, one group per module.

use std::time::{Duration, SystemTime};

use bytes::Bytes;
use bytesize::ByteSize;

use obsfuse::cache::data::BlockKey;
use obsfuse::cache::metadata::MetadataCache;
use obsfuse::cache::readahead::{ReadState, ReadaheadConfig, ReadaheadManager};
use obsfuse::cache::write_buffer::{FileWriteBuffer, WriteBufferConfig};
use obsfuse::cache::DataCache;
use obsfuse::config::{CacheConfig, Config, FixedPermission, MetadataCacheConfig, PermissionConfig, PermissionMode};
use obsfuse::fs::attr::{AttrBuilder, SetAttrFlags};
use obsfuse::fs::dir::{extract_dir_name, is_direct_child, DirEntry};
use obsfuse::fs::handle::{HandleManager, HandleState};
use obsfuse::fs::inode::{FileAttr, InodeManager, ROOT_INODE};
use obsfuse::fs::permission::PermissionManager;
use obsfuse::fs::platform::{FILE_ATTRIBUTE_DIRECTORY, FILE_ATTRIBUTE_NORMAL, FILE_ATTRIBUTE_REPARSE_POINT};
use obsfuse::fs::platform::{is_readable, is_writable, normalize_path, open_flags, FileKind, Timestamp};
use obsfuse::storage::multipart::{MultipartConfig, MultipartUploadState};
use obsfuse::storage::obs::ObjectMeta;
use obsfuse::utils::error::ObsFuseError;
use obsfuse::utils::metrics::Metrics;

fn data_test_config() -> CacheConfig {
    CacheConfig {
        memory_limit: ByteSize::mb(10).as_u64(),
        disk_limit: ByteSize::mb(100).as_u64(),
        cache_dir: None,
        block_size: ByteSize::kb(64).as_u64(),
        metadata: MetadataCacheConfig::default(),
    }
}

#[test]
fn test_block_key() {
    let key = BlockKey::new(1, 100, 64);
    assert_eq!(key.inode, 1);
    assert_eq!(key.offset, 64); // Aligned to block size

    let key = BlockKey::new(1, 64, 64);
    assert_eq!(key.offset, 64);

    let key = BlockKey::new(1, 128, 64);
    assert_eq!(key.offset, 128);
}

#[test]
fn test_data_cache() {
    let mut metrics = Metrics::new();
    let mut cache = DataCache::new(&data_test_config());

    let data = Bytes::from(vec![0u8; 1024]);
    cache.put(1, 0, data.clone());

    let cached = cache.get(1, 0, &mut metrics);
    assert!(cached.is_some());
    assert_eq!(cached.unwrap().len(), 1024);

    cache.invalidate(1);
    assert!(cache.get(1, 0, &mut metrics).is_none());
}

#[test]
fn test_cache_eviction() {
    let mut config = data_test_config();
    config.memory_limit = ByteSize::kb(10).as_u64(); // Small limit

    let mut cache = DataCache::new(&config);

    // Add blocks until eviction happens
    for i in 0..20u64 {
        let data = Bytes::from(vec![i as u8; 1024]);
        cache.put(1, i * 1024, data);
    }

    // Some blocks should have been evicted
    let stats = cache.stats();
    assert!(stats.memory_usage <= config.memory_limit);
}

fn metadata_test_config() -> MetadataCacheConfig {
    MetadataCacheConfig {
        attr_ttl: Duration::from_secs(3),
        dir_ttl: Duration::from_secs(5),
        negative_ttl: Duration::from_secs(1),
        max_entries: 1000,
    }
}

#[test]
fn test_attr_cache() {
    let mut metrics = Metrics::new();
    let mut cache = MetadataCache::new(metadata_test_config());

    let attr = FileAttr { ino: 42, size: 1024, kind: FileKind::RegularFile, ..Default::default() };

    cache.put_attr(42, attr);

    let cached = cache.get_attr(42, &mut metrics);
    assert!(cached.is_some());
    assert_eq!(cached.unwrap().size, 1024);

    cache.invalidate_attr(42);
    assert!(cache.get_attr(42, &mut metrics).is_none());
}

#[test]
fn test_dir_cache() {
    let mut metrics = Metrics::new();
    let mut cache = MetadataCache::new(metadata_test_config());

    cache.put_dir(1, vec![2, 3, 4], true);

    let cached = cache.get_dir(1, &mut metrics);
    assert!(cached.is_some());
    assert_eq!(cached.unwrap(), vec![2, 3, 4]);

    cache.invalidate_dir(1);
    assert!(cache.get_dir(1, &mut metrics).is_none());
}

#[test]
fn metadata_test_negative_cache() {
    let mut cache = MetadataCache::new(metadata_test_config());

    cache.put_negative("/nonexistent");
    assert!(cache.is_negative("/nonexistent"));

    cache.remove_negative("/nonexistent");
    assert!(!cache.is_negative("/nonexistent"));
}

#[test]
fn test_read_state_sequential() {
    let mut state = ReadState::new();

    // First read
    state.update(0, 1024);
    assert_eq!(state.seq_count, 1);

    // Sequential read
    state.update(1024, 1024);
    assert_eq!(state.seq_count, 2);

    // Another sequential read
    state.update(2048, 1024);
    assert_eq!(state.seq_count, 3);
    assert!(state.is_sequential(3));

    // Non-sequential read
    state.update(0, 1024);
    assert_eq!(state.seq_count, 1);
    assert!(!state.is_sequential(3));
}

#[test]
fn test_readahead_manager() {
    let config = ReadaheadConfig::default();
    let mut manager = ReadaheadManager::new(config);

    // Simulate sequential reads
    for i in 0..5u64 {
        let request = manager.record_read(1, i * 1024, 1024);
        if i >= 2 {
            // Should trigger prefetch after threshold
            assert!(request.is_some() || i > 2);
        }
    }
}

#[test]
fn readahead_test_prefetch_storage() {
    let config = ReadaheadConfig::default();
    let mut manager = ReadaheadManager::new(config);

    let data = Bytes::from(vec![0u8; 1024]);
    manager.store_prefetched(1, 0, data.clone());

    let retrieved = manager.get_prefetched(1, 0);
    assert!(retrieved.is_some());
    assert_eq!(retrieved.unwrap().len(), 1024);

    manager.invalidate(1);
    assert!(manager.get_prefetched(1, 0).is_none());
}

#[test]
fn test_file_write_buffer() {
    let mut buf = FileWriteBuffer::new(1, "test.txt".to_string(), 0);

    assert!(!buf.dirty);
    assert_eq!(buf.buffer_size(), 0);

    buf.data.extend_from_slice(&[0u8; 1024]);
    buf.dirty = true;

    assert!(buf.dirty);
    assert_eq!(buf.buffer_size(), 1024);
    assert!(!buf.needs_flush(2048));
    assert!(buf.needs_flush(512));
}

#[test]
fn test_write_buffer_config() {
    let config = WriteBufferConfig::default();
    assert_eq!(config.buffer_size, 64 * 1024 * 1024);
    assert_eq!(config.multipart_threshold, 100 * 1024 * 1024);
}

#[test]
fn test_default_config() {
    let config = Config::default();
    assert_eq!(config.cache.memory_limit, ByteSize::mb(512).as_u64());
    assert_eq!(config.performance.read_ahead, true);
    assert_eq!(config.permission.mode, PermissionMode::Fixed);
}

#[test]
fn test_config_validation() {
    let mut config = Config::default();
    config.obs.bucket = "test-bucket".to_string();
    config.obs.access_key = Some("ak".to_string());
    config.obs.secret_key = Some("sk".to_string());

    assert!(config.validate().is_ok());
}

#[test]
fn config_test_config_validation_missing_bucket() {
    let config = Config::default();
    assert!(config.validate().is_err());
}

fn fixed_permission_config() -> PermissionConfig {
    PermissionConfig {
        mode: PermissionMode::Fixed,
        fixed: FixedPermission { uid: 1000, gid: 1000, file_mode: 0o644, dir_mode: 0o755 },
    }
}

#[test]
fn test_attr_builder_file() {
    let config = fixed_permission_config();
    let builder = AttrBuilder::new(&config);

    let meta = ObjectMeta {
        path: "test/file.txt".to_string(),
        size: 1024,
        last_modified: None,
        is_dir: false,
        content_type: None,
        etag: None,
    };

    let attr = builder.from_object_meta(42, &meta);
    assert_eq!(attr.ino, 42);
    assert_eq!(attr.size, 1024);
    assert_eq!(attr.kind, FileKind::RegularFile);
    assert_eq!(attr.uid, 1000);
    assert_eq!(attr.gid, 1000);
    assert_eq!(attr.perm, 0o644);
}

#[test]
fn test_attr_builder_directory() {
    let config = fixed_permission_config();
    let builder = AttrBuilder::new(&config);

    let meta = ObjectMeta {
        path: "test/dir/".to_string(),
        size: 0,
        last_modified: None,
        is_dir: true,
        content_type: None,
        etag: None,
    };

    let attr = builder.from_object_meta(42, &meta);
    assert_eq!(attr.kind, FileKind::Directory);
    assert_eq!(attr.perm, 0o755);
}

#[test]
fn test_setattr_flags() {
    let mut attr = FileAttr::default();
    attr.size = 100;
    attr.perm = 0o644;

    let flags = SetAttrFlags { size: Some(200), mode: Some(0o755), ..Default::default() };

    flags.apply(&mut attr);
    assert_eq!(attr.size, 200);
    assert_eq!(attr.perm, 0o755);
}

#[test]
fn test_dir_entry() {
    let entry = DirEntry::new(42, "test.txt", FileKind::RegularFile, 1);
    assert_eq!(entry.inode, 42);
    assert_eq!(entry.name, "test.txt".to_string());
    assert_eq!(entry.kind, FileKind::RegularFile);
}

#[test]
fn test_dot_entries() {
    let dot = DirEntry::dot(1);
    assert_eq!(dot.name, ".".to_string());
    assert_eq!(dot.offset, 1);

    let dotdot = DirEntry::dotdot(2);
    assert_eq!(dotdot.name, "..".to_string());
    assert_eq!(dotdot.offset, 2);
}

#[test]
fn test_extract_dir_name() {
    assert_eq!(extract_dir_name("prefix/dir/file.txt", "prefix/"), Some("dir".to_string()));
    assert_eq!(extract_dir_name("prefix/file.txt", "prefix/"), Some("file.txt".to_string()));
    assert_eq!(extract_dir_name("other/file.txt", "prefix/"), None);
}

#[test]
fn test_is_direct_child() {
    assert!(is_direct_child("prefix/file.txt", "prefix/"));
    assert!(is_direct_child("prefix/dir/", "prefix/"));
    assert!(!is_direct_child("prefix/dir/file.txt", "prefix/"));
    assert!(!is_direct_child("other/file.txt", "prefix/"));
}

#[test]
fn test_handle_manager() {
    let mut manager = HandleManager::new();

    let h1 = manager.open(1, open_flags::O_RDONLY, false);
    let h2 = manager.open(1, open_flags::O_RDWR, false);
    let h3 = manager.open(2, open_flags::O_WRONLY, false);

    assert!(manager.get(h1).is_some());
    assert!(manager.get(h2).is_some());
    assert!(manager.get(h3).is_some());

    let handles = manager.handles_for_inode(1);
    assert_eq!(handles.len(), 2);

    assert!(manager.has_writable_handles(1));
    assert!(manager.has_writable_handles(2));

    manager.close(h1);
    assert!(manager.get(h1).is_none());
}

#[test]
fn test_handle_state_flags() {
    let state = HandleState::new(1, open_flags::O_RDONLY, false);
    assert!(state.readable);
    assert!(!state.writable);

    let state = HandleState::new(1, open_flags::O_WRONLY, false);
    assert!(!state.readable);
    assert!(state.writable);

    let state = HandleState::new(1, open_flags::O_RDWR, false);
    assert!(state.readable);
    assert!(state.writable);

    let state = HandleState::new(1, open_flags::O_WRONLY | open_flags::O_APPEND, false);
    assert!(state.is_append());
}

#[test]
fn test_inode_manager_creation() {
    let manager = InodeManager::new(fixed_permission_config());

    // Root should exist
    assert!(manager.get_entry(ROOT_INODE).is_some());
    assert_eq!(manager.get_inode(""), Some(ROOT_INODE));
}

#[test]
fn test_get_or_create_inode() {
    let mut manager = InodeManager::new(fixed_permission_config());

    let inode1 = manager.get_or_create_inode("test/file.txt", false, 100);
    let inode2 = manager.get_or_create_inode("test/file.txt", false, 100);

    assert_eq!(inode1, inode2);
    assert!(inode1 > ROOT_INODE);
}

#[test]
fn test_path_operations() {
    assert_eq!(InodeManager::parent_path("a/b/c"), Some("a/b".to_string()));
    assert_eq!(InodeManager::parent_path("a"), Some(String::new()));
    assert_eq!(InodeManager::parent_path(""), None);

    assert_eq!(InodeManager::file_name("a/b/c.txt"), "c.txt");
    assert_eq!(InodeManager::file_name("file.txt"), "file.txt");

    assert_eq!(InodeManager::join_path("a/b", "c"), "a/b/c");
    assert_eq!(InodeManager::join_path("", "c"), "c");
}

#[test]
fn inode_test_rename() {
    let mut manager = InodeManager::new(fixed_permission_config());

    let inode = manager.get_or_create_inode("old/path.txt", false, 100);
    manager.rename("old/path.txt", "new/path.txt");

    assert_eq!(manager.get_inode("new/path.txt"), Some(inode));
    assert_eq!(manager.get_inode("old/path.txt"), None);
}

#[test]
fn test_permission_check_read() {
    let manager = PermissionManager::new(fixed_permission_config());

    // Owner can read
    assert!(manager.check_read(1000, 1000, 1000, 1000, 0o644));

    // Group can read
    assert!(manager.check_read(2000, 1000, 1000, 1000, 0o644));

    // Other can read
    assert!(manager.check_read(2000, 2000, 1000, 1000, 0o644));

    // No read permission
    assert!(!manager.check_read(2000, 2000, 1000, 1000, 0o000));

    // Root can always read
    assert!(manager.check_read(0, 0, 1000, 1000, 0o000));
}

#[test]
fn test_permission_check_write() {
    let manager = PermissionManager::new(fixed_permission_config());

    // Owner can write
    assert!(manager.check_write(1000, 1000, 1000, 1000, 0o644));

    // Group cannot write with 0o644
    assert!(!manager.check_write(2000, 1000, 1000, 1000, 0o644));

    // Group can write with 0o664
    assert!(manager.check_write(2000, 1000, 1000, 1000, 0o664));

    // Root can always write
    assert!(manager.check_write(0, 0, 1000, 1000, 0o000));
}

#[test]
fn test_preserved_mode_metadata() {
    let mut config = fixed_permission_config();
    config.mode = PermissionMode::Preserved;
    let manager = PermissionManager::new(config);

    let meta = manager.build_metadata(1000, 1000, 0o755);
    assert_eq!(meta.get("x-obs-meta-uid"), Some(&"1000".to_string()));
    assert_eq!(meta.get("x-obs-meta-gid"), Some(&"1000".to_string()));
    assert_eq!(meta.get("x-obs-meta-mode"), Some(&"493".to_string())); // 0o755 = 493

    let parsed = manager.parse_metadata(&meta);
    assert_eq!(parsed, Some((1000, 1000, 493)));
}

#[test]
fn test_file_kind_default() {
    assert_eq!(FileKind::default(), FileKind::RegularFile);
}

#[test]
fn test_open_flags() {
    assert!(is_readable(open_flags::O_RDONLY));
    assert!(!is_writable(open_flags::O_RDONLY));

    assert!(!is_readable(open_flags::O_WRONLY));
    assert!(is_writable(open_flags::O_WRONLY));

    assert!(is_readable(open_flags::O_RDWR));
    assert!(is_writable(open_flags::O_RDWR));
}

#[test]
fn test_timestamp_conversion() {
    let now = SystemTime::now();
    let ts = Timestamp::from_system_time(now);
    let back: SystemTime = ts.to_system_time();

    // Should be within 1 second due to conversion precision
    let diff = now.duration_since(back).unwrap_or_default();
    assert!(diff.as_secs() < 1);
}

#[test]
fn test_normalize_path() {
    assert_eq!(normalize_path("/foo/bar/"), "foo/bar");
    assert_eq!(normalize_path("foo/bar"), "foo/bar");
    assert_eq!(normalize_path("/"), "");
}

#[test]
fn test_multipart_state() {
    let mut state = MultipartUploadState::new("test/file.txt".to_string());
    assert_eq!(state.current_part, 1);
    assert!(state.parts.is_empty());

    state.buffer.extend_from_slice(&[0u8; 1024]);
    assert!(!state.buffer_ready(2048));
    assert!(state.buffer_ready(512));
}

#[test]
fn multipart_test_multipart_config_default() {
    let config = MultipartConfig::default();
    assert_eq!(config.part_size, 8 * 1024 * 1024);
    assert_eq!(config.concurrency, 5);
    assert_eq!(config.max_parts, 10000);
}

#[test]
fn test_object_meta_name() {
    let meta = ObjectMeta {
        path: "path/to/file.txt".to_string(),
        size: 100,
        last_modified: None,
        is_dir: false,
        content_type: None,
        etag: None,
    };
    assert_eq!(meta.name(), "file.txt");

    let dir_meta = ObjectMeta {
        path: "path/to/dir/".to_string(),
        size: 0,
        last_modified: None,
        is_dir: true,
        content_type: None,
        etag: None,
    };
    assert_eq!(dir_meta.name(), "dir");
}

#[test]
fn test_error_to_errno() {
    let err = ObsFuseError::PathNotFound("/test".to_string());
    assert_eq!(err.to_errno(), libc::ENOENT);

    let err = ObsFuseError::PermissionDenied("test".to_string());
    assert_eq!(err.to_errno(), libc::EACCES);

    let err = ObsFuseError::FileExists("/test".to_string());
    assert_eq!(err.to_errno(), libc::EEXIST);
}

#[test]
fn test_win_attrs_round_trip() {
    assert_eq!(FileKind::Directory.to_win_attrs(), FILE_ATTRIBUTE_DIRECTORY);
    assert_eq!(FileKind::Symlink.to_win_attrs(), FILE_ATTRIBUTE_REPARSE_POINT);
    assert_eq!(FileKind::Socket.to_win_attrs(), FILE_ATTRIBUTE_NORMAL);
    for k in [FileKind::RegularFile, FileKind::Directory, FileKind::Symlink] {
        assert_eq!(FileKind::from_win_attrs(k.to_win_attrs()), k);
    }
    assert_eq!(FileKind::from_win_attrs(0x10 | 0x400 | 0x20), FileKind::Directory);
    assert_eq!(FileKind::from_win_attrs(0x20), FileKind::RegularFile);
}

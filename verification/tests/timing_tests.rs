//! Decisions that depend on how long ago something happened, taken with the
//! age handed in, and the time conversions between timestamps and system
//! times; also a few properties that hold across several calls.

use std::time::{Duration, SystemTime, UNIX_EPOCH};

use bytes::Bytes;
use bytesize::ByteSize;

use obsfuse::cache::readahead::{ReadaheadConfig, ReadaheadManager};
use obsfuse::cache::write_buffer::{FileWriteBuffer, WriteBuffer, WriteBufferConfig};
use obsfuse::cache::{CachedAttr, CachedDirEntry, DataCache};
use obsfuse::config::{CacheConfig, Config, FixedPermission, MetadataCacheConfig, PermissionConfig, PermissionMode};
use obsfuse::fs::attr::SetAttrFlags;
use obsfuse::fs::dir::{extract_dir_name, is_direct_child};
use obsfuse::fs::fs_core::{FsError, LookupStart, ObsFsCore};
use obsfuse::fs::inode::ROOT_INODE;
use obsfuse::storage::retry::after_failure;
use obsfuse::fs::inode::{FileAttr, InodeManager};
use obsfuse::fs::platform::{normalize_path, FileKind, Timestamp};
use obsfuse::storage::ObjectMeta;
use obsfuse::utils::buf::byte_count;
use obsfuse::utils::Metrics;

fn new_core() -> ObsFsCore {
    let mut config = Config::default();
    config.obs.bucket = "bucket".to_string();
    ObsFsCore::new(config, Metrics::new())
}

fn meta(path: &str, size: u64) -> ObjectMeta {
    ObjectMeta { path: path.to_string(), size, last_modified: None, is_dir: false, content_type: None, etag: None }
}

fn manager() -> InodeManager {
    let config = PermissionConfig {
        mode: PermissionMode::Fixed,
        fixed: FixedPermission { uid: 1000, gid: 1000, file_mode: 0o644, dir_mode: 0o755 },
    };
    InodeManager::new(config)
}

#[test]
fn test_setattr_uses_fresh_cached_attributes() {
    let mut core = new_core();
    let (inode, attr) = core.lookup_found("s.txt", &meta("s.txt", 100));
    core.metadata_cache.put_attr(inode, FileAttr { size: 777, uid: 42, ..attr });
    let flags = SetAttrFlags { mode: Some(0o600), ..Default::default() };
    let a = core.setattr_finish_after(inode, &flags, Duration::ZERO).unwrap();
    assert_eq!(a.size, 777);
    assert_eq!(a.uid, 42);
    assert_eq!(a.perm, 0o600);
}

#[test]
fn test_setattr_uses_inode_entry_when_cached_attributes_expired() {
    let mut core = new_core();
    let (inode, attr) = core.lookup_found("e.txt", &meta("e.txt", 100));
    core.metadata_cache.put_attr(inode, FileAttr { size: 777, ..attr });
    let t = UNIX_EPOCH + Duration::from_secs(86_400);
    let flags = SetAttrFlags { mtime: Some(t), ..Default::default() };
    let a = core.setattr_finish_after(inode, &flags, Duration::from_secs(3600)).unwrap();
    assert_eq!(a.size, 100);
    assert_eq!(a.mtime, t);
    let mut metrics = Metrics::new();
    assert_eq!(core.metadata_cache.get_attr(inode, &mut metrics).unwrap().mtime, t);
    assert_eq!(
        core.setattr_finish_after(9999, &flags, Duration::from_secs(3600)).err(),
        Some(FsError::not_found())
    );
}

#[test]
fn test_timestamp_to_system_time_exact() {
    assert_eq!(Timestamp { sec: 5, nsec: 7 }.to_system_time(), UNIX_EPOCH + Duration::new(5, 7));
    assert_eq!(Timestamp { sec: 0, nsec: 0 }.to_system_time(), UNIX_EPOCH);
    assert_eq!(Timestamp { sec: -3, nsec: 0 }.to_system_time(), UNIX_EPOCH);
}

#[test]
fn test_timestamp_from_system_time_exact() {
    let t = UNIX_EPOCH + Duration::new(12, 345);
    assert_eq!(Timestamp::from_system_time(t), Timestamp { sec: 12, nsec: 345 });
    let before: SystemTime = UNIX_EPOCH - Duration::from_secs(10);
    assert_eq!(Timestamp::from_system_time(before), Timestamp { sec: 0, nsec: 0 });
    assert_eq!(Timestamp::from_system_time(t).to_system_time(), t);
}

#[test]
fn test_cached_attr_expiry_with_given_age() {
    let c = CachedAttr::new(FileAttr { ino: 3, kind: FileKind::RegularFile, ..Default::default() });
    assert!(!c.is_expired_after(Duration::from_secs(10), Duration::from_secs(10)));
    assert!(c.is_expired_after(Duration::from_secs(10), Duration::from_secs(11)));
    // Past a longer time to live means past every shorter one, and stays so.
    assert!(c.is_expired_after(Duration::from_secs(5), Duration::from_secs(11)));
    assert!(c.is_expired_after(Duration::from_secs(10), Duration::from_secs(20)));
    assert!(!c.is_expired(Duration::from_secs(60)));
}

#[test]
fn test_cached_dir_entry_expiry_with_given_age() {
    let d = CachedDirEntry::new(vec![1, 2], true);
    assert!(!d.is_expired_after(Duration::from_millis(500), Duration::from_millis(500)));
    assert!(d.is_expired_after(Duration::from_millis(500), Duration::from_millis(501)));
    assert!(!d.is_expired(Duration::from_secs(60)));
}

#[test]
fn test_inode_expiry_with_given_age() {
    let mut m = manager();
    let inode = m.get_or_create_inode("x.txt", false, 1);
    assert!(!m.is_expired_after(inode, Duration::from_secs(60), Duration::from_secs(59)));
    assert!(m.is_expired_after(inode, Duration::from_secs(60), Duration::from_secs(61)));
    assert!(m.is_expired_after(12345, Duration::from_secs(60), Duration::ZERO));
    assert!(m.entry_age(inode).is_some());
    assert!(m.entry_age(12345).is_none());
}

#[test]
fn test_file_write_buffer_time_flush_with_given_age() {
    let mut buf = FileWriteBuffer::new(1, "t.txt".to_string(), 0);
    assert!(!buf.needs_time_flush_after(Duration::from_secs(1), Duration::from_secs(2)));
    buf.dirty = true;
    assert!(!buf.needs_time_flush_after(Duration::from_secs(1), Duration::from_secs(1)));
    assert!(buf.needs_time_flush_after(Duration::from_secs(1), Duration::from_secs(2)));
}

#[test]
fn test_write_buffer_time_flush_with_given_age() {
    let config = WriteBufferConfig {
        buffer_size: 100,
        flush_interval: Duration::from_secs(30),
        multipart_threshold: 1000,
        part_size: 500,
    };
    let mut wb = WriteBuffer::new(config);
    let mut metrics = Metrics::new();
    assert!(!wb.needs_time_flush_after(1, Duration::from_secs(60)));
    assert!(wb.write_age(1).is_none());
    wb.get_or_create(1, "f", 0);
    assert!(!wb.needs_time_flush_after(1, Duration::from_secs(60)));
    wb.begin_write(1, "f", 0, &[1, 2, 3], 0, &mut metrics);
    assert!(wb.write_age(1).is_some());
    assert!(!wb.needs_time_flush_after(1, Duration::from_secs(30)));
    assert!(wb.needs_time_flush_after(1, Duration::from_secs(31)));
    assert!(!wb.needs_time_flush(1));
}

#[test]
fn test_byte_count() {
    assert_eq!(byte_count(&Bytes::from(vec![1u8, 2, 3])), 3);
    assert_eq!(byte_count(&Bytes::new()), 0);
}

#[test]
fn test_parent_of_joined_path() {
    for (q, f) in [("a/b", "c"), ("", "x"), ("dir", "file.txt"), ("a/b/c", "d")] {
        let j = InodeManager::join_path(q, f);
        assert_eq!(InodeManager::parent_path(&j), Some(q.to_string()));
    }
}

#[test]
fn test_normalize_path_is_idempotent() {
    for p in ["//a/b//", "a", "/", "", "x/y/z/"] {
        let once = normalize_path(p);
        assert_eq!(normalize_path(&once), once);
    }
    assert_eq!(normalize_path("//a/b//"), "a/b");
}

#[test]
fn test_direct_child_name_is_path_below_prefix() {
    assert!(is_direct_child("pre/child/", "pre/"));
    assert_eq!(extract_dir_name("pre/child/", "pre/"), Some("child".to_string()));
    assert!(is_direct_child("pre/file.txt", "pre/"));
    assert_eq!(extract_dir_name("pre/file.txt", "pre/"), Some("file.txt".to_string()));
    assert!(!is_direct_child("pre/a/b", "pre/"));
}

#[test]
fn test_replacing_a_block_keeps_entries() {
    let config = CacheConfig {
        memory_limit: ByteSize::mb(1).as_u64(),
        disk_limit: 0,
        cache_dir: None,
        block_size: ByteSize::kb(1).as_u64(),
        metadata: MetadataCacheConfig::default(),
    };
    let mut cache = DataCache::new(&config);
    let mut metrics = Metrics::new();
    assert!(cache.put(1, 0, Bytes::from(vec![1u8; 100])).is_empty());
    assert!(cache.put(1, 1024, Bytes::from(vec![2u8; 50])).is_empty());
    assert_eq!(cache.stats().memory_usage, 150);
    let evicted = cache.put(1, 0, Bytes::from(vec![3u8; 300]));
    assert!(evicted.is_empty());
    let stats = cache.stats();
    assert_eq!(stats.memory_entries, 2);
    assert_eq!(stats.memory_usage, 150 - 100 + 300);
    assert_eq!(cache.get(1, 0, &mut metrics).unwrap().as_ref(), &[3u8; 300][..]);
}

#[test]
fn test_window_never_requested_twice() {
    let config = ReadaheadConfig {
        enable: true,
        window_size: 4096,
        concurrency: 1,
        seq_threshold: 3,
        prefetch_ttl: Duration::from_secs(30),
    };
    let mut m = ReadaheadManager::new(config);
    assert!(m.record_read(1, 0, 1024).is_none());
    assert!(m.record_read(1, 1024, 1024).is_none());
    let w = m.record_read(1, 2048, 1024).unwrap();
    assert_eq!((w.offset, w.size), (3072, 4096));
    // Reads ending within the window ask for nothing, even after a jump.
    assert!(m.record_read(1, 0, 512).is_none());
    assert!(m.record_read(1, 512, 512).is_none());
    assert!(m.record_read(1, 1024, 2048).is_none());
    assert!(m.record_read(1, 3072, 1024).is_none());
    assert!(m.record_read(1, 4096, 3072).is_none());
    // The next read past the window asks for the next one.
    let next = m.record_read(1, 7168, 1024).unwrap();
    assert_eq!(next.offset, 8192);
}

#[test]
fn test_renamed_file_found_under_new_name() {
    let mut core = new_core();
    let (inode, _) = core.lookup_found("a.txt", &meta("a.txt", 10));
    core.lookup_missing("b.txt");
    assert!(core.lookup_start(ROOT_INODE, "b.txt").is_err());
    core.rename_finish(ROOT_INODE, ROOT_INODE, "a.txt", "b.txt");
    let child = match core.lookup_start(ROOT_INODE, "b.txt").unwrap() {
        LookupStart::Fetch { child_path, .. } => child_path,
        LookupStart::Found(..) => panic!("the renamed file's attributes were dropped"),
    };
    assert_eq!(child, "b.txt");
    let (found, _) = core.lookup_found(&child, &meta("b.txt", 10));
    assert_eq!(found, inode);
}

#[test]
fn test_attempts_are_bounded() {
    let run = |max: u32, retryable: &[bool]| {
        let mut attempts = 0u32;
        for &r in retryable {
            let (a, again) = after_failure(attempts, max, r);
            attempts = a;
            if !again {
                return attempts;
            }
        }
        attempts + 1
    };
    assert_eq!(run(3, &[true; 10]), 4);
    assert_eq!(run(3, &[false, true]), 1);
    assert_eq!(run(3, &[true, true]), 3);
    assert_eq!(run(0, &[true]), 1);
}

#[test]
fn test_listing_caches_attributes_from_object_meta() {
    let mut core = new_core();
    let start = core.readdir_start(ROOT_INODE, 0).unwrap();
    let metas = vec![meta("big.bin", 123_456)];
    let entries = core.readdir_finish(ROOT_INODE, &start.path, 0, start.entries, &metas);
    assert_eq!(entries.len(), 3);
    let inode = entries[2].inode;
    let mut metrics = Metrics::new();
    let attr = core.metadata_cache.get_attr(inode, &mut metrics).unwrap();
    assert_eq!(attr.size, 123_456);
    assert_eq!(attr.kind, FileKind::RegularFile);
    assert_eq!(attr.ino, inode);
}

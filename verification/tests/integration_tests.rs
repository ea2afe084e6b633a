//! Whole workflows across several modules: configuration, metrics, the inode
//! table, the caches and the handle table used together.

use std::time::Duration;

use bytes::Bytes;
use bytesize::ByteSize;

use obsfuse::cache::metadata::MetadataCache;
use obsfuse::cache::readahead::{ReadaheadConfig, ReadaheadManager};
use obsfuse::cache::DataCache;
use obsfuse::config::{CacheConfig, Config, FixedPermission, MetadataCacheConfig, PermissionConfig, PermissionMode};
use obsfuse::fs::handle::HandleManager;
use obsfuse::fs::inode::{FileAttr, InodeManager};
use obsfuse::utils::Metrics;

#[test]
fn test_config_default_creation() {
    let config = Config::default();
    assert!(!config.obs.endpoint.is_empty());
    assert!(config.cache.memory_limit > 0);
}

#[test]
fn test_metrics_collection() {
    let mut metrics = Metrics::new();
    metrics.inc_read_ops();
    metrics.inc_read_ops();
    metrics.add_read_bytes(1024);
    metrics.inc_write_ops();
    metrics.add_write_bytes(512);
    assert_eq!(metrics.read_ops, 2);
    assert_eq!(metrics.read_bytes, 1024);
    assert_eq!(metrics.write_ops, 1);
    assert_eq!(metrics.write_bytes, 512);
}

fn create_manager() -> InodeManager {
    let config = PermissionConfig {
        mode: PermissionMode::Fixed,
        fixed: FixedPermission { uid: 1000, gid: 1000, file_mode: 0o644, dir_mode: 0o755 },
    };
    InodeManager::new(config)
}

#[test]
fn test_directory_hierarchy() {
    let mut manager = create_manager();
    let dir1 = manager.get_or_create_inode("dir1", true, 0);
    let dir2 = manager.get_or_create_inode("dir1/dir2", true, 0);
    let file = manager.get_or_create_inode("dir1/dir2/file.txt", false, 100);
    assert!(manager.get_entry(dir1).unwrap().is_dir);
    assert!(manager.get_entry(dir2).unwrap().is_dir);
    assert!(!manager.get_entry(file).unwrap().is_dir);
    assert_eq!(manager.get_path(dir1), Some("dir1".to_string()));
    assert_eq!(manager.get_path(dir2), Some("dir1/dir2".to_string()));
    assert_eq!(manager.get_path(file), Some("dir1/dir2/file.txt".to_string()));
}

#[test]
fn test_rename_preserves_inode() {
    let mut manager = create_manager();
    let inode = manager.get_or_create_inode("old_name.txt", false, 100);
    let original_attr = manager.get_entry(inode).unwrap().attr.clone();
    manager.rename("old_name.txt", "new_name.txt");
    assert_eq!(manager.get_inode("new_name.txt"), Some(inode));
    let new_attr = manager.get_entry(inode).unwrap().attr;
    assert_eq!(new_attr.size, original_attr.size);
}

#[test]
fn test_metadata_cache_workflow() {
    let config = MetadataCacheConfig {
        attr_ttl: Duration::from_secs(60),
        dir_ttl: Duration::from_secs(60),
        negative_ttl: Duration::from_secs(30),
        max_entries: 10000,
    };
    let mut metrics = Metrics::new();
    let mut cache = MetadataCache::new(config);
    let attr = FileAttr::file(42, 1024, 1000, 1000, 0o644);
    cache.put_attr(42, attr);
    assert!(cache.get_attr(42, &mut metrics).is_some());
    cache.update_attr(42, |mut a| {
        a.size = 2048;
        a
    });
    assert_eq!(cache.get_attr(42, &mut metrics).unwrap().size, 2048);
    cache.invalidate_attr(42);
    assert!(cache.get_attr(42, &mut metrics).is_none());
}

#[test]
fn test_data_cache_large_file() {
    let config = CacheConfig {
        memory_limit: ByteSize::mb(10).as_u64(),
        disk_limit: ByteSize::mb(0).as_u64(),
        cache_dir: None,
        block_size: ByteSize::mb(1).as_u64(),
        metadata: Default::default(),
    };
    let mut metrics = Metrics::new();
    let mut cache = DataCache::new(&config);
    for i in 0..5u64 {
        let data = Bytes::from(vec![i as u8; 1024 * 1024]);
        cache.put(1, i * 1024 * 1024, data);
    }
    for i in 0..5u64 {
        let cached = cache.get(1, i * 1024 * 1024, &mut metrics);
        assert!(cached.is_some());
        assert_eq!(cached.unwrap()[0], i as u8);
    }
}

#[test]
fn test_readahead_sequential_pattern() {
    let config = ReadaheadConfig {
        enable: true,
        window_size: 4 * 1024 * 1024,
        concurrency: 4,
        seq_threshold: 3,
        prefetch_ttl: Duration::from_secs(30),
    };
    let mut manager = ReadaheadManager::new(config);
    let mut prefetch_triggered = false;
    for i in 0..10u64 {
        let request = manager.record_read(1, i * 4096, 4096);
        if request.is_some() {
            prefetch_triggered = true;
            assert!(request.unwrap().offset > i * 4096);
        }
    }
    assert!(prefetch_triggered);
}

#[test]
fn test_multiple_handles_same_file() {
    let mut manager = HandleManager::new();
    let h1 = manager.open(1, libc::O_RDONLY as u32, false);
    let h2 = manager.open(1, libc::O_RDONLY as u32, false);
    let h3 = manager.open(1, libc::O_RDWR as u32, false);
    assert!(manager.get(h1).is_some());
    assert!(manager.get(h2).is_some());
    assert!(manager.get(h3).is_some());
    assert_eq!(manager.handles_for_inode(1).len(), 3);
    assert!(manager.has_writable_handles(1));
    manager.close(h3);
    assert!(!manager.has_writable_handles(1));
    assert!(manager.has_open_handles(1));
    manager.close(h1);
    manager.close(h2);
    assert!(!manager.has_open_handles(1));
}

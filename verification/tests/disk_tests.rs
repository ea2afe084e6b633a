//! The disk tier's index: file names, making room, recording, use order and
//! invalidation, alone and inside the data cache.

use bytes::Bytes;

use obsfuse::cache::data::BlockKey;
use obsfuse::cache::disk::{file_name, DiskIndex};
use obsfuse::cache::DataCache;
use obsfuse::config::{CacheConfig, MetadataCacheConfig};
use obsfuse::utils::Metrics;

fn key(inode: u64, offset: u64) -> BlockKey {
    BlockKey { inode, offset }
}

#[test]
fn test_disk_file_name() {
    assert_eq!(file_name(key(12, 65536)), "12_65536");
    assert_eq!(file_name(key(0, 0)), "0_0");
}

#[test]
fn test_reserve_within_limit_evicts_nothing() {
    let mut index = DiskIndex::new(100);
    let (fits, gone) = index.reserve(60);
    assert!(fits);
    assert!(gone.is_empty());
    index.record(key(1, 0), 60);
    assert_eq!(index.entry_count(), 1);
}

#[test]
fn test_reserve_evicts_least_recently_used_first() {
    let mut index = DiskIndex::new(100);
    index.record(key(1, 0), 40);
    index.record(key(2, 0), 40);
    assert!(index.touch(key(1, 0)));
    let (fits, gone) = index.reserve(30);
    assert!(fits);
    assert_eq!(gone, vec![key(2, 0)]);
    index.record(key(3, 0), 30);
    assert_eq!(index.entry_count(), 2);
    assert!(index.touch(key(1, 0)));
    assert!(!index.touch(key(2, 0)));
}

#[test]
fn test_reserve_larger_than_limit_empties_and_refuses() {
    let mut index = DiskIndex::new(50);
    index.record(key(1, 0), 20);
    index.record(key(1, 4096), 20);
    let (fits, gone) = index.reserve(80);
    assert!(!fits);
    assert_eq!(gone, vec![key(1, 0), key(1, 4096)]);
    assert_eq!(index.entry_count(), 0);
}

#[test]
fn test_invalidate_and_clear_return_keys() {
    let mut index = DiskIndex::new(1000);
    index.record(key(1, 0), 10);
    index.record(key(2, 0), 10);
    index.record(key(1, 8), 10);
    let mut gone = index.invalidate(1);
    gone.sort_by_key(|k| k.offset);
    assert_eq!(gone, vec![key(1, 0), key(1, 8)]);
    assert_eq!(index.entry_count(), 1);
    assert_eq!(index.clear(), vec![key(2, 0)]);
    assert_eq!(index.entry_count(), 0);
}

#[test]
fn test_rerecording_a_block_keeps_one_entry() {
    let mut index = DiskIndex::new(1000);
    index.record(key(5, 0), 10);
    index.record(key(5, 0), 12);
    assert_eq!(index.entry_count(), 1);
}

fn cache_with_disk(disk_limit: u64) -> DataCache {
    let config = CacheConfig {
        memory_limit: 8,
        disk_limit,
        cache_dir: Some("/tmp/blocks".to_string()),
        block_size: 4,
        metadata: MetadataCacheConfig::default(),
    };
    DataCache::new(&config)
}

#[test]
fn test_data_cache_disk_tier_round() {
    let mut metrics = Metrics::new();
    let mut cache = cache_with_disk(16);
    assert!(cache.put(1, 0, Bytes::from(vec![1u8; 4])).is_empty());
    assert!(cache.put(1, 4, Bytes::from(vec![2u8; 4])).is_empty());
    let evicted = cache.put(1, 8, Bytes::from(vec![3u8; 4]));
    assert_eq!(evicted.len(), 1);
    assert_eq!(evicted[0].key, key(1, 0));
    let (fits, gone) = cache.disk_reserve(evicted[0].data.len() as u64);
    assert!(fits);
    assert!(gone.is_empty());
    cache.disk_record(evicted[0].key, 4);
    assert_eq!(cache.stats().disk_entries, 1);

    assert!(cache.get(1, 1, &mut metrics).is_none());
    assert_eq!(cache.disk_lookup(1, 1), Some(key(1, 0)));
    assert_eq!(cache.disk_lookup(9, 0), None);
    let (data, _) = cache.promote(1, 1, Some(Bytes::from(vec![1u8; 4])), &mut metrics);
    assert_eq!(data.unwrap().as_ref(), &[1u8; 4]);

    assert_eq!(cache.invalidate(1), vec![key(1, 0)]);
    assert_eq!(cache.stats().disk_entries, 0);
    assert!(cache.clear().is_empty());
}

#[test]
fn test_data_cache_without_disk_tier() {
    let config = CacheConfig {
        memory_limit: 8,
        disk_limit: 100,
        cache_dir: None,
        block_size: 4,
        metadata: MetadataCacheConfig::default(),
    };
    let mut cache = DataCache::new(&config);
    assert_eq!(cache.disk_reserve(4), (false, vec![]));
    assert_eq!(cache.disk_lookup(1, 0), None);
    assert_eq!(cache.stats().disk_entries, 0);
}

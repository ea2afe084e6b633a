//! The filesystem's decisions between storage calls: lookups, directory
//! reads, reads and writes through the caches, and namespace changes.

use std::time::{Duration, SystemTime};

use bytes::Bytes;

use obsfuse::config::Config;
use obsfuse::fs::attr::SetAttrFlags;
use obsfuse::fs::fs_core::{
    dir_key_of, is_hidden_name, lookup_after_probe, stat_error, FsError, GetattrStart, LookupNext, LookupProbe, LookupStart,
    ObsFsCore, ReadStart,
};
use obsfuse::fs::inode::ROOT_INODE;
use obsfuse::fs::platform::FileKind;
use obsfuse::storage::ObjectMeta;
use obsfuse::utils::error::StorageErrorKind;
use obsfuse::utils::Metrics;

fn core_with_prefix(prefix: Option<&str>) -> ObsFsCore {
    let mut config = Config::default();
    config.obs.bucket = "bucket".to_string();
    config.obs.prefix = prefix.map(|p| p.to_string());
    ObsFsCore::new(config, Metrics::new())
}

fn meta(path: &str, size: u64, is_dir: bool) -> ObjectMeta {
    ObjectMeta { path: path.to_string(), size, last_modified: None, is_dir, content_type: None, etag: None }
}

#[test]
fn test_fs_error_constructors() {
    assert_eq!(FsError::not_found().errno, libc::ENOENT);
    assert_eq!(FsError::io_error().errno, libc::EIO);
    assert_eq!(FsError::not_empty().errno, libc::ENOTEMPTY);
    assert_eq!(FsError::from(libc::EACCES), FsError::new(libc::EACCES));
}

#[test]
fn test_stat_error_kinds() {
    assert_eq!(stat_error(StorageErrorKind::NotFound).errno, libc::ENOENT);
    assert_eq!(stat_error(StorageErrorKind::PermissionDenied).errno, libc::EIO);
    assert_eq!(stat_error(StorageErrorKind::Unexpected).errno, libc::EIO);
}

#[test]
fn test_dir_key_and_hidden_names() {
    assert_eq!(dir_key_of("a/b"), "a/b/");
    assert_eq!(dir_key_of("a/b///"), "a/b/");
    assert!(is_hidden_name(""));
    assert!(is_hidden_name("."));
    assert!(is_hidden_name(".."));
    assert!(!is_hidden_name("..."));
    assert!(!is_hidden_name(".hidden"));
}

#[test]
fn test_obs_path_with_and_without_prefix() {
    let plain = core_with_prefix(None);
    assert_eq!(plain.obs_path("a/b.txt"), "a/b.txt");
    let prefixed = core_with_prefix(Some("base//"));
    assert_eq!(prefixed.obs_path("a/b.txt"), "base/a/b.txt");
    assert_eq!(prefixed.obs_path(""), "base//");
}

#[test]
fn test_lookup_fetch_then_found() {
    let mut core = core_with_prefix(Some("p"));
    let (child, key) = match core.lookup_start(ROOT_INODE, "a.txt").unwrap() {
        LookupStart::Fetch { child_path, obs_path } => (child_path, obs_path),
        LookupStart::Found(..) => panic!("nothing is cached yet"),
    };
    assert_eq!(child, "a.txt");
    assert_eq!(key, "p/a.txt");
    let (inode, attr) = core.lookup_found(&child, &meta("p/a.txt", 77, false));
    assert_ne!(inode, ROOT_INODE);
    assert_eq!(attr.size, 77);
    assert_eq!(attr.kind, FileKind::RegularFile);
    match core.lookup_start(ROOT_INODE, "a.txt").unwrap() {
        LookupStart::Found(i, a) => {
            assert_eq!(i, inode);
            assert_eq!(a.size, 77);
        }
        LookupStart::Fetch { .. } => panic!("the attributes were cached"),
    }
}

#[test]
fn test_lookup_missing_is_remembered() {
    let mut core = core_with_prefix(None);
    let err = core.lookup_missing("ghost.txt");
    assert_eq!(err.errno, libc::ENOENT);
    assert_eq!(core.lookup_start(ROOT_INODE, "ghost.txt").err(), Some(FsError::not_found()));
}

#[test]
fn test_lookup_in_unknown_parent() {
    let mut core = core_with_prefix(None);
    assert_eq!(core.lookup_start(999, "x").err(), Some(FsError::not_found()));
}

#[test]
fn test_lookup_implicit_dir() {
    let mut core = core_with_prefix(None);
    let (inode, attr) = core.lookup_implicit_dir("photos");
    assert_eq!(attr.kind, FileKind::Directory);
    assert_eq!(attr.ino, inode);
    assert_eq!(core.inode_mgr.get_inode("photos"), Some(inode));
}

#[test]
fn test_readdir_root_listing() {
    let mut core = core_with_prefix(None);
    let start = core.readdir_start(ROOT_INODE, 0).unwrap();
    assert_eq!(start.path, "");
    assert_eq!(start.list_prefix, "");
    assert_eq!(start.entries.len(), 2);
    assert_eq!(start.entries[0].name, ".");
    assert_eq!(start.entries[1].name, "..");
    let metas = vec![meta("docs/", 0, true), meta("a.txt", 5, false), meta("docs/.", 0, false)];
    let entries = core.readdir_finish(ROOT_INODE, &start.path, 0, start.entries, &metas);
    let names: Vec<&str> = entries.iter().map(|e| e.name.as_str()).collect();
    assert_eq!(names, vec![".", "..", "docs", "a.txt"]);
    assert_eq!(entries[2].kind, FileKind::Directory);
    assert_eq!(entries[3].kind, FileKind::RegularFile);
    assert_eq!(entries[2].offset, 3);
    assert_eq!(entries[3].offset, 4);
    let docs = core.inode_mgr.get_inode("docs").unwrap();
    assert_eq!(entries[2].inode, docs);
}

#[test]
fn test_readdir_from_offset_skips_seen_entries() {
    let mut core = core_with_prefix(None);
    let start = core.readdir_start(ROOT_INODE, 3).unwrap();
    assert!(start.entries.is_empty());
    let metas = vec![meta("one", 1, false), meta("two", 2, false)];
    let entries = core.readdir_finish(ROOT_INODE, &start.path, 3, start.entries, &metas);
    assert_eq!(entries.len(), 1);
    assert_eq!(entries[0].name, "two");
    assert_eq!(entries[0].offset, 4);
}

#[test]
fn test_readdir_subdirectory_prefix() {
    let mut core = core_with_prefix(Some("base"));
    let (dir, _) = core.lookup_implicit_dir("music");
    let start = core.readdir_start(dir, 0).unwrap();
    assert_eq!(start.list_prefix, "base/music/");
    assert_eq!(start.entries[1].inode, ROOT_INODE);
    assert!(core.readdir_start(12345, 0).is_err());
}

#[test]
fn test_read_fetch_then_cached_then_invalidated_by_write() {
    let mut core = core_with_prefix(None);
    let (inode, _) = core.lookup_found("f.bin", &meta("f.bin", 8, false));
    let fh = core.do_open(inode, libc::O_RDWR as u32);
    match core.read_start(inode, fh, 0, 4).unwrap() {
        ReadStart::Fetch { obs_path } => assert_eq!(obs_path, "f.bin"),
        ReadStart::Data(_) => panic!("nothing is cached yet"),
        ReadStart::Disk { .. } => panic!("there is no disk tier"),
        ReadStart::Flush => panic!("nothing is buffered"),
    }
    let (data, _prefetch, evicted) = core.read_finish(inode, 0, 4, Bytes::from(vec![1u8, 2, 3, 4, 5, 6, 7, 8]));
    assert_eq!(data.len(), 8);
    assert!(evicted.is_empty());
    match core.read_start(inode, fh, 2, 4).unwrap() {
        ReadStart::Data(d) => assert_eq!(d.as_ref(), &[3u8, 4, 5, 6]),
        ReadStart::Fetch { .. } => panic!("the block was cached"),
        ReadStart::Disk { .. } => panic!("there is no disk tier"),
        ReadStart::Flush => panic!("nothing is buffered"),
    }
    core.write_finish(inode, fh, 0, 2);
    let handle = core.handle_mgr.get(fh).unwrap();
    assert!(handle.dirty);
    assert_eq!(handle.position, 2);
    match core.read_start(inode, fh, 0, 4).unwrap() {
        ReadStart::Fetch { .. } => {}
        ReadStart::Data(_) => panic!("the written block must have left the cache"),
        ReadStart::Disk { .. } => panic!("there is no disk tier"),
        ReadStart::Flush => panic!("nothing is buffered"),
    }
}

#[test]
fn test_read_unknown_inode() {
    let mut core = core_with_prefix(None);
    assert_eq!(core.read_start(77, 1, 0, 10).err(), Some(FsError::not_found()));
}

#[test]
fn test_write_start_gives_key_and_size() {
    let mut core = core_with_prefix(Some("p/"));
    let (inode, _) = core.lookup_found("w.txt", &meta("p/w.txt", 42, false));
    assert_eq!(core.write_start(inode).unwrap(), ("p/w.txt".to_string(), 42));
    assert!(core.write_start(5000).is_err());
}

#[test]
fn test_getattr_cached_and_fetched() {
    let mut core = core_with_prefix(None);
    let (inode, _) = core.lookup_found("g.txt", &meta("g.txt", 3, false));
    match core.getattr_start(inode).unwrap() {
        GetattrStart::Cached(a) => assert_eq!(a.size, 3),
        GetattrStart::Fetch(_) => panic!("cached"),
    }
    core.metadata_cache.invalidate_attr(inode);
    match core.getattr_start(inode).unwrap() {
        GetattrStart::Fetch(key) => assert_eq!(key, "g.txt"),
        GetattrStart::Cached(_) => panic!("invalidated"),
    }
    let attr = core.getattr_finish(inode, &meta("g.txt", 9, false));
    assert_eq!(attr.size, 9);
    assert!(core.getattr_start(999).is_err());
    assert_eq!(core.metrics.getattr_ops, 3);
}

#[test]
fn test_create_mkdir_unlink_rmdir() {
    let mut core = core_with_prefix(None);
    let (dir, dattr, ) = core.mkdir_finish(ROOT_INODE, "d", 0o700);
    assert_eq!(dattr.kind, FileKind::Directory);
    assert_eq!(dattr.perm, 0o700);
    let (file, fattr, fh) = core.create_finish(dir, "d/f.txt", 0o600, libc::O_WRONLY as u32);
    assert_eq!(fattr.kind, FileKind::RegularFile);
    assert_eq!(fattr.size, 0);
    assert!(core.handle_mgr.get(fh).is_some());
    assert_eq!(core.inode_mgr.get_inode("d/f.txt"), Some(file));

    let (child, prefix) = core.rmdir_start(ROOT_INODE, "d").unwrap();
    assert_eq!(child, "d");
    assert_eq!(prefix, "d/");
    let listing = vec![meta("d/", 0, true), meta("d/f.txt", 0, false)];
    assert_eq!(ObsFsCore::rmdir_check(&prefix, &listing).err(), Some(FsError::not_empty()));

    core.unlink_finish(dir, "d/f.txt");
    assert_eq!(core.inode_mgr.get_inode("d/f.txt"), None);
    let listing = vec![meta("d/", 0, true), meta("d/.", 0, false)];
    assert!(ObsFsCore::rmdir_check(&prefix, &listing).is_ok());
    core.rmdir_finish(ROOT_INODE, "d");
    assert_eq!(core.inode_mgr.get_inode("d"), None);
}

#[test]
fn test_rename_moves_the_inode() {
    let mut core = core_with_prefix(Some("k"));
    let (inode, _) = core.lookup_found("old.txt", &meta("k/old.txt", 1, false));
    let (old_path, new_path, old_key, new_key) = core.rename_start(ROOT_INODE, "old.txt", ROOT_INODE, "new.txt").unwrap();
    assert_eq!(old_path, "old.txt");
    assert_eq!(new_path, "new.txt");
    assert_eq!(old_key, "k/old.txt");
    assert_eq!(new_key, "k/new.txt");
    core.rename_finish(ROOT_INODE, ROOT_INODE, &old_path, &new_path);
    assert_eq!(core.inode_mgr.get_inode("new.txt"), Some(inode));
    assert_eq!(core.inode_mgr.get_inode("old.txt"), None);
    assert!(core.rename_start(ROOT_INODE, "a", 404, "b").is_err());
}

#[test]
fn test_open_close_and_access() {
    let mut core = core_with_prefix(None);
    let (inode, _) = core.lookup_found("o.txt", &meta("o.txt", 0, false));
    let fh = core.do_open(inode, libc::O_RDONLY as u32);
    let dh = core.do_opendir(ROOT_INODE, 0);
    assert_ne!(fh, dh);
    assert!(core.do_access(inode).is_ok());
    assert_eq!(core.do_access(31337).err(), Some(FsError::not_found()));
    core.do_close(fh);
    assert!(core.handle_mgr.get(fh).is_none());
    core.release_finish(ROOT_INODE, dh);
    assert!(core.handle_mgr.get(dh).is_none());
}

#[test]
fn test_truncate_and_setattr() {
    let mut core = core_with_prefix(None);
    let (inode, _) = core.lookup_found("t.txt", &meta("t.txt", 100, false));
    assert_eq!(core.truncate_start(inode).unwrap(), "t.txt");
    core.truncate_finish(inode);
    let flags = SetAttrFlags { size: Some(0), mode: Some(0o600), ..Default::default() };
    let attr = core.setattr_finish(inode, &flags).unwrap();
    assert_eq!(attr.size, 0);
    assert_eq!(attr.perm, 0o600);
    assert_eq!(core.setattr_finish(4040, &flags).err(), Some(FsError::not_found()));
}

#[test]
fn test_read_through_disk_tier() {
    let mut config = Config::default();
    config.cache.cache_dir = Some("/tmp/obsfuse-blocks".to_string());
    config.cache.memory_limit = 4;
    config.cache.block_size = 4;
    config.cache.disk_limit = 100;
    let mut core = ObsFsCore::new(config, Metrics::new());
    let (inode, _) = core.lookup_found("d.bin", &meta("d.bin", 8, false));
    let fh = core.do_open(inode, libc::O_RDONLY as u32);
    let (_, _, evicted) = core.read_finish(inode, 0, 4, Bytes::from(vec![1u8, 2, 3, 4]));
    assert!(evicted.is_empty());
    let (_, _, evicted) = core.read_finish(inode, 4, 4, Bytes::from(vec![5u8, 6, 7, 8]));
    assert_eq!(evicted.len(), 1);
    let (fits, gone) = core.data_cache.disk_reserve(4);
    assert!(fits && gone.is_empty());
    core.data_cache.disk_record(evicted[0].key, 4);
    let key = match core.read_start(inode, fh, 1, 2).unwrap() {
        ReadStart::Disk { key, obs_path } => {
            assert_eq!(obs_path, "d.bin");
            key
        }
        _ => panic!("the block is on disk"),
    };
    assert_eq!(key.offset, 0);
    let hits = core.metrics.read_cache_hits;
    let (data, _) = core.read_disk_finish(inode, 1, 2, Some(Bytes::from(vec![1u8, 2, 3, 4])));
    assert_eq!(data.unwrap().as_ref(), &[2u8, 3]);
    assert_eq!(core.metrics.read_cache_hits, hits + 1);
    let misses = core.metrics.read_cache_misses;
    let (data, evicted) = core.read_disk_finish(inode, 1, 2, None);
    assert!(data.is_none() && evicted.is_empty());
    assert_eq!(core.metrics.read_cache_misses, misses + 1);
    let gone = core.truncate_finish(inode);
    assert_eq!(gone.len(), 1);
}

#[test]
fn test_lookup_after_create_finds_the_file() {
    let mut core = core_with_prefix(None);
    core.lookup_missing("new.txt");
    assert!(core.lookup_start(ROOT_INODE, "new.txt").is_err());
    let (inode, attr, _fh) = core.create_finish(ROOT_INODE, "new.txt", 0o640, libc::O_WRONLY as u32);
    match core.lookup_start(ROOT_INODE, "new.txt").unwrap() {
        LookupStart::Found(i, a) => {
            assert_eq!(i, inode);
            assert_eq!(a.perm, attr.perm);
            assert_eq!(a.size, 0);
        }
        LookupStart::Fetch { .. } => panic!("the created file's attributes are cached"),
    }
}

#[test]
fn test_setattr_times_apply_without_cached_attributes() {
    let mut core = core_with_prefix(None);
    let t = SystemTime::UNIX_EPOCH + Duration::from_secs(1000);
    let flags = SetAttrFlags { atime: Some(t), mtime: Some(t), ..Default::default() };
    let attr = core.setattr_finish(ROOT_INODE, &flags).unwrap();
    assert_eq!(attr.atime, t);
    assert_eq!(attr.mtime, t);
    assert_eq!(attr.ino, ROOT_INODE);
    assert_eq!(attr.kind, FileKind::Directory);
    let flags = SetAttrFlags { mode: Some(0o40700), ..Default::default() };
    assert_eq!(core.setattr_finish(ROOT_INODE, &flags).unwrap().perm, 0o700);
}

#[test]
fn test_unaligned_reads_are_not_cached_as_blocks() {
    let mut core = core_with_prefix(None);
    let (inode, _) = core.lookup_found("u.bin", &meta("u.bin", 10, false));
    let fh = core.do_open(inode, libc::O_RDONLY as u32);
    core.read_finish(inode, 3, 4, Bytes::from(vec![3u8, 4, 5, 6]));
    match core.read_start(inode, fh, 0, 4).unwrap() {
        ReadStart::Fetch { .. } => {}
        ReadStart::Data(_) => panic!("bytes from the middle of a block must not stand for the block"),
        ReadStart::Disk { .. } => panic!("there is no disk tier"),
        ReadStart::Flush => panic!("nothing is buffered"),
    }
    core.read_finish(inode, 0, 10, Bytes::from(vec![0u8, 1, 2, 3, 4, 5, 6, 7, 8, 9]));
    match core.read_start(inode, fh, 3, 4).unwrap() {
        ReadStart::Data(d) => assert_eq!(d.as_ref(), &[3u8, 4, 5, 6]),
        _ => panic!("the block read from its start is cached"),
    }
    assert_eq!(core.handle_mgr.get(fh).unwrap().position, 7);
}

#[test]
fn test_lookup_after_rename_is_not_hidden_by_a_miss() {
    let mut core = core_with_prefix(None);
    core.lookup_missing("b.txt");
    assert!(core.lookup_start(ROOT_INODE, "b.txt").is_err());
    let (inode, _) = core.lookup_found("a.txt", &meta("a.txt", 5, false));
    core.rename_finish(ROOT_INODE, ROOT_INODE, "a.txt", "b.txt");
    assert!(core.lookup_start(ROOT_INODE, "b.txt").is_ok());
    assert_eq!(core.inode_mgr.get_inode("b.txt"), Some(inode));
}

#[test]
fn test_lookup_with_ages() {
    let mut core = core_with_prefix(None);
    let (inode, _) = core.lookup_found("c.txt", &meta("c.txt", 5, false));
    match core.lookup_start_after(ROOT_INODE, "c.txt", Duration::from_secs(0), Duration::from_secs(1)).unwrap() {
        LookupStart::Found(i, a) => {
            assert_eq!(i, inode);
            assert_eq!(a.size, 5);
        }
        LookupStart::Fetch { .. } => panic!("fresh attributes answer the lookup"),
    }
    match core.lookup_start_after(ROOT_INODE, "c.txt", Duration::from_secs(0), Duration::from_secs(100_000)).unwrap() {
        LookupStart::Fetch { child_path, .. } => assert_eq!(child_path, "c.txt"),
        LookupStart::Found(..) => panic!("expired attributes do not answer"),
    }
    core.lookup_missing("gone.txt");
    assert!(core.lookup_start_after(ROOT_INODE, "gone.txt", Duration::from_secs(1), Duration::from_secs(0)).is_err());
    assert!(core.lookup_start_after(ROOT_INODE, "gone.txt", Duration::from_secs(100_000), Duration::from_secs(0)).is_ok());
}

#[test]
fn test_read_flushes_buffered_writes_first() {
    let mut core = core_with_prefix(None);
    let (inode, _) = core.lookup_found("w.bin", &meta("w.bin", 0, false));
    let fh = core.do_open(inode, libc::O_RDWR as u32);
    let mut metrics = Metrics::new();
    core.write_buffer.begin_write(inode, "w.bin", 0, b"abc", 0, &mut metrics);
    let ops = core.metrics.read_ops;
    assert!(matches!(core.read_start(inode, fh, 0, 3).unwrap(), ReadStart::Flush));
    assert_eq!(core.metrics.read_ops, ops);
    let pending = core.write_buffer.take_flush(inode, &mut metrics).unwrap();
    assert_eq!(pending.data.as_ref(), b"abc");
    core.write_buffer.finish_flush(inode, &mut metrics);
    assert!(matches!(core.read_start(inode, fh, 0, 3).unwrap(), ReadStart::Fetch { .. }));
    assert_eq!(core.metrics.read_ops, ops + 1);
}

#[test]
fn test_readdir_resume_neither_repeats_nor_drops() {
    let metas = vec![meta("a", 1, false), meta("b", 2, false), meta("c", 3, false)];
    let mut core = core_with_prefix(None);
    let first = core.readdir_start(ROOT_INODE, 0).unwrap();
    let all = core.readdir_finish(ROOT_INODE, &first.path, 0, first.entries, &metas);
    let names: Vec<(String, i64)> = all.iter().map(|e| (e.name.clone(), e.offset)).collect();
    assert_eq!(
        names,
        vec![
            (".".to_string(), 1),
            ("..".to_string(), 2),
            ("a".to_string(), 3),
            ("b".to_string(), 4),
            ("c".to_string(), 5)
        ]
    );
    for e in &all {
        let start = core.readdir_start(ROOT_INODE, e.offset).unwrap();
        let rest = core.readdir_finish(ROOT_INODE, &start.path, e.offset, start.entries, &metas);
        let expected: Vec<(String, i64)> = names.iter().filter(|(_, o)| *o > e.offset).cloned().collect();
        let got: Vec<(String, i64)> = rest.iter().map(|e| (e.name.clone(), e.offset)).collect();
        assert_eq!(got, expected);
    }
}

#[test]
fn test_lookup_probe_order() {
    assert_eq!(lookup_after_probe(LookupProbe::File, true), LookupNext::File);
    assert_eq!(lookup_after_probe(LookupProbe::File, false), LookupNext::Probe(LookupProbe::DirMarker));
    assert_eq!(lookup_after_probe(LookupProbe::DirMarker, true), LookupNext::Dir);
    assert_eq!(lookup_after_probe(LookupProbe::DirMarker, false), LookupNext::Probe(LookupProbe::Listing));
    assert_eq!(lookup_after_probe(LookupProbe::Listing, true), LookupNext::ImplicitDir);
    assert_eq!(lookup_after_probe(LookupProbe::Listing, false), LookupNext::Missing);
}

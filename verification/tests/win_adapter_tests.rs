//! Decisions of the Windows adapter: statuses, paths, access rights,
//! listings after a marker and file information.

use std::time::{Duration, SystemTime};

use obsfuse::fs::dir::DirEntry;
use obsfuse::fs::fs_core::FsError;
use obsfuse::fs::inode::FileAttr;
use obsfuse::fs::platform::open_flags::{O_RDONLY, O_RDWR, O_WRONLY};
use obsfuse::fs::platform::{errno, FileKind, Timestamp, FILETIME_EPOCH_DIFF, FILE_ATTRIBUTE_DIRECTORY, FILE_ATTRIBUTE_NORMAL};
use obsfuse::fs::win_adapter::{
    apply_basic_info, build_file_info, creates_directory, deletes_on_cleanup, entries_after_marker, fs_err_to_status,
    has_real_entries, next_component, normalize_path, open_flags_for_access, split_parent, WinFspFileContext,
    CLEANUP_DELETE, FILE_DIRECTORY_FILE, GENERIC_READ, GENERIC_WRITE, STATUS_ACCESS_DENIED,
    STATUS_DIRECTORY_NOT_EMPTY, STATUS_FILE_IS_A_DIRECTORY, STATUS_INVALID_PARAMETER, STATUS_NOT_A_DIRECTORY,
    STATUS_OBJECT_NAME_NOT_FOUND, STATUS_UNSUCCESSFUL,
};

fn entry(name: &str, ino: u64, offset: i64) -> DirEntry {
    DirEntry::new(ino, name, FileKind::RegularFile, offset)
}

fn names(v: &[DirEntry]) -> Vec<String> {
    v.iter().map(|e| e.name.clone()).collect()
}

#[test]
fn test_status_for_each_errno() {
    assert_eq!(fs_err_to_status(FsError::new(errno::ENOENT)), STATUS_OBJECT_NAME_NOT_FOUND);
    assert_eq!(fs_err_to_status(FsError::new(errno::ENOTEMPTY)), STATUS_DIRECTORY_NOT_EMPTY);
    assert_eq!(fs_err_to_status(FsError::new(errno::EACCES)), STATUS_ACCESS_DENIED);
    assert_eq!(fs_err_to_status(FsError::new(errno::EISDIR)), STATUS_FILE_IS_A_DIRECTORY);
    assert_eq!(fs_err_to_status(FsError::new(errno::ENOTDIR)), STATUS_NOT_A_DIRECTORY);
    assert_eq!(fs_err_to_status(FsError::new(errno::EINVAL)), STATUS_INVALID_PARAMETER);
    assert_eq!(fs_err_to_status(FsError::io_error()), STATUS_UNSUCCESSFUL);
    assert_eq!(fs_err_to_status(FsError::not_found()), 0xC000_0034);
}

#[test]
fn test_normalize_windows_path() {
    assert_eq!(normalize_path("\\dir\\file.txt"), "dir/file.txt");
    assert_eq!(normalize_path("\\\\a\\b"), "a/b");
    assert_eq!(normalize_path("\\"), "");
    assert_eq!(normalize_path("plain"), "plain");
    assert_eq!(normalize_path("a\\\\b"), "a//b");
}

#[test]
fn test_split_parent_and_name() {
    assert_eq!(split_parent("dir/sub/file"), ("dir/sub".to_string(), "file".to_string()));
    assert_eq!(split_parent("file"), (String::new(), "file".to_string()));
    assert_eq!(split_parent("dir/"), ("dir".to_string(), String::new()));
}

#[test]
fn test_next_component_walks_a_path() {
    assert_eq!(next_component("//a/b/c"), ("a".to_string(), "/b/c".to_string()));
    assert_eq!(next_component("/b/c"), ("b".to_string(), "/c".to_string()));
    assert_eq!(next_component("c"), ("c".to_string(), String::new()));
    assert_eq!(next_component(""), (String::new(), String::new()));
}

#[test]
fn test_access_rights_to_open_flags() {
    assert_eq!(open_flags_for_access(GENERIC_READ), O_RDONLY);
    assert_eq!(open_flags_for_access(GENERIC_READ | GENERIC_WRITE), O_RDONLY);
    assert_eq!(open_flags_for_access(GENERIC_WRITE), O_WRONLY);
    assert_eq!(open_flags_for_access(0), O_RDWR);
}

#[test]
fn test_create_and_cleanup_flags() {
    assert!(creates_directory(FILE_DIRECTORY_FILE, 0));
    assert!(creates_directory(0, FILE_ATTRIBUTE_DIRECTORY));
    assert!(!creates_directory(0, FILE_ATTRIBUTE_NORMAL));
    assert!(deletes_on_cleanup(CLEANUP_DELETE));
    assert!(!deletes_on_cleanup(0x02));
}

#[test]
fn test_directory_with_only_dots_is_empty() {
    let dots = vec![entry(".", 1, 1), entry("..", 1, 2)];
    assert!(!has_real_entries(&dots));
    let full = vec![entry(".", 1, 1), entry("..", 1, 2), entry("f", 3, 3)];
    assert!(has_real_entries(&full));
    assert!(!has_real_entries(&Vec::new()));
}

#[test]
fn test_listing_resumes_after_marker() {
    let all = vec![entry("a", 2, 1), entry("b", 3, 2), entry("c", 4, 3)];
    assert_eq!(names(&entries_after_marker(&all, None)), vec!["a", "b", "c"]);
    assert_eq!(names(&entries_after_marker(&all, Some("a"))), vec!["b", "c"]);
    assert_eq!(names(&entries_after_marker(&all, Some("c"))), Vec::<String>::new());
    assert_eq!(names(&entries_after_marker(&all, Some("zz"))), Vec::<String>::new());
}

#[test]
fn test_file_info_of_attributes() {
    let mut attr = FileAttr::file(42, 1000, 0, 0, 0o644);
    let t = SystemTime::UNIX_EPOCH + Duration::from_secs(1);
    attr.atime = t;
    attr.mtime = t;
    attr.ctime = t;
    attr.crtime = SystemTime::UNIX_EPOCH;
    let info = build_file_info(&attr);
    assert_eq!(info.file_attributes, FILE_ATTRIBUTE_NORMAL);
    assert_eq!(info.file_size, 1000);
    assert_eq!(info.allocation_size, attr.blocks * 512);
    assert_eq!(info.index_number, 42);
    assert_eq!(info.last_write_time, FILETIME_EPOCH_DIFF + 10_000_000);
    assert_eq!(info.creation_time, FILETIME_EPOCH_DIFF);
    assert_eq!(info.hard_links, 0);

    let dir = FileAttr::directory(7, 0, 0, 0o755);
    assert_eq!(build_file_info(&dir).file_attributes, FILE_ATTRIBUTE_DIRECTORY);
}

#[test]
fn test_filetime_fits() {
    assert!(Timestamp { sec: 0, nsec: 0 }.filetime_fits());
    assert!(!Timestamp { sec: -1, nsec: 0 }.filetime_fits());
    assert!(!Timestamp { sec: i64::MAX, nsec: 0 }.filetime_fits());
}

#[test]
fn test_file_context_fields() {
    let ctx = WinFspFileContext { inode: 5, fh: 9, is_dir: true };
    let copy = ctx;
    assert_eq!(copy, ctx);
    assert!(copy.is_dir);
}

#[test]
fn test_basic_info_sets_nonzero_times() {
    let mut attr = FileAttr::file(3, 10, 0, 0, 0o644);
    let t = SystemTime::UNIX_EPOCH + Duration::from_secs(5);
    attr.atime = t;
    attr.mtime = t;
    attr.ctime = t;
    attr.crtime = t;
    let r = apply_basic_info(attr, 0, FILETIME_EPOCH_DIFF + 20_000_000, 0, FILETIME_EPOCH_DIFF);
    assert_eq!(r.crtime, t);
    assert_eq!(r.atime, SystemTime::UNIX_EPOCH + Duration::from_secs(2));
    assert_eq!(r.mtime, t);
    assert_eq!(r.ctime, SystemTime::UNIX_EPOCH);
    assert_eq!(r.size, 10);
    assert_eq!(r.ino, 3);
}

//! Tests of directory entries, listings and child names.

use std::time::Duration;

use obsfuse::fs::dir::{extract_dir_name, is_direct_child, DirEntry, DirEntryPlus, DirListing};
use obsfuse::fs::inode::FileAttr;
use obsfuse::fs::platform::FileKind;

#[test]
fn test_dir_entry_creation() {
    let entry = DirEntry::new(42, "test.txt", FileKind::RegularFile, 1);

    assert_eq!(entry.inode, 42);
    assert_eq!(entry.name, "test.txt".to_string());
    assert_eq!(entry.kind, FileKind::RegularFile);
    assert_eq!(entry.offset, 1);
}

#[test]
fn test_dir_entry_dot() {
    let entry = DirEntry::dot(42);

    assert_eq!(entry.inode, 42);
    assert_eq!(entry.name, ".".to_string());
    assert_eq!(entry.kind, FileKind::Directory);
    assert_eq!(entry.offset, 1);
}

#[test]
fn test_dir_entry_dotdot() {
    let entry = DirEntry::dotdot(1);

    assert_eq!(entry.inode, 1);
    assert_eq!(entry.name, "..".to_string());
    assert_eq!(entry.kind, FileKind::Directory);
    assert_eq!(entry.offset, 2);
}

#[test]
fn test_dir_entry_directory() {
    let entry = DirEntry::new(10, "subdir", FileKind::Directory, 5);

    assert_eq!(entry.kind, FileKind::Directory);
}

#[test]
fn test_dir_entry_plus_creation() {
    let entry = DirEntry::new(42, "file.txt", FileKind::RegularFile, 1);
    let attr = FileAttr::file(42, 1024, 1000, 1000, 0o644);

    let plus = DirEntryPlus::new(entry.clone(), Some(attr.clone()));

    assert_eq!(plus.entry.inode, 42);
    assert!(plus.attr.is_some());
    assert_eq!(plus.attr.unwrap().size, 1024);
}

#[test]
fn test_dir_entry_plus_no_attr() {
    let entry = DirEntry::new(42, "file.txt", FileKind::RegularFile, 1);
    let plus = DirEntryPlus::new(entry, None);

    assert!(plus.attr.is_none());
}

#[test]
fn test_dir_entry_plus_with_ttl() {
    let entry = DirEntry::new(42, "file.txt", FileKind::RegularFile, 1);
    let plus = DirEntryPlus::new(entry, None).with_ttl(Duration::from_secs(10), Duration::from_secs(5));

    assert_eq!(plus.attr_ttl, Duration::from_secs(10));
    assert_eq!(plus.entry_ttl, Duration::from_secs(5));
}

#[test]
fn test_dir_entry_plus_default_ttl() {
    let entry = DirEntry::new(42, "file.txt", FileKind::RegularFile, 1);
    let plus = DirEntryPlus::new(entry, None);

    assert_eq!(plus.attr_ttl, Duration::from_secs(1));
    assert_eq!(plus.entry_ttl, Duration::from_secs(1));
}

#[test]
fn test_dir_listing_new() {
    let entries = vec![DirEntry::dot(1), DirEntry::dotdot(1), DirEntry::new(2, "file.txt", FileKind::RegularFile, 3)];

    let listing = DirListing::new(entries);

    assert_eq!(listing.entries.len(), 3);
    assert!(listing.complete);
    assert!(listing.continuation_token.is_none());
}

#[test]
fn test_dir_listing_with_pagination() {
    let entries = vec![
        DirEntry::new(2, "file1.txt", FileKind::RegularFile, 1),
        DirEntry::new(3, "file2.txt", FileKind::RegularFile, 2),
    ];

    let listing = DirListing::with_pagination(entries, false, Some("next-token".to_string()));

    assert!(!listing.complete);
    assert_eq!(listing.continuation_token, Some("next-token".to_string()));
}

#[test]
fn test_dir_listing_from_offset() {
    let entries = vec![
        DirEntry::new(1, "a", FileKind::RegularFile, 1),
        DirEntry::new(2, "b", FileKind::RegularFile, 2),
        DirEntry::new(3, "c", FileKind::RegularFile, 3),
        DirEntry::new(4, "d", FileKind::RegularFile, 4),
    ];

    let listing = DirListing::new(entries);

    // Get entries after offset 2
    let after_2: Vec<_> = listing.from_offset(2);
    assert_eq!(after_2.len(), 2);
    assert_eq!(after_2[0].name, "c".to_string());
    assert_eq!(after_2[1].name, "d".to_string());
}

#[test]
fn test_dir_listing_from_offset_zero() {
    let entries =
        vec![DirEntry::new(1, "a", FileKind::RegularFile, 1), DirEntry::new(2, "b", FileKind::RegularFile, 2)];

    let listing = DirListing::new(entries);

    let all: Vec<_> = listing.from_offset(0);
    assert_eq!(all.len(), 2);
}

#[test]
fn test_dir_listing_from_offset_past_end() {
    let entries = vec![DirEntry::new(1, "a", FileKind::RegularFile, 1)];

    let listing = DirListing::new(entries);

    let none: Vec<_> = listing.from_offset(10);
    assert!(none.is_empty());
}

#[test]
fn test_extract_dir_name_file() {
    let name = extract_dir_name("prefix/file.txt", "prefix/");
    assert_eq!(name, Some("file.txt".to_string()));
}

#[test]
fn test_extract_dir_name_nested() {
    let name = extract_dir_name("prefix/dir/file.txt", "prefix/");
    assert_eq!(name, Some("dir".to_string()));
}

#[test]
fn test_extract_dir_name_directory() {
    let name = extract_dir_name("prefix/subdir/", "prefix/");
    assert_eq!(name, Some("subdir".to_string()));
}

#[test]
fn test_extract_dir_name_no_match() {
    let name = extract_dir_name("other/file.txt", "prefix/");
    assert!(name.is_none());
}

#[test]
fn test_extract_dir_name_empty_prefix() {
    let name = extract_dir_name("file.txt", "");
    assert_eq!(name, Some("file.txt".to_string()));
}

#[test]
fn test_extract_dir_name_prefix_only() {
    assert!(extract_dir_name("prefix/", "prefix/").is_none());
    assert_eq!(extract_dir_name("prefix//x/y", "prefix/"), Some("x".to_string()));
}

#[test]
fn test_is_direct_child_file() {
    assert!(is_direct_child("prefix/file.txt", "prefix/"));
}

#[test]
fn test_is_direct_child_directory() {
    assert!(is_direct_child("prefix/subdir/", "prefix/"));
}

#[test]
fn test_is_direct_child_nested() {
    // Nested files are NOT direct children
    assert!(!is_direct_child("prefix/dir/file.txt", "prefix/"));
}

#[test]
fn test_is_direct_child_no_match() {
    assert!(!is_direct_child("other/file.txt", "prefix/"));
}

#[test]
fn test_is_direct_child_empty() {
    assert!(!is_direct_child("prefix/", "prefix/"));
}

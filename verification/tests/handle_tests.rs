//! Tests of file handles: opening, flags, state updates and queries.

use obsfuse::fs::handle::{HandleManager, HandleState};

#[test]
fn test_handle_creation() {
    let mut manager = HandleManager::new();

    let h1 = manager.open(1, libc::O_RDONLY as u32, false);
    let h2 = manager.open(2, libc::O_RDONLY as u32, false);

    assert_ne!(h1, h2);
    assert!(h1 > 0);
    assert!(h2 > 0);
}

#[test]
fn test_handle_get() {
    let mut manager = HandleManager::new();

    let h = manager.open(42, libc::O_RDONLY as u32, false);

    let state = manager.get(h);
    assert!(state.is_some());

    let state = state.unwrap();
    assert_eq!(state.inode, 42);
}

#[test]
fn test_handle_get_non_existing() {
    let manager = HandleManager::new();
    assert!(manager.get(99999).is_none());
}

#[test]
fn test_handle_close() {
    let mut manager = HandleManager::new();

    let h = manager.open(1, libc::O_RDONLY as u32, false);
    assert!(manager.get(h).is_some());

    let closed = manager.close(h);
    assert!(closed.is_some());
    assert!(manager.get(h).is_none());
}

#[test]
fn test_handle_close_non_existing() {
    let mut manager = HandleManager::new();
    assert!(manager.close(99999).is_none());
}

#[test]
fn test_rdonly_flags() {
    let state = HandleState::new(1, libc::O_RDONLY as u32, false);

    assert!(state.readable);
    assert!(!state.writable);
}

#[test]
fn test_wronly_flags() {
    let state = HandleState::new(1, libc::O_WRONLY as u32, false);

    assert!(!state.readable);
    assert!(state.writable);
}

#[test]
fn test_rdwr_flags() {
    let state = HandleState::new(1, libc::O_RDWR as u32, false);

    assert!(state.readable);
    assert!(state.writable);
}

#[test]
fn test_append_flag() {
    let flags = (libc::O_WRONLY | libc::O_APPEND) as u32;
    let state = HandleState::new(1, flags, false);

    assert!(state.is_append());
}

#[test]
fn test_truncate_flag() {
    let flags = (libc::O_WRONLY | libc::O_TRUNC) as u32;
    let state = HandleState::new(1, flags, false);

    assert!(state.is_truncate());
}

#[test]
fn test_directory_handle() {
    let mut manager = HandleManager::new();

    let h = manager.open(1, libc::O_RDONLY as u32, true);
    let state = manager.get(h).unwrap();

    assert!(state.is_dir);
}

#[test]
fn test_update_position() {
    let mut manager = HandleManager::new();

    let h = manager.open(1, libc::O_RDONLY as u32, false);

    manager.update(h, |mut state| {
        state.update_position(0, 1024);
        state
    });

    let state = manager.get(h).unwrap();
    assert_eq!(state.position, 1024);

    manager.update(h, |mut state| {
        state.update_position(1024, 512);
        state
    });

    let state = manager.get(h).unwrap();
    assert_eq!(state.position, 1536);
}

#[test]
fn test_record_access() {
    let mut manager = HandleManager::new();

    let h = manager.open(1, libc::O_WRONLY as u32, false);
    manager.record_access(h, 100, 50, false);
    let state = manager.get(h).unwrap();
    assert_eq!(state.position, 150);
    assert!(!state.dirty);

    manager.record_access(h, 150, 10, true);
    let state = manager.get(h).unwrap();
    assert_eq!(state.position, 160);
    assert!(state.dirty);
}

#[test]
fn test_mark_dirty() {
    let mut manager = HandleManager::new();

    let h = manager.open(1, libc::O_WRONLY as u32, false);

    let state = manager.get(h).unwrap();
    assert!(!state.dirty);

    manager.update(h, |mut state| {
        state.mark_dirty();
        state
    });

    let state = manager.get(h).unwrap();
    assert!(state.dirty);
}

#[test]
fn test_handles_for_inode() {
    let mut manager = HandleManager::new();

    let h1 = manager.open(1, libc::O_RDONLY as u32, false);
    let h2 = manager.open(1, libc::O_RDWR as u32, false);
    let h3 = manager.open(2, libc::O_RDONLY as u32, false);

    let handles = manager.handles_for_inode(1);
    assert_eq!(handles.len(), 2);
    assert!(handles.contains(&h1));
    assert!(handles.contains(&h2));
    assert!(!handles.contains(&h3));
}

#[test]
fn test_has_open_handles() {
    let mut manager = HandleManager::new();

    assert!(!manager.has_open_handles(1));

    let h = manager.open(1, libc::O_RDONLY as u32, false);
    assert!(manager.has_open_handles(1));

    manager.close(h);
    assert!(!manager.has_open_handles(1));
}

#[test]
fn test_has_writable_handles() {
    let mut manager = HandleManager::new();

    let _h1 = manager.open(1, libc::O_RDONLY as u32, false);
    assert!(!manager.has_writable_handles(1));

    let h2 = manager.open(1, libc::O_WRONLY as u32, false);
    assert!(manager.has_writable_handles(1));

    manager.close(h2);
    assert!(!manager.has_writable_handles(1));
}

#[test]
fn test_dirty_handles() {
    let mut manager = HandleManager::new();

    let h1 = manager.open(1, libc::O_WRONLY as u32, false);
    let _h2 = manager.open(2, libc::O_WRONLY as u32, false);

    manager.update(h1, |mut state| {
        state.mark_dirty();
        state
    });

    let dirty = manager.dirty_handles();
    assert_eq!(dirty.len(), 1);
    assert!(dirty.contains(&h1));
}

#[test]
fn test_handle_stats() {
    let mut manager = HandleManager::new();

    // Empty
    let stats = manager.stats();
    assert_eq!(stats.total, 0);

    // Add various handles
    manager.open(1, libc::O_RDONLY as u32, false); // readable
    manager.open(2, libc::O_WRONLY as u32, false); // writable
    manager.open(3, libc::O_RDWR as u32, false); // both
    manager.open(4, libc::O_RDONLY as u32, true); // directory

    let stats = manager.stats();
    assert_eq!(stats.total, 4);
    assert_eq!(stats.readable, 3); // RDONLY + RDWR + dir
    assert_eq!(stats.writable, 2); // WRONLY + RDWR
    assert_eq!(stats.directories, 1);
    assert_eq!(stats.dirty, 0);
}

#[test]
fn test_handles_are_unique() {
    let mut manager = HandleManager::new();
    let mut handles: Vec<u64> = Vec::new();
    for _ in 0..10 {
        handles.push(manager.open(1, libc::O_RDONLY as u32, false));
    }
    let mut sorted = handles.clone();
    sorted.sort();
    sorted.dedup();
    assert_eq!(sorted.len(), 10);
}

#[test]
fn test_handle_numbers_not_reused_after_close() {
    let mut manager = HandleManager::new();
    let h1 = manager.open(1, libc::O_RDONLY as u32, false);
    manager.close(h1);
    let h2 = manager.open(1, libc::O_RDONLY as u32, false);
    assert_ne!(h1, h2);
    assert_eq!(h2, h1 + 1);
}

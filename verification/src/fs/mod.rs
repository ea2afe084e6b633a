//! Filesystem logic: inodes, handles, attributes, directories, permissions.

pub mod attr;
pub mod fs_core;
pub mod dir;
pub mod handle;
pub mod inode;
pub mod path_index;
pub mod permission;
pub mod platform;
pub mod win_adapter;

pub use inode::{FileAttr, InodeEntry, InodeManager, ROOT_INODE};
pub use permission::PermissionManager;

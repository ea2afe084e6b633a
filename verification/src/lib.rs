//! OBS FUSE: a filesystem that presents an object storage bucket as a
//! directory tree. This crate holds its caches, inode and handle tables,
//! permission rules and path handling.

pub mod utils;
pub mod cache;
pub mod config;
pub mod fs;
pub mod storage;

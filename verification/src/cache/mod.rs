//! Caches of the filesystem: file data by block, metadata, read-ahead and
//! write buffering.

pub mod data;
pub mod disk;
pub mod metadata;
pub mod readahead;
pub mod write_buffer;

pub use data::{BlockKey, DataCache, DataCacheStats};
pub use metadata::{CachedAttr, CachedDirEntry, MetadataCache, MetadataCacheStats};
pub use readahead::{PrefetchRequest, ReadaheadConfig, ReadaheadManager, ReadaheadStats};
pub use write_buffer::{FileWriteBuffer, WriteBuffer, WriteBufferConfig, WriteBufferStats};

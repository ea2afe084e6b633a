//! Object storage: what the filesystem knows of stored objects, multipart
//! upload bookkeeping and retry policy.

pub mod multipart;
pub mod obs;
pub mod retry;

pub use multipart::{MultipartConfig, MultipartUploadState, MultipartUploader, PartInfo};
pub use obs::{ObjectMeta, ObjectWriteMeta};
pub use retry::IsRetryable;

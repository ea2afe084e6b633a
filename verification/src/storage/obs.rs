//! Object metadata and the object keys the filesystem derives from paths.

use std::collections::HashMap;
use std::time::SystemTime;
use vstd::prelude::*;

use crate::fs::permission::{string_map_contents, string_map_new};

use crate::utils::text::{
    after_last, chars_of, find_last, push_char, skip_trailing, skip_trailing_at, string_of,
};

verus! {

/// Metadata for write operations
#[derive(Debug, Clone)]
pub struct ObjectWriteMeta {
    /// Content type
    pub content_type: Option<String>,
    /// Custom metadata (x-obs-meta-*)
    pub custom_meta: HashMap<String, String>,
}

impl Default for ObjectWriteMeta {
    /// No content type and no custom metadata.
    fn default() -> (r: Self)
        ensures
            r.content_type is None,
            string_map_contents(r.custom_meta) == (Map::<Seq<char>, Seq<char>>::empty()),
    {
        ObjectWriteMeta { content_type: None, custom_meta: string_map_new() }
    }
}

/// Object metadata
#[derive(Debug, Clone)]
pub struct ObjectMeta {
    /// Object path/key
    pub path: String,
    /// Object size in bytes
    pub size: u64,
    /// Last modified time
    pub last_modified: Option<SystemTime>,
    /// Is directory
    pub is_dir: bool,
    /// Content type
    pub content_type: Option<String>,
    /// ETag
    pub etag: Option<String>,
}

/// The name of an object: the part of its key after the last `/`, once
/// trailing slashes are dropped.
pub open spec fn object_name(path: Seq<char>) -> Seq<char> {
    after_last(skip_trailing(path, '/'), '/')
}

impl ObjectMeta {
    /// Get file name from path
    pub fn name(&self) -> (r: String)
        ensures
            r@ == object_name(self.path@),
    {
        let v = chars_of(self.path.as_str());
        let hi = skip_trailing_at(&v, 0, v.len(), '/');
        assert(v@.subrange(0, v@.len() as int) =~= v@);
        match find_last(&v, 0, hi, '/') {
            Some(k) => string_of(&v, k + 1, hi),
            None => string_of(&v, 0, hi),
        }
    }
}

/// The prefix under which a directory's objects are listed: the prefix
/// itself when empty or already ending in `/`, else the prefix and a `/`.
pub open spec fn listing_prefix(prefix: Seq<char>) -> Seq<char> {
    if prefix.len() == 0 || prefix.last() == '/' {
        prefix
    } else {
        prefix.push('/')
    }
}

/// Computes the prefix under which a directory's objects are listed.
pub fn dir_listing_prefix(prefix: &str) -> (r: String)
    ensures
        r@ == listing_prefix(prefix@),
{
    let mut r = prefix.to_owned();
    let v = chars_of(prefix);
    if v.len() == 0 || v[v.len() - 1] == '/' {
        r
    } else {
        push_char(&mut r, '/');
        r
    }
}

/// The key of a directory marker object: the path with a trailing `/`
/// added when it has none.
pub open spec fn marker_key(path: Seq<char>) -> Seq<char> {
    if path.len() > 0 && path.last() == '/' {
        path
    } else {
        path.push('/')
    }
}

/// Computes the key of a directory marker object.
pub fn dir_marker_key(path: &str) -> (r: String)
    ensures
        r@ == marker_key(path@),
{
    let mut r = path.to_owned();
    let v = chars_of(path);
    if v.len() > 0 && v[v.len() - 1] == '/' {
        r
    } else {
        push_char(&mut r, '/');
        r
    }
}

} // verus!

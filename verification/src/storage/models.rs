//! Records of the clipboard history, as the store keeps them.
use vstd::prelude::*;

verus! {

/// A local date and time as the store records it (`YYYY-MM-DD HH:MM:SS`).
#[derive(Clone, Copy, Debug, PartialEq, Eq)]
pub struct Timestamp {
    pub year: i32,
    pub month: u32,
    pub day: u32,
    pub hour: u32,
    pub minute: u32,
    pub second: u32,
}

/// One clipboard history record.
#[derive(Clone, Debug)]
pub struct ClipRecord {
    pub id: i64,
    pub content_hash: String,
    /// `"text"`, `"image"` or `"file"`.
    pub content_type: String,
    pub content_text: Option<String>,
    pub content_blob: Option<Vec<u8>>,
    pub source_app: Option<String>,
    /// `"local_clipboard"` or `"cloud_sync"`.
    pub source: String,
    pub is_favorite: bool,
    pub created_at: Timestamp,
    pub updated_at: Timestamp,
}

/// A record to insert; the store assigns id, favourite flag and timestamps.
#[derive(Clone, Debug)]
pub struct NewClipRecord {
    pub content_hash: String,
    pub content_type: String,
    pub content_text: Option<String>,
    pub content_blob: Option<Vec<u8>>,
    pub source_app: Option<String>,
    pub source: String,
}

/// Parameters of a history search.
#[derive(Clone, Debug)]
pub struct SearchQuery {
    pub keyword: Option<String>,
    pub content_type_filter: Option<String>,
    pub favorite_only: bool,
    pub limit: i64,
    pub offset: i64,
}

} // verus!

//! Records handed to and from the interface.
use vstd::prelude::*;

verus! {

/// A project as the project list shows it. Times are seconds since the epoch.
#[derive(Clone, Debug)]
pub struct ProjectMeta {
    pub id: String,
    pub name: String,
    pub created_at: u64,
    pub updated_at: Option<u64>,
    pub thumbnail: Option<String>,
}

/// Where an uploaded video can be fetched from, and what it is.
#[derive(Clone, Debug)]
pub struct MediaUploadResult {
    pub url: String,
    pub mime_type: String,
    pub size: u64,
}

impl MediaUploadResult {
    /// An uploaded MP4 video of `size` bytes, public at `url`.
    pub fn video(url: String, size: u64) -> (r: Self)
        ensures
            r.url == url,
            r.mime_type@ == "video/mp4"@,
            r.size == size,
    {
        MediaUploadResult { url, mime_type: String::from_str("video/mp4"), size }
    }
}

} // verus!

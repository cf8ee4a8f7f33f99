//! The common shape of the file handlers.

use vstd::prelude::*;

verus! {

/// A handler for one family of file formats: it says which MIME types it
/// accepts and extracts the text from a file's bytes.  Handlers are shared
/// across worker threads, hence the `Send + Sync` bound.
pub trait FileHandler: Send + Sync {
    /// Can this handler process files of the given MIME type?
    fn can_handle(&self, mime_type: &str) -> bool;

    /// Extracts text from the raw file content, or describes the failure.
    fn extract_text(&self, content: &[u8], filename: &str, mime_type: &str) -> Result<
        String,
        String,
    >;
}

} // verus!

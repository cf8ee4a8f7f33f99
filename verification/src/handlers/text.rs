//! Extraction of text from plain-text and text-based formats.

use vstd::prelude::*;

use crate::chars::str_eq;
use crate::handler::FileHandler;
use crate::text::{decode_text, decoded_or_empty, detect_encoding, detected_encoding_of,
    is_mime_type_text, is_text_mime};

verus! {

/// Handler for text-based formats: detects the character encoding of the
/// bytes, then decodes them.
pub struct TextHandler;

impl TextHandler {
    /// A new text handler.
    pub fn new() -> Self {
        TextHandler
    }

    /// Does the MIME type name a text-based format?
    pub fn is_mime_type_text(&self, mime_type: &str) -> (r: bool)
        ensures
            r == is_text_mime(mime_type@),
    {
        is_mime_type_text(mime_type)
    }

    /// Decodes bytes under the named encoding; an unrecognized name falls
    /// back to UTF-8, and malformed content yields the empty string.
    pub fn decode_text(&self, content: &[u8], encoding_name: &str) -> (r: String)
        ensures
            r@ == decoded_or_empty(content@, encoding_name@),
    {
        decode_text(content, encoding_name)
    }

    /// The name of the encoding detected for the content.
    fn detect_encoding(&self, content: &[u8]) -> (r: String)
        ensures
            r@ == detected_encoding_of(content@),
    {
        detect_encoding(content)
    }
}

impl FileHandler for TextHandler {
    fn can_handle(&self, mime_type: &str) -> bool {
        self.is_mime_type_text(mime_type) || str_eq(mime_type, "text/csv") || str_eq(
            mime_type,
            "text/tsv",
        ) || str_eq(mime_type, "text/tab-separated-values")
    }

    fn extract_text(&self, content: &[u8], _filename: &str, _mime_type: &str) -> Result<
        String,
        String,
    > {
        let encoding = self.detect_encoding(content);
        let text = self.decode_text(content, encoding.as_str());
        if text.as_str().is_empty() && content.len() > 0 {
            Err("Failed to decode text content".to_owned())
        } else {
            Ok(text)
        }
    }
}

} // verus!

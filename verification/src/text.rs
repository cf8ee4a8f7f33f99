//! Text-based content: MIME classification and byte decoding.

use vstd::prelude::*;

use crate::chars::{has_prefix, str_eq, str_starts_with};

verus! {

/// MIME types whose payload is text: everything under `text/`, plus the
/// textual application types.
pub open spec fn is_text_mime(m: Seq<char>) -> bool {
    has_prefix(m, "text/"@) || m == "application/json"@ || m == "application/xml"@ || m
        == "application/javascript"@ || m == "application/typescript"@ || m
        == "application/x-javascript"@ || m == "application/xhtml+xml"@ || m
        == "application/ld+json"@
}

/// Does the MIME type name a text-based format?
pub fn is_mime_type_text(mime_type: &str) -> (r: bool)
    ensures
        r == is_text_mime(mime_type@),
{
    str_starts_with(mime_type, "text/") || str_eq(mime_type, "application/json") || str_eq(
        mime_type,
        "application/xml",
    ) || str_eq(mime_type, "application/javascript") || str_eq(
        mime_type,
        "application/typescript",
    ) || str_eq(mime_type, "application/x-javascript") || str_eq(
        mime_type,
        "application/xhtml+xml",
    ) || str_eq(mime_type, "application/ld+json")
}

/// The name of the character encoding the detector picks for these bytes.
/// The detector is deterministic, so the name is a pure function of the
/// bytes.
pub uninterp spec fn detected_encoding_of(bytes: Seq<u8>) -> Seq<char>;

/// Relies on chardetng's `EncodingDetector` (`new`, `feed`, `guess`) and
/// encoding_rs's `Encoding::name`: fed the whole content at once, the
/// detector's guess depends on the bytes alone.
#[verifier::external_body]
pub(crate) fn detect_encoding(content: &[u8]) -> (r: String)
    ensures
        r@ == detected_encoding_of(content@),
{
    let mut detector = chardetng::EncodingDetector::new(chardetng::Iso2022JpDetection::Allow);
    detector.feed(content, true);
    let encoding = detector.guess(None, chardetng::Utf8Detection::Allow);
    encoding.name().to_owned()
}

/// The characters that these bytes decode to under the encoding this label
/// names (UTF-8 when the label is unrecognized); a pure function of label
/// and bytes.
pub uninterp spec fn decoded_of(bytes: Seq<u8>, label: Seq<char>) -> Seq<char>;

/// Whether decoding these bytes under the labelled encoding met malformed
/// sequences.
pub uninterp spec fn decode_had_errors(bytes: Seq<u8>, label: Seq<char>) -> bool;

/// Relies on encoding_rs's `Encoding::for_label` and `Encoding::decode`:
/// the label picks an encoding, falling back to UTF-8, and decoding is a
/// pure function of the encoding and the bytes.
#[verifier::external_body]
fn decode_with_label(content: &[u8], encoding_name: &str) -> (r: (String, bool))
    ensures
        r.0@ == decoded_of(content@, encoding_name@),
        r.1 == decode_had_errors(content@, encoding_name@),
{
    let encoding = encoding_rs::Encoding::for_label(encoding_name.as_bytes()).unwrap_or(
        encoding_rs::UTF_8,
    );
    let (decoded, _encoding_used, had_errors) = encoding.decode(content);
    (decoded.to_string(), had_errors)
}

/// The text the byte content yields under the labelled encoding, or the
/// empty string when decoding met malformed sequences.
pub open spec fn decoded_or_empty(bytes: Seq<u8>, label: Seq<char>) -> Seq<char> {
    if decode_had_errors(bytes, label) {
        Seq::empty()
    } else {
        decoded_of(bytes, label)
    }
}

/// Decodes bytes under the named encoding; an unrecognized name falls back
/// to UTF-8, and malformed content yields the empty string.
pub fn decode_text(content: &[u8], encoding_name: &str) -> (r: String)
    ensures
        r@ == decoded_or_empty(content@, encoding_name@),
{
    let (text, had_errors) = decode_with_label(content, encoding_name);
    if had_errors {
        String::new()
    } else {
        text
    }
}

/// An extraction result worth comparing against references: non-empty and
/// not an error message.
pub fn qualifies_for_comparison(text: &str) -> (r: bool)
    ensures
        r == (text@.len() > 0 && !has_prefix(text@, "Error:"@)),
{
    !text.is_empty() && !str_starts_with(text, "Error:")
}

} // verus!

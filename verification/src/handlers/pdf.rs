//! Extraction of text from PDF documents.

use vstd::prelude::*;

use crate::chars::{chars_of, str_eq, string_from_chars, trimmed};
use crate::chars::trim_chars;
use crate::handler::FileHandler;
use crate::tokenize::{join_with, joined, line_runs, split_lines, views_of};

verus! {

/// The trimmed lines that are not empty after trimming, in order.
pub open spec fn kept_lines(ls: Seq<Seq<char>>) -> Seq<Seq<char>>
    decreases ls.len(),
{
    if ls.len() == 0 {
        Seq::empty()
    } else {
        let prefix = kept_lines(ls.drop_last());
        let t = trimmed(ls.last());
        if t.len() > 0 {
            prefix.push(t)
        } else {
            prefix
        }
    }
}

/// Extracted text, cleaned: each line trimmed, lines that are then empty
/// dropped, and the rest joined with single newlines.
pub open spec fn cleaned_of(s: Seq<char>) -> Seq<char> {
    joined(kept_lines(line_runs(s)), '\n')
}

/// Cleans extracted text: trims every line, drops the lines that are then
/// empty, and joins the rest with newlines.
#[verifier::loop_isolation(false)]
pub fn clean_extracted_text(text: &str) -> (r: String)
    ensures
        r@ == cleaned_of(text@),
{
    let cs = chars_of(text);
    let lines = split_lines(cs.as_slice());
    let mut keep: Vec<Vec<char>> = Vec::new();
    let n = lines.len();
    for i in 0..n
        invariant
            views_of(keep@) == kept_lines(views_of(lines@).take(i as int)),
    {
        proof {
            assert(views_of(lines@).take(i + 1).drop_last() =~= views_of(lines@).take(i as int));
            assert(views_of(lines@).take(i + 1).last() == views_of(lines@)[i as int]);
        }
        let t = trim_chars(lines[i].as_slice());
        let ghost k0 = views_of(keep@);
        if t.len() > 0 {
            keep.push(t);
            proof {
                assert(views_of(keep@) =~= k0.push(trimmed(views_of(lines@)[i as int])));
            }
        }
    }
    proof {
        assert(views_of(lines@).take(n as int) =~= views_of(lines@));
    }
    let out = join_with(&keep, '\n');
    string_from_chars(out.as_slice())
}

/// Relies on pdf_extract::extract_text_from_mem: extracts the text of a
/// PDF held in memory; its error is rendered into the failure message.
#[verifier::external_body]
fn extract_pdf_text(content: &[u8]) -> Result<String, String> {
    match pdf_extract::extract_text_from_mem(content) {
        Ok(text) => Ok(text),
        Err(e) => Err(format!("PDF extraction failed: {}", e)),
    }
}

/// Handler for PDF documents: extracts the text and cleans it up.
pub struct PdfHandler;

impl PdfHandler {
    /// A new PDF handler.
    pub fn new() -> Self {
        PdfHandler
    }
}

impl FileHandler for PdfHandler {
    fn can_handle(&self, mime_type: &str) -> bool {
        str_eq(mime_type, "application/pdf")
    }

    fn extract_text(&self, content: &[u8], _filename: &str, _mime_type: &str) -> Result<
        String,
        String,
    > {
        match extract_pdf_text(content) {
            Ok(text) => Ok(clean_extracted_text(text.as_str())),
            Err(e) => Err(e),
        }
    }
}

} // verus!

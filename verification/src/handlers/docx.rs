//! Extraction of text from Word documents.

use vstd::prelude::*;

use crate::chars::{chars_of, extend_chars, nested_views, str_eq, str_views, string_from_chars,
    trim_chars, trimmed};
use crate::handler::FileHandler;

verus! {

/// The pieces of a paragraph concatenated, in order.
pub open spec fn concat_of(parts: Seq<Seq<char>>) -> Seq<char>
    decreases parts.len(),
{
    if parts.len() == 0 {
        Seq::empty()
    } else {
        concat_of(parts.drop_last()) + parts.last()
    }
}

/// A document rendered as text: each paragraph's text pieces concatenated,
/// with a newline after every paragraph.
pub open spec fn document_text_of(paragraphs: Seq<Seq<Seq<char>>>) -> Seq<char>
    decreases paragraphs.len(),
{
    if paragraphs.len() == 0 {
        Seq::empty()
    } else {
        document_text_of(paragraphs.drop_last()) + concat_of(paragraphs.last()) + seq!['\n']
    }
}

/// Concatenates the text pieces of one paragraph.
fn concat_parts(parts: &Vec<String>) -> (r: Vec<char>)
    ensures
        r@ == concat_of(str_views(parts@)),
{
    let mut out: Vec<char> = Vec::new();
    let n = parts.len();
    for i in 0..n
        invariant
            n == parts@.len(),
            out@ == concat_of(str_views(parts@).take(i as int)),
    {
        proof {
            assert(str_views(parts@).take(i + 1).drop_last() =~= str_views(parts@).take(
                i as int,
            ));
            assert(str_views(parts@).take(i + 1).last() == str_views(parts@)[i as int]);
        }
        let p = chars_of(parts[i].as_str());
        extend_chars(&mut out, p.as_slice());
    }
    proof {
        assert(str_views(parts@).take(n as int) =~= str_views(parts@));
    }
    out
}

/// The document's text: the paragraphs' pieces concatenated, one paragraph
/// per line, trimmed as a whole.
#[verifier::loop_isolation(false)]
pub fn paragraphs_to_text(paragraphs: &Vec<Vec<String>>) -> (r: String)
    ensures
        r@ == trimmed(document_text_of(nested_views(paragraphs@))),
{
    let mut out: Vec<char> = Vec::new();
    let n = paragraphs.len();
    for i in 0..n
        invariant
            out@ == document_text_of(nested_views(paragraphs@).take(i as int)),
    {
        proof {
            assert(nested_views(paragraphs@).take(i + 1).drop_last() =~= nested_views(
                paragraphs@,
            ).take(i as int));
            assert(nested_views(paragraphs@).take(i + 1).last() == nested_views(
                paragraphs@,
            )[i as int]);
        }
        let p = concat_parts(&paragraphs[i]);
        extend_chars(&mut out, p.as_slice());
        out.push('\n');
        proof {
            assert(out@ =~= document_text_of(nested_views(paragraphs@).take(i + 1)));
        }
    }
    proof {
        assert(nested_views(paragraphs@).take(n as int) =~= nested_views(paragraphs@));
    }
    let t = trim_chars(out.as_slice());
    string_from_chars(t.as_slice())
}

/// Relies on docx_rs::read_docx and its document tree (DocumentChild,
/// ParagraphChild, RunChild): reads a DOCX file from memory and hands out,
/// for each paragraph, the texts of its runs' text nodes in order; other
/// node kinds carry no text and are skipped.
#[verifier::external_body]
fn read_document(content: &[u8]) -> Result<Vec<Vec<String>>, String> {
    let docx = docx_rs::read_docx(content).map_err(|e| format!("Failed to read DOCX: {}", e))?;
    Ok(docx.document.children.into_iter().filter_map(|child| match child {
        docx_rs::DocumentChild::Paragraph(para) => Some(para.children.into_iter().filter_map(
            |pc| match pc {
                docx_rs::ParagraphChild::Run(run) => Some(run.children.into_iter().filter_map(
                    |rc| match rc {
                        docx_rs::RunChild::Text(t) => Some(t.text),
                        _ => None,
                    },
                )),
                _ => None,
            },
        ).flatten().collect()),
        _ => None,
    }).collect())
}

/// Handler for Word documents: renders the paragraphs as plain text.
pub struct DocxHandler;

impl DocxHandler {
    /// A new Word-document handler.
    pub fn new() -> Self {
        DocxHandler
    }
}

impl FileHandler for DocxHandler {
    fn can_handle(&self, mime_type: &str) -> bool {
        str_eq(mime_type, "application/vnd.openxmlformats-officedocument.wordprocessingml.document")
            || str_eq(mime_type, "application/docx")
    }

    fn extract_text(&self, content: &[u8], _filename: &str, _mime_type: &str) -> Result<
        String,
        String,
    > {
        match read_document(content) {
            Ok(paragraphs) => Ok(paragraphs_to_text(&paragraphs)),
            Err(e) => Err(e),
        }
    }
}

} // verus!

//! Text similarity engine for near-duplicate detection.
//!
//! The library compares a source text against a corpus of reference texts
//! using word-set overlap (Jaccard), character n-gram overlap, bounded
//! Levenshtein edit distance, and a progressive hybrid strategy, and reports
//! the references whose similarity meets a threshold.  All scores are exact
//! rationals, so every comparison against a threshold is exact.
//!
//! Around the engine stand the text extractors that feed it: handlers that
//! pull text out of PDF, Word, Excel and plain-text files, with the outside
//! parsers behind small trusted wrappers and all the surrounding logic
//! verified.

pub mod chars;
pub mod handler;
pub mod handlers;
pub mod laws;
pub mod levenshtein;
pub mod score;
pub mod setops;
pub mod similarity;
pub mod text;
pub mod tokenize;

pub use handler::FileHandler;
pub use handlers::docx::DocxHandler;
pub use handlers::pdf::PdfHandler;
pub use handlers::text::TextHandler;
pub use handlers::xlsx::XlsxHandler;
pub use levenshtein::{levenshtein_distance, levenshtein_similarity};
pub use score::Score;
pub use similarity::{SimilarityMethod, calculate_similarity, compare_with_documents,
    hybrid_similarity, jaccard_similarity, method_from_name, ngram_similarity,
    pre_filter_by_length};
pub use text::{decode_text, is_mime_type_text, qualifies_for_comparison};

//! Tests of the similarity engine: the scorers, the pre-filter, the hybrid
//! rule, the dispatcher and the comparison fan-out.

use dms_toolkit_rs::Score;
use dms_toolkit_rs::SimilarityMethod;
use dms_toolkit_rs::calculate_similarity;
use dms_toolkit_rs::compare_with_documents;
use dms_toolkit_rs::hybrid_similarity;
use dms_toolkit_rs::jaccard_similarity;
use dms_toolkit_rs::levenshtein_distance;
use dms_toolkit_rs::levenshtein_similarity;
use dms_toolkit_rs::method_from_name;
use dms_toolkit_rs::ngram_similarity;
use dms_toolkit_rs::pre_filter_by_length;

#[test]
fn test_jaccard_similarity() {
    let text1 = "hello world";
    let text2 = "hello there world";
    let score = jaccard_similarity(text1, text2);
    assert!(!score.is_zero() && !score.is_full());
}

#[test]
fn test_levenshtein_distance() {
    assert_eq!(levenshtein_distance("kitten", "sitting", None), 3);
    assert_eq!(levenshtein_distance("", "abc", None), 3);
    assert_eq!(levenshtein_distance("abc", "abc", None), 0);
}

#[test]
fn test_pre_filter() {
    assert!(pre_filter_by_length("hello", "hello world", Score::from_percent(30)));
    assert!(!pre_filter_by_length(
        "a",
        "this is a very long string",
        Score::from_percent(30)
    ));
}

#[test]
fn distance_is_symmetric() {
    assert_eq!(
        levenshtein_distance("kitten", "sitting", None),
        levenshtein_distance("sitting", "kitten", None)
    );
    assert_eq!(levenshtein_distance("abc", "", None), 3);
}

#[test]
fn distance_to_self_is_zero_and_similarity_full() {
    assert_eq!(levenshtein_distance("some longer text here", "some longer text here", None), 0);
    assert!(levenshtein_similarity("some longer text here", "some longer text here", None).is_full());
    assert!(levenshtein_similarity("", "", None).is_full());
}

#[test]
fn distance_budget_reports_sentinel() {
    let d = levenshtein_distance("short", "very long string", Some(5));
    assert!(d > 5);
    assert_eq!(d, 6);
    assert!(levenshtein_similarity("short", "very long string", Some(5)).is_zero());
}

#[test]
fn levenshtein_similarity_exact_value() {
    // Distance 3 over the longer length 7.
    assert_eq!(
        levenshtein_similarity("kitten", "sitting", None),
        Score::from_counts(4, 7)
    );
}

#[test]
fn jaccard_exact_value_and_symmetry() {
    // {hello, world} against {hello, there, world}: 2 shared of 3 total.
    let a = jaccard_similarity("hello world", "hello there world");
    assert_eq!(a, Score::from_counts(2, 3));
    let b = jaccard_similarity("hello there world", "hello world");
    assert_eq!(b, Score::from_counts(2, 3));
}

#[test]
fn jaccard_is_case_insensitive() {
    assert!(jaccard_similarity("HELLO World", "hello world").is_full());
}

#[test]
fn jaccard_of_identical_text_is_full() {
    assert!(jaccard_similarity("the quick brown fox", "the quick brown fox").is_full());
}

#[test]
fn jaccard_of_wordless_texts_is_zero() {
    assert!(jaccard_similarity("", "").is_zero());
    assert!(jaccard_similarity("   ", " \t ").is_zero());
}

#[test]
fn ngram_of_identical_text_is_full() {
    assert!(ngram_similarity("hello world", "hello world", 3).is_full());
}

#[test]
fn ngram_short_text_scores_zero() {
    // Normalized length below n on one side: no shared trigrams.
    assert!(ngram_similarity("ab", "abcdef", 3).is_zero());
    assert!(ngram_similarity("ab", "ab", 3).is_zero());
}

#[test]
fn ngram_normalizes_whitespace_and_case() {
    // Runs of whitespace collapse to one space and case is folded, so the
    // two texts have identical trigram sets.
    assert!(ngram_similarity("Hello   World", "hello world", 3).is_full());
}

#[test]
fn prefilter_passes_empty_pair() {
    assert!(pre_filter_by_length("", "", Score::from_percent(0)));
    assert!(pre_filter_by_length("", "", Score::from_percent(30)));
    assert!(pre_filter_by_length("", "", Score::from_percent(100)));
}

#[test]
fn hybrid_returns_jaccard_below_floor() {
    // No shared words: Jaccard is 0, below the 20 percent floor, and the
    // hybrid score is exactly that Jaccard value.
    let j = jaccard_similarity("abc", "xyz");
    assert!(j.is_zero());
    assert_eq!(hybrid_similarity("abc", "xyz"), j);
}

#[test]
fn hybrid_equals_levenshtein_on_small_overlapping_texts() {
    // Shared words keep Jaccard at or above the floor; the texts are small
    // and the distance is within the budget, so the hybrid score is the
    // unbudgeted Levenshtein similarity.
    let s = "the quick brown fox";
    let t = "the quick brown fox jumps";
    assert_eq!(hybrid_similarity(s, t), levenshtein_similarity(s, t, None));
}

#[test]
fn hybrid_of_identical_text_is_full() {
    let text = "The quick brown fox jumps over the lazy dog";
    assert!(hybrid_similarity(text, text).is_full());
}

#[test]
fn hybrid_falls_back_to_twenty_percent_when_budget_exceeded() {
    // Shared word "zzz" keeps Jaccard at 1/4 = 25 percent, at the floor,
    // but the edit distance between the texts exceeds 80 percent of the
    // longer length, so the hybrid score is the fixed 20 percent fallback.
    let s = "zzz aaaaaaaaaaaaaaaaaaaaaaaaaaaaaaaaaaaa";
    let t = "zzz bbbbbbbbbbbbbbbbbbbbbbbbbbbbbbbbbbbbbbbbbbbbbbbbbbbbbbbbbbbbbbbbbbbbbbbb";
    let h = hybrid_similarity(s, t);
    assert!(h.same(&Score::from_percent(20)));
}

#[test]
fn method_names_resolve_and_unknown_means_hybrid() {
    assert!(matches!(method_from_name("jaccard"), SimilarityMethod::Jaccard));
    assert!(matches!(method_from_name("ngram"), SimilarityMethod::Ngram));
    assert!(matches!(method_from_name("levenshtein"), SimilarityMethod::Levenshtein));
    assert!(matches!(method_from_name("hybrid"), SimilarityMethod::Hybrid));
    assert!(matches!(method_from_name("unknown"), SimilarityMethod::Hybrid));
    assert!(matches!(method_from_name(""), SimilarityMethod::Hybrid));
}

#[test]
fn dispatcher_routes_each_method() {
    let s = "hello world";
    let t = "hello there world";
    assert_eq!(
        calculate_similarity(s, t, SimilarityMethod::Jaccard),
        jaccard_similarity(s, t)
    );
    assert_eq!(
        calculate_similarity(s, t, SimilarityMethod::Ngram),
        ngram_similarity(s, t, 3)
    );
    assert_eq!(
        calculate_similarity(s, t, SimilarityMethod::Levenshtein),
        levenshtein_similarity(s, t, None)
    );
    assert_eq!(
        calculate_similarity(s, t, SimilarityMethod::Hybrid),
        hybrid_similarity(s, t)
    );
}

#[test]
fn compare_end_to_end() {
    let source = "The quick brown fox";
    let references = vec![
        "The quick brown fox jumps".to_string(),
        "A completely different text".to_string(),
        "The quick brown fox".to_string(),
    ];
    let matches = compare_with_documents(
        source,
        &references,
        SimilarityMethod::Hybrid,
        Score::from_percent(50),
    );
    let indices: Vec<usize> = matches.iter().map(|m| m.0).collect();
    assert_eq!(indices, vec![0, 2]);
    for (_, score) in &matches {
        assert!(score.ge(&Score::from_percent(50)));
    }
}

#[test]
fn compare_never_returns_scores_below_threshold() {
    let source = "alpha beta gamma";
    let references = vec![
        "alpha beta gamma".to_string(),
        "alpha beta delta".to_string(),
        "nothing in common at all".to_string(),
        "".to_string(),
    ];
    let threshold = Score::from_percent(60);
    let matches = compare_with_documents(source, &references, SimilarityMethod::Hybrid, threshold);
    for (idx, score) in &matches {
        assert!(*idx < references.len());
        assert!(score.ge(&threshold));
    }
    assert!(matches.iter().any(|m| m.0 == 0));
    assert!(!matches.iter().any(|m| m.0 == 2));
}

#[test]
fn compare_is_deterministic() {
    let source = "one two three four";
    let references = vec![
        "one two three".to_string(),
        "two three four five".to_string(),
        "six seven".to_string(),
    ];
    let a = compare_with_documents(
        source,
        &references,
        SimilarityMethod::Jaccard,
        Score::from_percent(10),
    );
    let b = compare_with_documents(
        source,
        &references,
        SimilarityMethod::Jaccard,
        Score::from_percent(10),
    );
    assert_eq!(a, b);
}

#[test]
fn compare_threshold_is_inclusive() {
    // Jaccard of the pair is exactly 1/2, and the threshold is 50 percent:
    // the inclusive comparison keeps the reference.
    let matches = compare_with_documents(
        "a b",
        &vec!["a c".to_string()],
        SimilarityMethod::Jaccard,
        Score::from_percent(50),
    );
    assert!(matches.is_empty());
    let matches = compare_with_documents(
        "a b c",
        &vec!["a b d".to_string()],
        SimilarityMethod::Jaccard,
        Score::from_percent(50),
    );
    assert_eq!(matches.len(), 1);
    assert_eq!(matches[0].1, Score::from_counts(2, 4));
}

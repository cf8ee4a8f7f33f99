//! Similarity scoring of text pairs.
//!
//! Four methods are offered: word-overlap (Jaccard), character n-gram
//! overlap, Levenshtein edit distance, and a progressive hybrid of the
//! three.  Every method returns an exact rational [`Score`]; the rules for
//! each method, including the empty-text edge cases, are stated in the
//! contracts.

use vstd::prelude::*;

use crate::chars::{chars_of, str_eq, str_views};
use crate::levenshtein::{lev, lemma_lev_le_max, levenshtein_distance, max_len};
use crate::score::Score;
use crate::setops::{count_common, dedup, union_list};
use crate::tokenize::{lower_all, lowered, normalize, normalized, tokenize, tokens, views_of,
    word_set};

verus! {

broadcast use vstd::seq_lib::seq_to_set_is_finite;

/// How two texts are compared.
#[derive(Debug, Clone, Copy, PartialEq, Eq, Structural)]
pub enum SimilarityMethod {
    /// Word-set overlap: fast, word-level.
    Jaccard,
    /// Character trigram overlap: character-level, scales to long texts.
    Ngram,
    /// Exact edit distance, converted to a percentage.
    Levenshtein,
    /// Jaccard first, then edit distance or n-grams by input size.
    Hybrid,
}

/// The method a request names; anything unrecognized means `Hybrid`.
pub open spec fn spec_method_from_name(name: Seq<char>) -> SimilarityMethod {
    if name == "jaccard"@ {
        SimilarityMethod::Jaccard
    } else if name == "ngram"@ {
        SimilarityMethod::Ngram
    } else if name == "levenshtein"@ {
        SimilarityMethod::Levenshtein
    } else {
        SimilarityMethod::Hybrid
    }
}

/// Resolves a method name; unrecognized names fall back to `Hybrid`.
pub fn method_from_name(name: &str) -> (m: SimilarityMethod)
    ensures
        m == spec_method_from_name(name@),
{
    if str_eq(name, "jaccard") {
        SimilarityMethod::Jaccard
    } else if str_eq(name, "ngram") {
        SimilarityMethod::Ngram
    } else if str_eq(name, "levenshtein") {
        SimilarityMethod::Levenshtein
    } else {
        SimilarityMethod::Hybrid
    }
}

/// The intersection-over-union score of two finite sets, carried as
/// duplicate-free lists.  An empty union scores 0.
fn overlap_score(au: &Vec<Vec<char>>, bu: &Vec<Vec<char>>) -> (r: Score)
    requires
        views_of(au@).no_duplicates(),
        views_of(bu@).no_duplicates(),
    ensures
        r.wf(),
        ({
            let a = views_of(au@).to_set();
            let b = views_of(bu@).to_set();
            if a.union(b).len() == 0 {
                r.num() == 0 && r.den() == 1 && a.intersect(b).len() == 0
            } else {
                r.num() == a.intersect(b).len() && r.den() == a.union(b).len()
            }
        }),
{
    let ghost a = views_of(au@).to_set();
    let ghost b = views_of(bu@).to_set();
    let inter = count_common(au, bu);
    let uni = union_list(au, bu);
    let u = uni.len();
    proof {
        views_of(uni@).unique_seq_to_set();
        assert(a.intersect(b).subset_of(a.union(b)));
        vstd::set_lib::lemma_len_subset(a.intersect(b), a.union(b));
    }
    if u == 0 {
        Score::zero()
    } else {
        Score::from_counts(inter as u64, u as u64)
    }
}

/// Numerator of the Jaccard ratio: how many distinct lowercased words the
/// two texts share.  It is 0 when neither text has a word.
pub open spec fn jaccard_num(s: Seq<char>, t: Seq<char>) -> int {
    word_set(s).intersect(word_set(t)).len() as int
}

/// Denominator of the Jaccard ratio: how many distinct lowercased words
/// the two texts have together.  It is 1 when neither text has a word, so
/// that the ratio is 0 there, as the word-overlap rule demands.
pub open spec fn jaccard_den(s: Seq<char>, t: Seq<char>) -> int {
    if word_set(s).union(word_set(t)).len() == 0 {
        1
    } else {
        word_set(s).union(word_set(t)).len() as int
    }
}

/// Word-based similarity: the texts are split on whitespace, the words
/// lowercased and collapsed to sets, and the score is the ratio of shared
/// words to all words.  Two texts without any words score 0.
pub fn jaccard_similarity(source: &str, target: &str) -> (r: Score)
    ensures
        r.wf(),
        r.num() == jaccard_num(source@, target@),
        r.den() == jaccard_den(source@, target@),
{
    let sv = chars_of(source);
    let tv = chars_of(target);
    let sw = lower_all(tokenize(sv.as_slice()));
    let tw = lower_all(tokenize(tv.as_slice()));
    let su = dedup(&sw);
    let tu = dedup(&tw);
    overlap_score(&su, &tu)
}

/// The list of all length-`n` windows over `norm`, in order of their
/// starting position.
pub open spec fn gram_list(norm: Seq<char>, n: int) -> Seq<Seq<char>> {
    Seq::new((norm.len() - n + 1) as nat, |i: int| norm.subrange(i, i + n))
}

/// The set of character n-grams of a text: all length-`n` windows over the
/// normalized character stream.  A text whose normalized stream is shorter
/// than `n` has no n-grams.
pub open spec fn gram_set(text: Seq<char>, n: int) -> Set<Seq<char>> {
    let norm = normalized(text);
    if norm.len() < n {
        Set::empty()
    } else {
        gram_list(norm, n).to_set()
    }
}

/// All length-`n` windows over `norm`.
#[verifier::loop_isolation(false)]
fn gram_vecs(norm: &[char], n: usize) -> (r: Vec<Vec<char>>)
    requires
        1 <= n <= norm@.len(),
    ensures
        views_of(r@) == gram_list(norm@, n as int),
{
    let count = norm.len() - n + 1;
    let mut r: Vec<Vec<char>> = Vec::new();
    for i in 0..count
        invariant
            views_of(r@) =~= gram_list(norm@, n as int).take(i as int),
    {
        let mut w: Vec<char> = Vec::new();
        let stop = i + n;
        for j in i..stop
            invariant
                i <= j <= stop,
                w@ == norm@.subrange(i as int, j as int),
        {
            w.push(norm[j]);
            proof {
                assert(norm@.subrange(i as int, j + 1) =~= norm@.subrange(
                    i as int,
                    j as int,
                ).push(norm@[j as int]));
            }
        }
        let ghost r0 = views_of(r@);
        r.push(w);
        proof {
            assert(views_of(r@) =~= r0.push(norm@.subrange(i as int, i + n)));
            assert(gram_list(norm@, n as int).take(i + 1) =~= gram_list(norm@, n as int).take(
                i as int,
            ).push(norm@.subrange(i as int, i + n)));
        }
    }
    proof {
        assert(gram_list(norm@, n as int).take(count as int) =~= gram_list(norm@, n as int));
    }
    r
}

/// Numerator of the n-gram ratio: how many n-grams the two texts share.
pub open spec fn ngram_num(s: Seq<char>, t: Seq<char>, n: int) -> int {
    gram_set(s, n).intersect(gram_set(t, n)).len() as int
}

/// Denominator of the n-gram ratio: how many n-grams the two texts have
/// together; 1 when neither has any, so that the ratio is 0 there.
pub open spec fn ngram_den(s: Seq<char>, t: Seq<char>, n: int) -> int {
    if gram_set(s, n).union(gram_set(t, n)).len() == 0 {
        1
    } else {
        gram_set(s, n).union(gram_set(t, n)).len() as int
    }
}

/// Character n-gram similarity: each text is normalized (lowercased,
/// whitespace collapsed to single spaces) and windowed into the set of its
/// length-`n` substrings; the score is the ratio of shared n-grams to all
/// n-grams.  A text whose normalized stream is shorter than `n` contributes
/// no n-grams, so two such texts score 0.
pub fn ngram_similarity(source: &str, target: &str, n: usize) -> (r: Score)
    requires
        1 <= n,
    ensures
        r.wf(),
        r.num() == ngram_num(source@, target@, n as int),
        r.den() == ngram_den(source@, target@, n as int),
{
    let sn = normalize(source);
    let tn = normalize(target);
    let sg = grams_of(sn, n);
    let tg = grams_of(tn, n);
    proof {
        assert(views_of(sg@).to_set() == gram_set(source@, n as int));
        assert(views_of(tg@).to_set() == gram_set(target@, n as int));
    }
    overlap_score(&sg, &tg)
}

/// The duplicate-free n-gram list of a normalized stream.
fn grams_of(norm: Vec<char>, n: usize) -> (r: Vec<Vec<char>>)
    requires
        1 <= n,
    ensures
        views_of(r@).no_duplicates(),
        views_of(r@).to_set() == (if norm@.len() < n {
            Set::<Seq<char>>::empty()
        } else {
            gram_list(norm@, n as int).to_set()
        }),
{
    if norm.len() < n {
        let r: Vec<Vec<char>> = Vec::new();
        proof {
            assert(views_of(r@).to_set() =~= Set::<Seq<char>>::empty());
        }
        r
    } else {
        let g = gram_vecs(norm.as_slice(), n);
        dedup(&g)
    }
}

/// Texts this long or longer make exact edit distance too costly, so the
/// hybrid method switches to n-grams.
pub const HYBRID_SMALL_TEXT_LIMIT: usize = 1000;

/// A Jaccard score below this percentage ends the hybrid method early.
pub const HYBRID_JACCARD_FLOOR_PERCENT: u64 = 20;

/// The hybrid edit-distance budget is this fraction of the longer length.
pub const HYBRID_BUDGET_NUM: usize = 4;

/// Denominator of the hybrid budget fraction.
pub const HYBRID_BUDGET_DEN: usize = 5;

/// The Jaccard score of the pair is below the hybrid floor of 20 percent.
pub open spec fn jaccard_below_floor(s: Seq<char>, t: Seq<char>) -> bool {
    100 * jaccard_num(s, t) < (HYBRID_JACCARD_FLOOR_PERCENT as int) * jaccard_den(s, t)
}

/// The edit-distance budget the hybrid method allows a pair of small texts:
/// four fifths of the longer length, rounded down.
pub open spec fn hybrid_budget(s: Seq<char>, t: Seq<char>) -> int {
    (HYBRID_BUDGET_NUM as int) * (max_len(s, t) as int) / (HYBRID_BUDGET_DEN as int)
}

/// Numerator of the hybrid score.  The hybrid rule: a Jaccard score under
/// 20 percent is returned as is; otherwise small texts (both under 1000
/// characters) are scored by edit distance under the budget, with the fixed
/// fallback of 20 percent when the budget is exceeded, and large texts by
/// trigrams.
pub open spec fn hybrid_num(s: Seq<char>, t: Seq<char>) -> int {
    if jaccard_below_floor(s, t) {
        jaccard_num(s, t)
    } else if s.len() < HYBRID_SMALL_TEXT_LIMIT && t.len() < HYBRID_SMALL_TEXT_LIMIT {
        if lev(s, t) <= hybrid_budget(s, t) {
            max_len(s, t) - lev(s, t)
        } else {
            1
        }
    } else {
        ngram_num(s, t, 3)
    }
}

/// Denominator of the hybrid score; see [`hybrid_num`].
pub open spec fn hybrid_den(s: Seq<char>, t: Seq<char>) -> int {
    if jaccard_below_floor(s, t) {
        jaccard_den(s, t)
    } else if s.len() < HYBRID_SMALL_TEXT_LIMIT && t.len() < HYBRID_SMALL_TEXT_LIMIT {
        if lev(s, t) <= hybrid_budget(s, t) {
            max_len(s, t) as int
        } else {
            5
        }
    } else {
        ngram_den(s, t, 3)
    }
}

/// Texts that share a word are not empty.
pub(crate) proof fn lemma_overlap_needs_text(s: Seq<char>, t: Seq<char>)
    requires
        jaccard_num(s, t) >= 1,
    ensures
        s.len() >= 1,
        t.len() >= 1,
{
    let i = word_set(s).intersect(word_set(t));
    let w = i.choose();
    assert(i.contains(w));
    assert(word_set(s).contains(w));
    assert(word_set(t).contains(w));
    assert(lowered(tokens(s)).contains(w));
    assert(lowered(tokens(t)).contains(w));
    assert(tokens(s).len() > 0);
    assert(tokens(t).len() > 0);
}

/// Progressive similarity: a fast Jaccard check first, and, only when it
/// does not settle the matter, exact edit distance on small texts or
/// trigram overlap on large ones.
pub fn hybrid_similarity(source: &str, target: &str) -> (r: Score)
    ensures
        r.wf(),
        r.num() == hybrid_num(source@, target@),
        r.den() == hybrid_den(source@, target@),
{
    let j = jaccard_similarity(source, target);
    let floor = Score::from_percent(HYBRID_JACCARD_FLOOR_PERCENT);
    if j.lt(&floor) {
        return j;
    }
    let sv = chars_of(source);
    let tv = chars_of(target);
    if sv.len() < HYBRID_SMALL_TEXT_LIMIT && tv.len() < HYBRID_SMALL_TEXT_LIMIT {
        let ml = if sv.len() >= tv.len() {
            sv.len()
        } else {
            tv.len()
        };
        proof {
            lemma_overlap_needs_text(source@, target@);
        }
        let budget = ml * HYBRID_BUDGET_NUM / HYBRID_BUDGET_DEN;
        let d = levenshtein_distance(source, target, Some(budget));
        if d > budget {
            return Score::from_counts(1, 5);
        }
        proof {
            lemma_lev_le_max(source@, target@);
        }
        return Score::from_counts((ml - d) as u64, ml as u64);
    }
    ngram_similarity(source, target, 3)
}

/// Numerator of the score the given method assigns to the pair.
pub open spec fn calc_num(s: Seq<char>, t: Seq<char>, method: SimilarityMethod) -> int {
    match method {
        SimilarityMethod::Jaccard => jaccard_num(s, t),
        SimilarityMethod::Ngram => ngram_num(s, t, 3),
        SimilarityMethod::Levenshtein => crate::levenshtein::lev_sim_num(s, t, None),
        SimilarityMethod::Hybrid => hybrid_num(s, t),
    }
}

/// Denominator of the score the given method assigns to the pair.
pub open spec fn calc_den(s: Seq<char>, t: Seq<char>, method: SimilarityMethod) -> int {
    match method {
        SimilarityMethod::Jaccard => jaccard_den(s, t),
        SimilarityMethod::Ngram => ngram_den(s, t, 3),
        SimilarityMethod::Levenshtein => crate::levenshtein::lev_sim_den(s, t, None),
        SimilarityMethod::Hybrid => hybrid_den(s, t),
    }
}

/// Scores the pair with the requested method: Jaccard and n-gram overlap
/// as they stand, Levenshtein without a budget, or the hybrid rule.
pub fn calculate_similarity(source: &str, target: &str, method: SimilarityMethod) -> (r: Score)
    ensures
        r.wf(),
        r.num() == calc_num(source@, target@, method),
        r.den() == calc_den(source@, target@, method),
{
    match method {
        SimilarityMethod::Jaccard => jaccard_similarity(source, target),
        SimilarityMethod::Ngram => ngram_similarity(source, target, 3),
        SimilarityMethod::Levenshtein => crate::levenshtein::levenshtein_similarity(
            source,
            target,
            None,
        ),
        SimilarityMethod::Hybrid => hybrid_similarity(source, target),
    }
}

/// A pair passes the length gate when its length gap leaves the threshold
/// reachable: `(|ls - lt| / max) * 100 <= 100 - threshold`, decided exactly
/// on the threshold fraction.  Two empty texts always pass.
pub open spec fn passes_length_filter(ls: int, lt: int, threshold: Score) -> bool {
    let ml = if ls >= lt {
        ls
    } else {
        lt
    };
    let diff = if ls >= lt {
        ls - lt
    } else {
        lt - ls
    };
    ml == 0 || diff * threshold.den() <= ml * (threshold.den() - threshold.num())
}

/// Cheap length gate ahead of the scorers: rejects a pair whose character
/// counts differ so much, relative to the longer one, that the threshold is
/// out of reach.  Lengths are character counts, the same unit the scorers
/// use.
pub fn pre_filter_by_length(source: &str, target: &str, threshold: Score) -> (r: bool)
    requires
        threshold.wf(),
    ensures
        r == passes_length_filter(source@.len() as int, target@.len() as int, threshold),
{
    let ls = chars_of(source).len();
    let lt = chars_of(target).len();
    let ml = if ls >= lt {
        ls
    } else {
        lt
    };
    let diff = if ls >= lt {
        ls - lt
    } else {
        lt - ls
    };
    if ml == 0 {
        return true;
    }
    threshold.gap_within(diff as u64, ml as u64)
}

/// The reference belongs in the result: it passes the length gate and the
/// method's score reaches the threshold.
pub open spec fn qualifies(
    s: Seq<char>,
    t: Seq<char>,
    method: SimilarityMethod,
    threshold: Score,
) -> bool {
    passes_length_filter(s.len() as int, t.len() as int, threshold) && calc_num(s, t, method)
        * threshold.den() >= threshold.num() * calc_den(s, t, method)
}

/// What the comparison fan-out delivers: `r` holds `(index, score)` for
/// exactly the references that qualify — soundly (every entry's reference
/// qualifies and carries that pair's exact score), completely (no
/// qualifying reference is missing), and with indices strictly increasing.
/// Only one sequence satisfies this for given inputs, so the result does
/// not depend on how the comparisons were scheduled.
pub open spec fn compare_outcome(
    s: Seq<char>,
    targets: Seq<Seq<char>>,
    method: SimilarityMethod,
    threshold: Score,
    r: Seq<(usize, Score)>,
) -> bool {
    &&& forall|k: int| 0 <= k < r.len() ==> (#[trigger] r[k]).0 < targets.len()
    &&& forall|k: int|
        0 <= k < r.len() ==> qualifies(s, targets[(#[trigger] r[k]).0 as int], method, threshold)
    &&& forall|k: int|
        0 <= k < r.len() ==> {
            let (idx, sc) = #[trigger] r[k];
            &&& sc.wf()
            &&& sc.num() == calc_num(s, targets[idx as int], method)
            &&& sc.den() == calc_den(s, targets[idx as int], method)
        }
    &&& forall|idx: int|
        0 <= idx < targets.len() && qualifies(s, targets[idx], method, threshold) ==> exists|k: int|
            0 <= k < r.len() && (#[trigger] r[k]).0 == idx
    &&& forall|k1: int, k2: int| 0 <= k1 < k2 < r.len() ==> r[k1].0 < r[k2].0
}

/// Compares one source text against every reference text and collects
/// `(index, score)` for exactly the references that pass the length gate
/// and whose score reaches the threshold (inclusively).  Each reference is
/// scored independently, so the result is a pure function of the inputs;
/// indices come out in increasing order.
#[verifier::loop_isolation(false)]
pub fn compare_with_documents(
    source_text: &str,
    target_texts: &[String],
    method: SimilarityMethod,
    threshold: Score,
) -> (r: Vec<(usize, Score)>)
    requires
        threshold.wf(),
    ensures
        compare_outcome(source_text@, str_views(target_texts@), method, threshold, r@),
{
    proof {
        assert forall|i: int|
            0 <= i < target_texts@.len() implies str_views(target_texts@)[i] == target_texts@[i]@
            by {}
    }
    let mut r: Vec<(usize, Score)> = Vec::new();
    let n = target_texts.len();
    for idx in 0..n
        invariant
            forall|k: int| 0 <= k < r@.len() ==> (#[trigger] r@[k]).0 < idx,
            forall|k: int|
                0 <= k < r@.len() ==> qualifies(
                    source_text@,
                    target_texts@[(#[trigger] r@[k]).0 as int]@,
                    method,
                    threshold,
                ),
            forall|k: int|
                0 <= k < r@.len() ==> {
                    let (q, sc) = #[trigger] r@[k];
                    &&& sc.wf()
                    &&& sc.num() == calc_num(source_text@, target_texts@[q as int]@, method)
                    &&& sc.den() == calc_den(source_text@, target_texts@[q as int]@, method)
                },
            forall|q: int|
                0 <= q < idx && qualifies(source_text@, target_texts@[q]@, method, threshold)
                    ==> exists|k: int| 0 <= k < r@.len() && (#[trigger] r@[k]).0 == q,
            forall|k1: int, k2: int| 0 <= k1 < k2 < r@.len() ==> r@[k1].0 < r@[k2].0,
    {
        let target = target_texts[idx].as_str();
        let mut added = false;
        if pre_filter_by_length(source_text, target, threshold) {
            let sc = calculate_similarity(source_text, target, method);
            if sc.ge(&threshold) {
                let ghost r0 = r@;
                r.push((idx, sc));
                added = true;
                proof {
                    assert(r@[r@.len() - 1].0 == idx);
                    assert forall|q: int|
                        0 <= q < idx + 1 && qualifies(
                            source_text@,
                            target_texts@[q]@,
                            method,
                            threshold,
                        ) implies exists|k: int|
                        0 <= k < r@.len() && (#[trigger] r@[k]).0 == q by {
                        if q == idx {
                            assert((r@[r@.len() - 1]).0 == q);
                        } else {
                            let k0 = choose|k: int| 0 <= k < r0.len() && (#[trigger] r0[k]).0 == q;
                            assert((r@[k0]).0 == q);
                        }
                    }
                }
            }
        }
        proof {
            if !added {
                assert(!qualifies(source_text@, target_texts@[idx as int]@, method, threshold));
            }
        }
    }
    r
}

} // verus!

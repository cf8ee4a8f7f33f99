//! General laws of the similarity engine, each proved once and for all.
//!
//! Scenario-style facts (a particular pair and its score) live in the test
//! suite; what is stated here holds for every text.

use vstd::prelude::*;

use crate::levenshtein::{lemma_lev_le_max, lemma_lev_self, lemma_lev_sym, lev, lev_sim_den,
    lev_sim_num, max_len};
use crate::score::Score;
use crate::similarity::{SimilarityMethod, compare_outcome, hybrid_budget, hybrid_den, hybrid_num,
    jaccard_below_floor, jaccard_den, jaccard_num, lemma_overlap_needs_text, ngram_den, ngram_num,
    passes_length_filter, qualifies};
use crate::tokenize::{normalized, word_set};

verus! {

broadcast use vstd::seq_lib::seq_to_set_is_finite;

/// Every text is at distance 0 from itself, and fully similar to itself
/// under the Levenshtein score.
pub proof fn law_self_similarity(a: Seq<char>)
    ensures
        lev(a, a) == 0,
        lev_sim_num(a, a, None) == lev_sim_den(a, a, None),
        lev_sim_den(a, a, None) >= 1,
{
    lemma_lev_self(a);
}

/// The distance to or from the empty text is the other text's length.
pub proof fn law_distance_to_empty(s: Seq<char>)
    ensures
        lev(Seq::<char>::empty(), s) == s.len(),
        lev(s, Seq::<char>::empty()) == s.len(),
{
}

/// The distance is symmetric.
pub proof fn law_distance_symmetric(a: Seq<char>, b: Seq<char>)
    ensures
        lev(a, b) == lev(b, a),
{
    lemma_lev_sym(a, b);
}

/// The Jaccard score is symmetric.
pub proof fn law_jaccard_symmetric(s: Seq<char>, t: Seq<char>)
    ensures
        jaccard_num(s, t) == jaccard_num(t, s),
        jaccard_den(s, t) == jaccard_den(t, s),
{
    assert(word_set(s).intersect(word_set(t)) =~= word_set(t).intersect(word_set(s)));
    assert(word_set(s).union(word_set(t)) =~= word_set(t).union(word_set(s)));
}

/// The Jaccard score is a fraction in `[0, 1]`, that is a percentage in
/// `[0, 100]`.
pub proof fn law_jaccard_bounded(s: Seq<char>, t: Seq<char>)
    ensures
        0 <= jaccard_num(s, t) <= jaccard_den(s, t),
        1 <= jaccard_den(s, t),
{
    let a = word_set(s);
    let b = word_set(t);
    assert(a.intersect(b).subset_of(a.union(b)));
    vstd::set_lib::lemma_len_subset(a.intersect(b), a.union(b));
}

/// A text with at least one word has the full Jaccard score against itself.
/// (A text without words scores 0 against itself: the union is empty.)
pub proof fn law_jaccard_self_full(s: Seq<char>)
    requires
        word_set(s) != Set::<Seq<char>>::empty(),
    ensures
        jaccard_num(s, s) == jaccard_den(s, s),
        1 <= jaccard_den(s, s),
{
    let a = word_set(s);
    assert(a.intersect(a) =~= a);
    assert(a.union(a) =~= a);
    if a.len() == 0 {
        assert(a =~= Set::<Seq<char>>::empty());
    }
}

/// A text without any words scores 0 against itself under Jaccard: the
/// union of the word sets is empty, and that case is defined as 0.
pub proof fn law_jaccard_wordless_zero(s: Seq<char>)
    requires
        word_set(s) == Set::<Seq<char>>::empty(),
    ensures
        jaccard_num(s, s) == 0,
        jaccard_den(s, s) == 1,
{
    let a = word_set(s);
    assert(a.intersect(a) =~= a);
    assert(a.union(a) =~= a);
}

/// A text whose normalized stream has at least `n` characters has the full
/// n-gram score against itself.
pub proof fn law_ngram_self_full(s: Seq<char>, n: int)
    requires
        1 <= n <= normalized(s).len(),
    ensures
        ngram_num(s, s, n) == ngram_den(s, s, n),
        1 <= ngram_den(s, s, n),
{
    let g = crate::similarity::gram_set(s, n);
    assert(g.intersect(g) =~= g);
    assert(g.union(g) =~= g);
    let lst = crate::similarity::gram_list(normalized(s), n);
    assert(lst.len() >= 1);
    assert(lst.contains(lst[0]));
    assert(g.contains(lst[0]));
}

/// When either text's normalized stream is shorter than `n`, the n-gram
/// score is 0.
pub proof fn law_ngram_short_zero(s: Seq<char>, t: Seq<char>, n: int)
    requires
        normalized(s).len() < n || normalized(t).len() < n,
    ensures
        ngram_num(s, t, n) == 0,
{
    let a = crate::similarity::gram_set(s, n);
    let b = crate::similarity::gram_set(t, n);
    assert(a.intersect(b) =~= Set::<Seq<char>>::empty());
}

/// Two empty texts pass the length pre-filter under every threshold.
pub proof fn law_prefilter_empty(threshold: Score)
    ensures
        passes_length_filter(0, 0, threshold),
{
}

/// The pre-filter is sound for the Levenshtein score: whenever a pair's
/// unbudgeted Levenshtein similarity reaches the threshold, the pair passes
/// the filter.  (The distance is at least the length gap, so the score is
/// at most what the lengths alone allow.)
pub proof fn law_prefilter_sound_for_levenshtein(s: Seq<char>, t: Seq<char>, threshold: Score)
    requires
        threshold.wf(),
        lev_sim_num(s, t, None) * threshold.den() >= threshold.num() * lev_sim_den(s, t, None),
    ensures
        passes_length_filter(s.len() as int, t.len() as int, threshold),
{
    let ml = max_len(s, t) as int;
    if ml != 0 {
        let d = lev(s, t) as int;
        let diff: int = if s.len() >= t.len() {
            s.len() - t.len()
        } else {
            t.len() - s.len()
        };
        lemma_lev_ge_diff(s, t);
        lemma_lev_le_max(s, t);
        // (ml - d) * den >= num * ml  and  d >= diff
        // hence diff * den <= (ml - num * ml / den) ... carried out without division:
        assert((ml - d) * threshold.den() >= threshold.num() * ml);
        assert(d * threshold.den() >= diff * threshold.den()) by (nonlinear_arith)
            requires
                d >= diff,
                threshold.den() >= 1,
        ;
        assert(ml * threshold.den() == (ml - d) * threshold.den() + d * threshold.den())
            by (nonlinear_arith);
        assert(diff * threshold.den() <= ml * threshold.den() - threshold.num() * ml);
        assert(ml * threshold.den() - threshold.num() * ml == ml * (threshold.den()
            - threshold.num())) by (nonlinear_arith);
    }
}

/// The distance is at least the difference of the lengths.
pub proof fn lemma_lev_ge_diff(s: Seq<char>, t: Seq<char>)
    ensures
        lev(s, t) + s.len() >= t.len(),
        lev(s, t) + t.len() >= s.len(),
    decreases s.len() + t.len(),
{
    if s.len() > 0 && t.len() > 0 {
        lemma_lev_ge_diff(s.drop_last(), t);
        lemma_lev_ge_diff(s, t.drop_last());
        lemma_lev_ge_diff(s.drop_last(), t.drop_last());
    }
}

/// Below the 20-percent Jaccard floor, the hybrid score is exactly the
/// Jaccard score.
pub proof fn law_hybrid_returns_low_jaccard(s: Seq<char>, t: Seq<char>)
    requires
        jaccard_below_floor(s, t),
    ensures
        hybrid_num(s, t) == jaccard_num(s, t),
        hybrid_den(s, t) == jaccard_den(s, t),
{
}

/// For small texts at or above the Jaccard floor whose true edit distance
/// is within the hybrid budget, the hybrid score equals the unbudgeted
/// Levenshtein similarity.  (Below the floor the hybrid score is the
/// Jaccard score instead, whatever the distance.)
pub proof fn law_hybrid_small_is_levenshtein(s: Seq<char>, t: Seq<char>)
    requires
        !jaccard_below_floor(s, t),
        s.len() < crate::similarity::HYBRID_SMALL_TEXT_LIMIT,
        t.len() < crate::similarity::HYBRID_SMALL_TEXT_LIMIT,
        lev(s, t) <= hybrid_budget(s, t),
    ensures
        hybrid_num(s, t) == lev_sim_num(s, t, None),
        hybrid_den(s, t) == lev_sim_den(s, t, None),
{
    assert(100 * jaccard_num(s, t) >= (crate::similarity::HYBRID_JACCARD_FLOOR_PERCENT as int)
        * jaccard_den(s, t));
    assert(jaccard_den(s, t) >= 1);
    lemma_overlap_needs_text(s, t);
}

/// Two index-sorted sequences that hold the same pairs are equal.
proof fn lemma_increasing_same_pairs(r1: Seq<(usize, Score)>, r2: Seq<(usize, Score)>)
    requires
        forall|k1: int, k2: int| 0 <= k1 < k2 < r1.len() ==> r1[k1].0 < r1[k2].0,
        forall|k1: int, k2: int| 0 <= k1 < k2 < r2.len() ==> r2[k1].0 < r2[k2].0,
        forall|x: (usize, Score)| #[trigger] r1.contains(x) <==> #[trigger] r2.contains(x),
    ensures
        r1 == r2,
    decreases r1.len(),
{
    if r1.len() == 0 {
        if r2.len() > 0 {
            assert(r2.contains(r2[0]));
            assert(r1.contains(r2[0]));
            assert(false);
        }
        assert(r1 =~= r2);
    } else {
        assert(r1.contains(r1[0]));
        assert(r2.contains(r1[0]));
        let p = choose|p: int| 0 <= p < r2.len() && r2[p] == r1[0];
        assert(r2.len() > 0);
        assert(r2.contains(r2[0]));
        assert(r1.contains(r2[0]));
        let q = choose|q: int| 0 <= q < r1.len() && r1[q] == r2[0];
        assert(r2[0].0 <= r2[p].0);
        assert(r1[0].0 <= r1[q].0);
        assert(r1[0].0 == r2[0].0);
        assert(p == 0);
        let t1 = r1.drop_first();
        let t2 = r2.drop_first();
        assert forall|x: (usize, Score)| #[trigger] t1.contains(x) <==> #[trigger] t2.contains(
            x,
        ) by {
            if t1.contains(x) {
                let k = choose|k: int| 0 <= k < t1.len() && t1[k] == x;
                assert(r1[k + 1] == x);
                assert(r1.contains(x));
                assert(r2.contains(x));
                let p1 = choose|p1: int| 0 <= p1 < r2.len() && r2[p1] == x;
                if p1 == 0 {
                    assert(r1[0].0 == r1[k + 1].0);
                    assert(false);
                }
                assert(t2[p1 - 1] == x);
                assert(t2.contains(x));
            }
            if t2.contains(x) {
                let p2 = choose|p2: int| 0 <= p2 < t2.len() && t2[p2] == x;
                assert(r2[p2 + 1] == x);
                assert(r2.contains(x));
                assert(r1.contains(x));
                let k1 = choose|k1: int| 0 <= k1 < r1.len() && r1[k1] == x;
                if k1 == 0 {
                    assert(r2[0].0 == r2[p2 + 1].0);
                    assert(false);
                }
                assert(t1[k1 - 1] == x);
                assert(t1.contains(x));
            }
        }
        lemma_increasing_same_pairs(t1, t2);
        assert(r1.len() == r2.len());
        assert forall|j: int| 0 <= j < r1.len() implies r1[j] == r2[j] by {
            if j > 0 {
                assert(r1[j] == t1[j - 1]);
                assert(r2[j] == t2[j - 1]);
            }
        }
        assert(r1 =~= r2);
    }
}

/// The comparison outcome is unique: for one input, only one result
/// satisfies the fan-out's contract.  Any two runs — sequential, parallel,
/// or in any order — that meet the contract therefore deliver the same
/// result.
pub proof fn law_compare_result_unique(
    s: Seq<char>,
    targets: Seq<Seq<char>>,
    method: SimilarityMethod,
    threshold: Score,
    r1: Seq<(usize, Score)>,
    r2: Seq<(usize, Score)>,
)
    requires
        compare_outcome(s, targets, method, threshold, r1),
        compare_outcome(s, targets, method, threshold, r2),
    ensures
        r1 == r2,
{
    assert forall|x: (usize, Score)| #[trigger] r1.contains(x) <==> #[trigger] r2.contains(
        x,
    ) by {
        if r1.contains(x) {
            let k = choose|k: int| 0 <= k < r1.len() && r1[k] == x;
            let idx = r1[k].0;
            assert(qualifies(s, targets[idx as int], method, threshold));
            let p = choose|p: int| 0 <= p < r2.len() && (#[trigger] r2[p]).0 == idx;
            Score::lemma_eq(r1[k].1, r2[p].1);
            assert(r2[p] == x);
            assert(r2.contains(x));
        }
        if r2.contains(x) {
            let p = choose|p: int| 0 <= p < r2.len() && r2[p] == x;
            let idx = r2[p].0;
            assert(qualifies(s, targets[idx as int], method, threshold));
            let k = choose|k: int| 0 <= k < r1.len() && (#[trigger] r1[k]).0 == idx;
            Score::lemma_eq(r2[p].1, r1[k].1);
            assert(r1[k] == x);
            assert(r1.contains(x));
        }
    }
    lemma_increasing_same_pairs(r1, r2);
}

} // verus!

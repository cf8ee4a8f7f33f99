//! Levenshtein edit distance and the similarity score derived from it.
//!
//! The distance between two character sequences is the least number of
//! single-character insertions, deletions and substitutions that turns one
//! into the other.  The executable computation is a two-row dynamic program
//! over the shorter sequence, with an optional distance budget that lets it
//! stop as soon as a whole row exceeds the budget; a row minimum is a lower
//! bound on the final distance, which is what makes the early stop sound.

use vstd::prelude::*;

use crate::chars::chars_of;
use crate::score::Score;

verus! {

/// The smallest of three values.
pub open spec fn min3(a: nat, b: nat, c: nat) -> nat {
    if a <= b && a <= c {
        a
    } else if b <= c {
        b
    } else {
        c
    }
}

/// The Levenshtein edit distance between two character sequences: the least
/// number of single-character insertions, deletions and substitutions that
/// turns `a` into `b`.
pub open spec fn lev(a: Seq<char>, b: Seq<char>) -> nat
    decreases a.len() + b.len(),
{
    if a.len() == 0 {
        b.len()
    } else if b.len() == 0 {
        a.len()
    } else {
        let cost: nat = if a.last() == b.last() {
            0
        } else {
            1
        };
        min3(
            (lev(a.drop_last(), b) + 1) as nat,
            (lev(a, b.drop_last()) + 1) as nat,
            (lev(a.drop_last(), b.drop_last()) + cost) as nat,
        )
    }
}

/// The distance never exceeds the longer length.
pub proof fn lemma_lev_le_max(a: Seq<char>, b: Seq<char>)
    ensures
        lev(a, b) <= a.len() || lev(a, b) <= b.len(),
        lev(a, b) <= if a.len() >= b.len() {
            a.len()
        } else {
            b.len()
        },
    decreases a.len() + b.len(),
{
    if a.len() == 0 || b.len() == 0 {
    } else {
        lemma_lev_le_max(a.drop_last(), b.drop_last());
    }
}

/// A sequence is at distance 0 from itself.
pub proof fn lemma_lev_self(a: Seq<char>)
    ensures
        lev(a, a) == 0,
    decreases a.len(),
{
    if a.len() > 0 {
        lemma_lev_self(a.drop_last());
    }
}

/// The distance is symmetric.
pub proof fn lemma_lev_sym(a: Seq<char>, b: Seq<char>)
    ensures
        lev(a, b) == lev(b, a),
    decreases a.len() + b.len(),
{
    if a.len() > 0 && b.len() > 0 {
        lemma_lev_sym(a.drop_last(), b);
        lemma_lev_sym(a, b.drop_last());
        lemma_lev_sym(a.drop_last(), b.drop_last());
    }
}

/// The least distance from `a` to any prefix of `b` of length at most `j`:
/// the running minimum of one row of the dynamic program.
pub open spec fn row_min(a: Seq<char>, b: Seq<char>, j: int) -> nat
    decreases j,
{
    if j <= 0 {
        lev(a, b.take(0))
    } else {
        let m = row_min(a, b, j - 1);
        let v = lev(a, b.take(j));
        if v <= m {
            v
        } else {
            m
        }
    }
}

/// The row minimum is a lower bound on each entry of the row.
pub proof fn lemma_row_min_le(a: Seq<char>, b: Seq<char>, k: int, j: int)
    requires
        0 <= k <= j,
    ensures
        row_min(a, b, j) <= lev(a, b.take(k)),
    decreases j,
{
    if k < j {
        lemma_row_min_le(a, b, k, j - 1);
    }
}

/// Every entry of the next row is at least the previous row's minimum.
pub proof fn lemma_push_row(a: Seq<char>, x: char, b: Seq<char>, j: int)
    requires
        0 <= j <= b.len(),
    ensures
        lev(a.push(x), b.take(j)) >= row_min(a, b, j),
    decreases j,
{
    assert(a.push(x).len() == a.len() + 1);
    if j == 0 {
        assert(b.take(0).len() == 0);
    } else {
        lemma_push_row(a, x, b, j - 1);
        assert(b.take(j).len() == j);
        assert(a.push(x).drop_last() =~= a);
        assert(b.take(j).drop_last() =~= b.take(j - 1));
        assert(b.take(j).last() == b[j - 1]);
        lemma_row_min_le(a, b, j, j);
        lemma_row_min_le(a, b, j - 1, j);
    }
}

/// Row minima never decrease from one row to the next.
pub proof fn lemma_row_min_push(a: Seq<char>, x: char, b: Seq<char>, n: int)
    requires
        0 <= n <= b.len(),
    ensures
        row_min(a.push(x), b, n) >= row_min(a, b, n),
    decreases n,
{
    lemma_push_row(a, x, b, n);
    if n > 0 {
        lemma_row_min_push(a, x, b, n - 1);
    }
}

/// The distance between the full sequences is at least the minimum of the
/// row the dynamic program computes for any prefix of `a`.
pub proof fn lemma_lev_ge_row(a: Seq<char>, b: Seq<char>, i: int)
    requires
        0 <= i <= a.len(),
    ensures
        lev(a, b) >= row_min(a.take(i), b, b.len() as int),
    decreases a.len() - i,
{
    if i == a.len() {
        assert(a.take(i) =~= a);
        lemma_row_min_le(a, b, b.len() as int, b.len() as int);
        assert(b.take(b.len() as int) =~= b);
    } else {
        lemma_lev_ge_row(a, b, i + 1);
        assert(a.take(i + 1) =~= a.take(i).push(a[i]));
        lemma_row_min_push(a.take(i), a[i], b, b.len() as int);
    }
}

/// The longer of the two lengths.
pub open spec fn max_len(s: Seq<char>, t: Seq<char>) -> nat {
    if s.len() >= t.len() {
        s.len()
    } else {
        t.len()
    }
}

/// One step of the dynamic program: from the row of distances out of the
/// prefix `apre` of the longer sequence, computes the row for the prefix
/// extended by `ca`, and returns the new row's minimum.
#[verifier::loop_isolation(false)]
fn compute_row(
    prev: &Vec<usize>,
    curr: &mut Vec<usize>,
    b: &[char],
    ca: char,
    i: usize,
    Ghost(apre): Ghost<Seq<char>>,
) -> (rm: usize)
    requires
        1 <= i,
        apre.len() == i - 1,
        old(curr)@.len() == prev@.len(),
        prev@.len() == b@.len() + 1,
        forall|j: int| 0 <= j < prev@.len() ==> prev@[j] == lev(apre, b@.take(j)),
    ensures
        final(curr)@.len() == prev@.len(),
        forall|j: int|
            0 <= j < final(curr)@.len() ==> final(curr)@[j] == lev(apre.push(ca), b@.take(j)),
        rm == row_min(apre.push(ca), b@, b@.len() as int),
{
    let ghost ai = apre.push(ca);
    proof {
        assert(ai.drop_last() =~= apre);
        assert(ai.last() == ca);
        assert(ai.len() == i);
        assert(b@.take(0).len() == 0);
    }
    let cols = prev.len();
    curr.set(0, i);
    let mut rm: usize = i;
    for j in 1..cols
        invariant
            1 <= j <= cols,
            curr@.len() == cols,
            forall|k: int| 0 <= k < j ==> curr@[k] == lev(ai, b@.take(k)),
            rm == row_min(ai, b@, j - 1),
    {
        let cost: usize = if ca == b[j - 1] {
            0
        } else {
            1
        };
        proof {
            assert(b@.take(j as int).drop_last() =~= b@.take(j - 1));
            assert(b@.take(j as int).last() == b@[j - 1]);
            assert(b@.take(j as int).len() == j);
            lemma_lev_le_max(apre, b@.take(j as int));
            lemma_lev_le_max(ai, b@.take(j - 1));
            lemma_lev_le_max(apre, b@.take(j - 1));
            assert(b@.take(j - 1).len() == j - 1);
        }
        let del = prev[j] + 1;
        let up = curr[j - 1];
        // The entry to the left can be as large as the row index, so its
        // increment saturates; a saturated value never wins the minimum,
        // because the substitution entry is always smaller.
        let ins = if up == usize::MAX {
            usize::MAX
        } else {
            up + 1
        };
        let sub = prev[j - 1] + cost;
        let m1 = if del <= ins {
            del
        } else {
            ins
        };
        let cell = if m1 <= sub {
            m1
        } else {
            sub
        };
        proof {
            assert(cell == lev(ai, b@.take(j as int)));
        }
        curr.set(j, cell);
        if cell < rm {
            rm = cell;
        }
    }
    rm
}

/// The Levenshtein distance between `source` and `target`, counted over
/// Unicode characters.
///
/// Without a budget the true distance is returned.  With a budget `Some(m)`
/// the true distance is returned when it is at most `m`, and the sentinel
/// `m + 1` otherwise — except that an empty text is answered with the other
/// text's length at once, before the budget is consulted.
#[verifier::loop_isolation(false)]
pub fn levenshtein_distance(source: &str, target: &str, max_distance: Option<usize>) -> (r: usize)
    ensures
        ({
            let d = lev(source@, target@);
            if source@.len() == 0 || target@.len() == 0 {
                r == d
            } else {
                match max_distance {
                    None => r == d,
                    Some(m) => r == if d <= m {
                        d as int
                    } else {
                        m + 1
                    },
                }
            }
        }),
{
    let sv = chars_of(source);
    let tv = chars_of(target);
    if sv.len() == 0 {
        return tv.len();
    }
    if tv.len() == 0 {
        return sv.len();
    }
    proof {
        lemma_lev_sym(source@, target@);
    }
    let ghost d = lev(source@, target@);
    // The longer sequence `a` selects the row, the shorter `b` the column,
    // so a row is only as wide as the shorter sequence.
    let (a, b) = if sv.len() < tv.len() {
        (tv, sv)
    } else {
        (sv, tv)
    };
    proof {
        assert(lev(a@, b@) == d);
    }
    let alen = a.len();
    let blen = b.len();
    let mut prev: Vec<usize> = Vec::new();
    for j in 0..blen
        invariant
            prev@.len() == j,
            forall|k: int| 0 <= k < j ==> prev@[k] == k,
    {
        prev.push(j);
    }
    prev.push(blen);
    let cols = prev.len();
    let mut curr: Vec<usize> = Vec::new();
    for j in 0..cols
        invariant
            curr@.len() == j,
    {
        curr.push(0);
    }
    proof {
        assert forall|j: int| 0 <= j < cols implies prev@[j] == lev(a@.take(0), b@.take(j)) by {
            assert(a@.take(0).len() == 0);
            assert(b@.take(j).len() == j);
        }
    }
    for im1 in 0..alen
        invariant
            prev@.len() == cols,
            curr@.len() == cols,
            forall|j: int| 0 <= j < cols ==> prev@[j] == lev(a@.take(im1 as int), b@.take(j)),
    {
        let i = im1 + 1;
        let ca = a[im1];
        let rm = compute_row(&prev, &mut curr, b.as_slice(), ca, i, Ghost(a@.take(im1 as int)));
        proof {
            assert(a@.take(im1 as int).push(ca) =~= a@.take(i as int));
        }
        if let Some(m) = max_distance {
            if rm > m {
                proof {
                    lemma_lev_ge_row(a@, b@, i as int);
                }
                return m + 1;
            }
        }
        core::mem::swap(&mut prev, &mut curr);
    }
    proof {
        assert(a@.take(alen as int) =~= a@);
        assert(b@.take(blen as int) =~= b@);
    }
    let result = prev[blen];
    match max_distance {
        Some(m) => if result > m {
            m + 1
        } else {
            result
        },
        None => result,
    }
}

/// Numerator of the Levenshtein similarity: the part of the longer length
/// that did not have to change.  Two empty texts are fully similar; a
/// distance beyond the budget scores 0.
pub open spec fn lev_sim_num(s: Seq<char>, t: Seq<char>, budget: Option<usize>) -> int {
    let d = lev(s, t);
    let ml = max_len(s, t);
    if ml == 0 {
        1
    } else {
        match budget {
            None => ml - d,
            Some(m) => if d <= m {
                ml - d
            } else {
                0
            },
        }
    }
}

/// Denominator of the Levenshtein similarity: the longer length.
pub open spec fn lev_sim_den(s: Seq<char>, t: Seq<char>, budget: Option<usize>) -> int {
    let d = lev(s, t);
    let ml = max_len(s, t);
    if ml == 0 {
        1
    } else {
        match budget {
            None => ml as int,
            Some(m) => if d <= m {
                ml as int
            } else {
                1
            },
        }
    }
}

/// Levenshtein similarity: the distance converted to the fraction of the
/// longer length that did not have to change.  Two empty texts are fully
/// similar.  With a budget, a pair whose distance exceeds it scores 0.
pub fn levenshtein_similarity(source: &str, target: &str, max_distance: Option<usize>) -> (r: Score)
    ensures
        r.wf(),
        r.num() == lev_sim_num(source@, target@, max_distance),
        r.den() == lev_sim_den(source@, target@, max_distance),
{
    let sv = chars_of(source);
    let tv = chars_of(target);
    let ml = if sv.len() >= tv.len() {
        sv.len()
    } else {
        tv.len()
    };
    if ml == 0 {
        return Score::full();
    }
    let d = levenshtein_distance(source, target, max_distance);
    if let Some(m) = max_distance {
        if d > m {
            return Score::zero();
        }
    }
    proof {
        lemma_lev_le_max(source@, target@);
    }
    Score::from_counts((ml - d) as u64, ml as u64)
}

} // verus!

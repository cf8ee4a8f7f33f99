//! Tokenization and normalization of texts.
//!
//! The Jaccard scorer views a text as its whitespace-delimited, lowercased
//! words; the n-gram scorer views it as a normalized character stream
//! (lowercased, whitespace runs collapsed to single spaces).  This module
//! defines both views as specification functions and provides verified
//! executable code that computes them.

use vstd::prelude::*;

verus! {

/// A character with the Unicode `White_Space` property, the set of
/// characters that `str::split_whitespace` splits on.
pub open spec fn is_space(c: char) -> bool {
    let u = c as u32;
    (0x09 <= u && u <= 0x0D) || u == 0x20 || u == 0x85 || u == 0xA0 || u == 0x1680 || (0x2000 <= u
        && u <= 0x200A) || u == 0x2028 || u == 0x2029 || u == 0x202F || u == 0x205F || u == 0x3000
}

/// Decides `is_space`.
pub fn is_space_char(c: char) -> (r: bool)
    ensures
        r == is_space(c),
{
    let u = c as u32;
    (0x09 <= u && u <= 0x0D) || u == 0x20 || u == 0x85 || u == 0xA0 || u == 0x1680 || (0x2000 <= u
        && u <= 0x200A) || u == 0x2028 || u == 0x2029 || u == 0x202F || u == 0x205F || u == 0x3000
}

/// What `str::to_lowercase` returns on a text with these characters.
/// The mapping is a pure function of the character sequence; it is not
/// spelled out here because the full Unicode lowercase mapping is tabular.
pub uninterp spec fn lower_of(s: Seq<char>) -> Seq<char>;

/// Relies on `str::to_lowercase` of std: the result is determined by the
/// input characters alone (documented as the Unicode lowercase mapping).
#[verifier::external_body]
pub(crate) fn lower_chars(w: &[char]) -> (r: Vec<char>)
    ensures
        r@ == lower_of(w@),
{
    let s: String = w.iter().collect();
    s.to_lowercase().chars().collect()
}

/// The character sequences of a list of character vectors.
pub open spec fn views_of(ts: Seq<Vec<char>>) -> Seq<Seq<char>> {
    ts.map_values(|t: Vec<char>| t@)
}

/// The maximal runs of characters that are not separators, in order:
/// how a sequence splits at the characters `issep` accepts.
pub open spec fn runs(s: Seq<char>, issep: spec_fn(char) -> bool) -> Seq<Seq<char>>
    decreases s.len(),
{
    if s.len() == 0 {
        Seq::empty()
    } else {
        let prefix = runs(s.drop_last(), issep);
        let c = s.last();
        if issep(c) {
            prefix
        } else if s.len() >= 2 && !issep(s[s.len() - 2]) {
            prefix.update(prefix.len() - 1, prefix.last().push(c))
        } else {
            prefix.push(seq![c])
        }
    }
}

/// The whitespace-delimited words of `s`, in order: the maximal runs of
/// non-whitespace characters.
pub open spec fn tokens(s: Seq<char>) -> Seq<Seq<char>> {
    runs(s, |c: char| is_space(c))
}

/// The lines of `s`: its maximal runs of characters other than a newline.
pub open spec fn line_runs(s: Seq<char>) -> Seq<Seq<char>> {
    runs(s, |c: char| c == '\n')
}

/// The lowercase mapping applied to each sequence of a list.
pub open spec fn lowered(ts: Seq<Seq<char>>) -> Seq<Seq<char>> {
    ts.map_values(|t: Seq<char>| lower_of(t))
}

/// The words of a text, lowercased and collapsed to a set.
pub open spec fn word_set(s: Seq<char>) -> Set<Seq<char>> {
    lowered(tokens(s)).to_set()
}

/// Splits `s` into its maximal runs of non-whitespace characters.
pub fn tokenize(s: &[char]) -> (r: Vec<Vec<char>>)
    ensures
        views_of(r@) == tokens(s@),
{
    let n = s.len();
    let mut done: Vec<Vec<char>> = Vec::new();
    let mut cur: Vec<char> = Vec::new();
    for i in 0..n
        invariant
            n == s@.len(),
            cur@.len() > 0 <==> (i > 0 && !is_space(s@[i - 1])),
            cur@.len() > 0 ==> tokens(s@.take(i as int)) == views_of(done@).push(cur@),
            cur@.len() == 0 ==> tokens(s@.take(i as int)) == views_of(done@),
    {
        proof {
            assert(s@.take(i + 1).drop_last() =~= s@.take(i as int));
            assert(s@.take(i + 1).last() == s@[i as int]);
        }
        if is_space_char(s[i]) {
            if cur.len() > 0 {
                let ghost done0 = done@;
                done.push(cur);
                cur = Vec::new();
                proof {
                    assert(views_of(done@) =~= views_of(done0).push(done@.last()@));
                }
            }
            proof {
                assert(tokens(s@.take(i + 1)) == tokens(s@.take(i as int)));
                if done@.len() > 0 {
                    assert(views_of(done@) =~= tokens(s@.take(i + 1)));
                }
            }
        } else {
            if cur.len() > 0 {
                proof {
                    let pre = tokens(s@.take(i as int));
                    assert(s@.take(i + 1)[s@.take(i + 1).len() - 2] == s@[i - 1]);
                    assert(tokens(s@.take(i + 1)) == pre.update(
                        pre.len() - 1,
                        pre.last().push(s@[i as int]),
                    ));
                    assert(tokens(s@.take(i + 1)) =~= views_of(done@).push(cur@.push(s@[i as int])));
                }
                cur.push(s[i]);
            } else {
                proof {
                    if i > 0 {
                        assert(s@.take(i + 1)[s@.take(i + 1).len() - 2] == s@[i - 1]);
                    }
                    assert(tokens(s@.take(i + 1)) == tokens(s@.take(i as int)).push(
                        seq![s@[i as int]],
                    ));
                    assert(tokens(s@.take(i + 1)) =~= views_of(done@).push(seq![s@[i as int]]));
                }
                cur.push(s[i]);
                proof {
                    assert(cur@ =~= seq![s@[i as int]]);
                }
            }
        }
    }
    proof {
        assert(s@.take(n as int) =~= s@);
    }
    if cur.len() > 0 {
        done.push(cur);
        proof {
            assert(views_of(done@) =~= tokens(s@));
        }
    }
    done
}

/// Splits `s` into its maximal runs of characters other than a newline.
pub fn split_lines(s: &[char]) -> (r: Vec<Vec<char>>)
    ensures
        views_of(r@) == line_runs(s@),
{
    let n = s.len();
    let mut done: Vec<Vec<char>> = Vec::new();
    let mut cur: Vec<char> = Vec::new();
    for i in 0..n
        invariant
            n == s@.len(),
            cur@.len() > 0 <==> (i > 0 && s@[i - 1] != '\n'),
            cur@.len() > 0 ==> line_runs(s@.take(i as int)) == views_of(done@).push(cur@),
            cur@.len() == 0 ==> line_runs(s@.take(i as int)) == views_of(done@),
    {
        proof {
            assert(s@.take(i + 1).drop_last() =~= s@.take(i as int));
            assert(s@.take(i + 1).last() == s@[i as int]);
        }
        if s[i] == '\n' {
            if cur.len() > 0 {
                let ghost done0 = done@;
                done.push(cur);
                cur = Vec::new();
                proof {
                    assert(views_of(done@) =~= views_of(done0).push(done@.last()@));
                }
            }
            proof {
                assert(line_runs(s@.take(i + 1)) == line_runs(s@.take(i as int)));
                if done@.len() > 0 {
                    assert(views_of(done@) =~= line_runs(s@.take(i + 1)));
                }
            }
        } else {
            if cur.len() > 0 {
                proof {
                    let pre = line_runs(s@.take(i as int));
                    assert(s@.take(i + 1)[s@.take(i + 1).len() - 2] == s@[i - 1]);
                    assert(line_runs(s@.take(i + 1)) == pre.update(
                        pre.len() - 1,
                        pre.last().push(s@[i as int]),
                    ));
                    assert(line_runs(s@.take(i + 1)) =~= views_of(done@).push(
                        cur@.push(s@[i as int]),
                    ));
                }
                cur.push(s[i]);
            } else {
                proof {
                    if i > 0 {
                        assert(s@.take(i + 1)[s@.take(i + 1).len() - 2] == s@[i - 1]);
                    }
                    assert(line_runs(s@.take(i + 1)) == line_runs(s@.take(i as int)).push(
                        seq![s@[i as int]],
                    ));
                    assert(line_runs(s@.take(i + 1)) =~= views_of(done@).push(
                        seq![s@[i as int]],
                    ));
                }
                cur.push(s[i]);
                proof {
                    assert(cur@ =~= seq![s@[i as int]]);
                }
            }
        }
    }
    proof {
        assert(s@.take(n as int) =~= s@);
    }
    if cur.len() > 0 {
        done.push(cur);
        proof {
            assert(views_of(done@) =~= line_runs(s@));
        }
    }
    done
}

/// The characters of `s` with every whitespace character other than a
/// plain space removed.
pub open spec fn strip_exotic_ws(s: Seq<char>) -> Seq<char> {
    s.filter(|c: char| !is_space(c) || c == ' ')
}

/// Removes every whitespace character that is not a plain space.
pub fn strip_exotic(s: &[char]) -> (r: Vec<char>)
    ensures
        r@ == strip_exotic_ws(s@),
{
    let n = s.len();
    let mut r: Vec<char> = Vec::new();
    for i in 0..n
        invariant
            n == s@.len(),
            r@ == strip_exotic_ws(s@.take(i as int)),
    {
        proof {
            reveal(Seq::filter);
            assert(s@.take(i + 1).drop_last() =~= s@.take(i as int));
            assert(s@.take(i + 1).last() == s@[i as int]);
        }
        if !is_space_char(s[i]) || s[i] == ' ' {
            r.push(s[i]);
        }
    }
    proof {
        assert(s@.take(n as int) =~= s@);
    }
    r
}

/// The pieces joined back together with the separator between them.
pub open spec fn joined(ts: Seq<Seq<char>>, sep: char) -> Seq<char>
    decreases ts.len(),
{
    if ts.len() == 0 {
        Seq::empty()
    } else if ts.len() == 1 {
        ts[0]
    } else {
        joined(ts.drop_last(), sep) + seq![sep] + ts.last()
    }
}

/// Joins pieces with a single separator between them.
#[verifier::loop_isolation(false)]
pub fn join_with(ts: &Vec<Vec<char>>, sep: char) -> (r: Vec<char>)
    ensures
        r@ == joined(views_of(ts@), sep),
{
    let n = ts.len();
    let mut r: Vec<char> = Vec::new();
    for i in 0..n
        invariant
            r@ == joined(views_of(ts@).take(i as int), sep),
    {
        proof {
            assert(views_of(ts@).take(i + 1).drop_last() =~= views_of(ts@).take(i as int));
            assert(views_of(ts@).take(i + 1).last() == views_of(ts@)[i as int]);
        }
        if i > 0 {
            r.push(sep);
        }
        let ghost mid = r@;
        let t = &ts[i];
        let m = t.len();
        for j in 0..m
            invariant
                m == t@.len(),
                t@ == ts@[i as int]@,
                r@ == mid + t@.take(j as int),
        {
            r.push(t[j]);
            proof {
                assert(t@.take(j + 1) =~= t@.take(j as int).push(t@[j as int]));
                assert(mid + t@.take(j as int).push(t@[j as int]) =~= (mid + t@.take(
                    j as int,
                )).push(t@[j as int]));
            }
        }
        proof {
            assert(t@.take(m as int) =~= t@);
            if i == 0 {
                assert(r@ =~= joined(views_of(ts@).take(1), sep));
            } else {
                assert(r@ =~= joined(views_of(ts@).take(i as int), sep) + seq![sep]
                    + views_of(ts@)[i as int]);
            }
        }
    }
    proof {
        assert(views_of(ts@).take(n as int) =~= views_of(ts@));
    }
    r
}

/// The normalized character stream the n-gram scorer windows over:
/// lowercased, with whitespace runs collapsed to single spaces and
/// leading and trailing whitespace dropped.
pub open spec fn normalized(s: Seq<char>) -> Seq<char> {
    joined(tokens(strip_exotic_ws(lower_of(s))), ' ')
}

/// Computes the normalized character stream of a text.
pub fn normalize(s: &str) -> (r: Vec<char>)
    ensures
        r@ == normalized(s@),
{
    let sv = crate::chars::chars_of(s);
    let low = lower_chars(sv.as_slice());
    let stripped = strip_exotic(low.as_slice());
    let toks = tokenize(stripped.as_slice());
    join_with(&toks, ' ')
}

/// Applies the lowercase mapping to each word.
pub fn lower_all(ts: Vec<Vec<char>>) -> (r: Vec<Vec<char>>)
    ensures
        views_of(r@) == lowered(views_of(ts@)),
{
    let mut r: Vec<Vec<char>> = Vec::new();
    let n = ts.len();
    for i in 0..n
        invariant
            n == ts@.len(),
            r@.len() == i,
            forall|j: int| 0 <= j < i ==> r@[j]@ == lower_of(ts@[j]@),
    {
        let low = lower_chars(ts[i].as_slice());
        r.push(low);
    }
    proof {
        assert(views_of(r@) =~~= lowered(views_of(ts@)));
    }
    r
}

} // verus!

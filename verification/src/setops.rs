//! Duplicate-free word lists and their set operations.
//!
//! Both overlap scorers reduce a text to a finite set of character
//! sequences (words or n-grams) and score the pair of texts by the ratio
//! of intersection to union.  The sets are carried as duplicate-free
//! vectors, so their lengths are exactly the set cardinalities.

use vstd::prelude::*;

use crate::chars::{chars_eq, copy_chars};
use crate::tokenize::views_of;

verus! {

broadcast use vstd::prelude::Seq::<_>::lemma_push_to_set_commute, vstd::seq_lib::seq_to_set_is_finite;

/// Does `list` hold a vector with exactly the characters of `x`?
pub fn contains_chars(list: &Vec<Vec<char>>, x: &[char]) -> (r: bool)
    ensures
        r == views_of(list@).contains(x@),
{
    let n = list.len();
    let mut i: usize = 0;
    while i < n
        invariant
            n == list@.len(),
            0 <= i <= n,
            forall|j: int| 0 <= j < i ==> views_of(list@)[j] != x@,
        decreases n - i,
    {
        if chars_eq(list[i].as_slice(), x) {
            proof {
                assert(views_of(list@)[i as int] == x@);
            }
            return true;
        }
        i += 1;
    }
    proof {
        assert(!views_of(list@).contains(x@)) by {
            if views_of(list@).contains(x@) {
                let j = choose|j: int|
                    0 <= j < views_of(list@).len() && views_of(list@)[j] == x@;
                assert(false);
            }
        }
    }
    false
}

/// Drops repeated entries, keeping first occurrences: the result lists the
/// same set of character sequences, each exactly once.
pub fn dedup(items: &Vec<Vec<char>>) -> (r: Vec<Vec<char>>)
    ensures
        views_of(r@).no_duplicates(),
        views_of(r@).to_set() == views_of(items@).to_set(),
{
    let mut r: Vec<Vec<char>> = Vec::new();
    let n = items.len();
    for i in 0..n
        invariant
            n == items@.len(),
            views_of(r@).no_duplicates(),
            views_of(r@).to_set() == views_of(items@).take(i as int).to_set(),
    {
        proof {
            assert(views_of(items@).take(i + 1) =~= views_of(items@).take(i as int).push(
                views_of(items@)[i as int],
            ));
        }
        let ghost r0 = views_of(r@);
        if !contains_chars(&r, items[i].as_slice()) {
            r.push(copy_chars(items[i].as_slice()));
            proof {
                assert(views_of(r@) =~= r0.push(items@[i as int]@));
                assert forall|p: int, q: int|
                    0 <= p < q < views_of(r@).len() implies views_of(r@)[p] != views_of(
                    r@,
                )[q] by {
                    if q == views_of(r@).len() - 1 {
                        assert(!r0.contains(views_of(r@)[q]));
                    }
                }
            }
        } else {
            proof {
                assert(views_of(items@).take(i as int).to_set().insert(items@[i as int]@)
                    =~= views_of(items@).take(i as int).to_set());
            }
        }
    }
    proof {
        assert(views_of(items@).take(n as int) =~= views_of(items@));
    }
    r
}

/// Counts the elements of the duplicate-free list `a` that `b` also holds:
/// exactly the cardinality of the intersection of the two sets.
#[verifier::loop_isolation(false)]
pub fn count_common(a: &Vec<Vec<char>>, b: &Vec<Vec<char>>) -> (r: usize)
    requires
        views_of(a@).no_duplicates(),
    ensures
        r == views_of(a@).to_set().intersect(views_of(b@).to_set()).len(),
{
    let ghost bs = views_of(b@).to_set();
    let mut count: usize = 0;
    let n = a.len();
    proof {
        assert(views_of(a@).take(0).to_set().intersect(bs) =~= Set::<Seq<char>>::empty());
    }
    for i in 0..n
        invariant
            count <= i,
            count == views_of(a@).take(i as int).to_set().intersect(bs).len(),
    {
        let ghost pre = views_of(a@).take(i as int).to_set();
        let ghost x = views_of(a@)[i as int];
        proof {
            assert(views_of(a@).take(i + 1) =~= views_of(a@).take(i as int).push(x));
            assert(!pre.contains(x)) by {
                if pre.contains(x) {
                    let j = choose|j: int|
                        0 <= j < views_of(a@).take(i as int).len() && views_of(a@).take(
                            i as int,
                        )[j] == x;
                    assert(views_of(a@)[j] == views_of(a@)[i as int]);
                    assert(false);
                }
            }
        }
        if contains_chars(b, a[i].as_slice()) {
            proof {
                assert(views_of(b@).contains(x));
                assert(bs.contains(x));
                assert(pre.insert(x).intersect(bs) =~= pre.intersect(bs).insert(x));
                vstd::set_lib::lemma_len_subset(pre.intersect(bs), pre);
            }
            count += 1;
        } else {
            proof {
                assert(pre.insert(x).intersect(bs) =~= pre.intersect(bs));
            }
        }
    }
    proof {
        assert(views_of(a@).take(n as int) =~= views_of(a@));
    }
    count
}

/// The union of the two sets as a duplicate-free list: all of the
/// duplicate-free list `a`, then every element of `b` not already present.
#[verifier::loop_isolation(false)]
pub fn union_list(a: &Vec<Vec<char>>, b: &Vec<Vec<char>>) -> (r: Vec<Vec<char>>)
    requires
        views_of(a@).no_duplicates(),
    ensures
        views_of(r@).no_duplicates(),
        views_of(r@).to_set() == views_of(a@).to_set().union(views_of(b@).to_set()),
{
    let mut r: Vec<Vec<char>> = Vec::new();
    let na = a.len();
    for i in 0..na
        invariant
            na == a@.len(),
            views_of(a@).no_duplicates(),
            views_of(r@) =~= views_of(a@).take(i as int),
    {
        let ghost r0 = views_of(r@);
        r.push(copy_chars(a[i].as_slice()));
        proof {
            assert(views_of(r@) =~= r0.push(views_of(a@)[i as int]));
            assert(views_of(a@).take(i + 1) =~= views_of(a@).take(i as int).push(
                views_of(a@)[i as int],
            ));
        }
    }
    proof {
        assert(views_of(r@) =~= views_of(a@));
    }
    let nb = b.len();
    for i in 0..nb
        invariant
            nb == b@.len(),
            views_of(r@).no_duplicates(),
            views_of(r@).to_set() == views_of(a@).to_set().union(
                views_of(b@).take(i as int).to_set(),
            ),
    {
        proof {
            assert(views_of(b@).take(i + 1) =~= views_of(b@).take(i as int).push(
                views_of(b@)[i as int],
            ));
        }
        let ghost r0 = views_of(r@);
        if !contains_chars(&r, b[i].as_slice()) {
            r.push(copy_chars(b[i].as_slice()));
            proof {
                assert(views_of(r@) =~= r0.push(b@[i as int]@));
                assert forall|p: int, q: int|
                    0 <= p < q < views_of(r@).len() implies views_of(r@)[p] != views_of(
                    r@,
                )[q] by {
                    if q == views_of(r@).len() - 1 {
                        assert(!r0.contains(views_of(r@)[q]));
                    }
                }
                assert(views_of(r@).to_set() =~= views_of(a@).to_set().union(
                    views_of(b@).take(i + 1).to_set(),
                ));
            }
        } else {
            proof {
                assert(views_of(r@).to_set() =~= views_of(a@).to_set().union(
                    views_of(b@).take(i + 1).to_set(),
                ));
            }
        }
    }
    proof {
        assert(views_of(b@).take(nb as int) =~= views_of(b@));
    }
    r
}

} // verus!

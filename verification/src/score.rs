//! Exact rational similarity scores.
//!
//! A similarity score is a fraction `num / den` in `[0, 1]`, reported to
//! callers as a percentage in `[0, 100]`.  Keeping the exact fraction instead
//! of a rounded value makes every threshold comparison exact: `a >= b` is
//! decided by cross-multiplication, which never overflows when carried out
//! in 128-bit arithmetic.

use vstd::prelude::*;

verus! {

/// An exact similarity value in `[0, 1]`, reported as a percentage.
///
/// The fraction is `num / den` with `0 <= num <= den` and `den >= 1`;
/// the percentage it stands for is `100 * num / den`.
#[derive(Clone, Copy, Debug, PartialEq, Eq, Structural)]
pub struct Score {
    pub(crate) num: u64,
    pub(crate) den: u64,
}

/// Widening multiplication: the product of two `u64` values always fits in `u128`.
pub(crate) fn mul_wide(a: u64, b: u64) -> (r: u128)
    ensures
        r == (a as int) * (b as int),
{
    proof {
        assert((a as int) * (b as int) <= 0xffff_ffff_ffff_ffff * 0xffff_ffff_ffff_ffff)
            by (nonlinear_arith)
            requires
                0 <= a as int <= 0xffff_ffff_ffff_ffff,
                0 <= b as int <= 0xffff_ffff_ffff_ffff,
        ;
    }
    (a as u128) * (b as u128)
}

impl Score {
    /// The numerator of the fraction.
    pub closed spec fn num(self) -> int {
        self.num as int
    }

    /// The denominator of the fraction.
    pub closed spec fn den(self) -> int {
        self.den as int
    }

    /// Well-formed scores denote a fraction in `[0, 1]`.
    pub open spec fn wf(self) -> bool {
        1 <= self.den() && 0 <= self.num() <= self.den()
    }

    /// `self` and `other` denote the same rational value.
    pub open spec fn same_value(self, other: Score) -> bool {
        self.num() * other.den() == other.num() * self.den()
    }

    /// The rational value of `self` is at least that of `other`.
    pub open spec fn spec_ge(self, other: Score) -> bool {
        self.num() * other.den() >= other.num() * self.den()
    }

    /// The rational value of `self` is below that of `other`.
    pub open spec fn spec_lt(self, other: Score) -> bool {
        self.num() * other.den() < other.num() * self.den()
    }

    /// The score denotes exactly 0.
    pub open spec fn is_zero_spec(self) -> bool {
        self.num() == 0
    }

    /// The score denotes exactly 1, that is 100 percent.
    pub open spec fn is_full_spec(self) -> bool {
        self.num() == self.den()
    }

    /// Scores with the same numerator and denominator are the same score.
    pub proof fn lemma_eq(a: Score, b: Score)
        requires
            a.num() == b.num(),
            a.den() == b.den(),
        ensures
            a == b,
    {
    }

    /// The score that stands for 0 percent.
    pub fn zero() -> (r: Score)
        ensures
            r.wf(),
            r.num() == 0,
            r.den() == 1,
    {
        Score { num: 0, den: 1 }
    }

    /// The score that stands for 100 percent.
    pub fn full() -> (r: Score)
        ensures
            r.wf(),
            r.num() == 1,
            r.den() == 1,
    {
        Score { num: 1, den: 1 }
    }

    /// The fraction `hits / total`.
    pub fn from_counts(hits: u64, total: u64) -> (r: Score)
        requires
            1 <= total,
            hits <= total,
        ensures
            r.wf(),
            r.num() == hits,
            r.den() == total,
    {
        Score { num: hits, den: total }
    }

    /// The score that stands for `p` percent.
    pub fn from_percent(p: u64) -> (r: Score)
        requires
            p <= 100,
        ensures
            r.wf(),
            r.num() == p,
            r.den() == 100,
    {
        Score { num: p, den: 100 }
    }

    /// The numerator and denominator of the fraction, for callers that
    /// render the score outside the library.
    pub fn fraction(&self) -> (r: (u64, u64))
        ensures
            r.0 == self.num(),
            r.1 == self.den(),
    {
        (self.num, self.den)
    }

    /// Do the two scores denote the same rational value?
    pub fn same(&self, other: &Score) -> (r: bool)
        ensures
            r == self.same_value(*other),
    {
        mul_wide(self.num, other.den) == mul_wide(other.num, self.den)
    }

    /// Exact comparison: is `self` at least `other`?
    pub fn ge(&self, other: &Score) -> (r: bool)
        requires
            self.wf(),
            other.wf(),
        ensures
            r == self.spec_ge(*other),
    {
        mul_wide(self.num, other.den) >= mul_wide(other.num, self.den)
    }

    /// Exact comparison: is `self` below `other`?
    pub fn lt(&self, other: &Score) -> (r: bool)
        requires
            self.wf(),
            other.wf(),
        ensures
            r == self.spec_lt(*other),
    {
        mul_wide(self.num, other.den) < mul_wide(other.num, self.den)
    }

    /// Treating `self` as a threshold: can a pair whose lengths differ by
    /// `diff`, the longer being `ml`, still reach it?  The test is
    /// `(diff / ml) * 100 <= 100 - self`, decided exactly.
    pub fn gap_within(&self, diff: u64, ml: u64) -> (r: bool)
        requires
            self.wf(),
        ensures
            r == (diff * self.den() <= ml * (self.den() - self.num())),
    {
        mul_wide(diff, self.den) <= mul_wide(ml, self.den - self.num)
    }

    /// Does the score denote 0 percent?
    pub fn is_zero(&self) -> (r: bool)
        ensures
            r == self.is_zero_spec(),
    {
        self.num == 0
    }

    /// Does the score denote 100 percent?
    pub fn is_full(&self) -> (r: bool)
        ensures
            r == self.is_full_spec(),
    {
        self.num == self.den
    }
}

} // verus!

//! A sequence of raw values, run-length encoded, with the denominator by
//! which a caller scales them.

use crate::runs::{block_count, canonical, expand, lemma_runs_are_blocks};
use crate::store::{push_value, rle_len, rle_new, rle_runs, rle_runs_len};
use rle_vec::RleVec;
use vstd::prelude::*;

verus! {

/// A run-length encoded sequence of `i16` values and a denominator.
///
/// The library stores the denominator and never applies it: a value `x` stands
/// for `x / denominator`, which the caller computes in the number type of its
/// choice.
pub struct RleNumSeq {
    rle: RleVec<i16>,
    denominator: i16,
}

/// What an [`RleNumSeq`] holds.
pub struct RleNumSeqView {
    /// The runs, first to last, each as `(value, len)`.
    pub runs: Seq<(i16, usize)>,
    /// The scale factor, as it was given.
    pub denominator: i16,
}

impl RleNumSeqView {
    /// The encoded sequence, written out.
    pub open spec fn values(self) -> Seq<i16> {
        expand(self.runs)
    }
}

impl View for RleNumSeq {
    type V = RleNumSeqView;

    closed spec fn view(&self) -> RleNumSeqView {
        RleNumSeqView { runs: rle_runs(self.rle), denominator: self.denominator }
    }
}

impl RleNumSeq {
    #[verifier::type_invariant]
    spec fn well_formed(self) -> bool {
        &&& canonical(rle_runs(self.rle))
        &&& expand(rle_runs(self.rle)).len() <= usize::MAX
    }

    /// Encodes `v`, in order, and stores `d` beside it. Any input is accepted,
    /// the empty one too.
    ///
    /// The runs are the maximal blocks of equal neighbours of `v`: they are
    /// canonical, they stand for `v`, and there are as many of them as `v` has
    /// such blocks.
    pub fn new(v: &Vec<i16>, d: i16) -> (s: RleNumSeq)
        ensures
            s@.denominator == d,
            s@.values() == v@,
            canonical(s@.runs),
            s@.runs.len() == block_count(v@),
            s@.values().len() == v.len(),
    {
        let mut rle = rle_new();
        let mut i: usize = 0;
        while i < v.len()
            invariant
                i <= v.len(),
                canonical(rle_runs(rle)),
                expand(rle_runs(rle)) == v@.take(i as int),
            decreases v.len() - i,
        {
            push_value(&mut rle, v[i]);
            i += 1;
        }
        proof {
            assert(v@.take(v.len() as int) == v@);
            lemma_runs_are_blocks(rle_runs(rle));
        }
        RleNumSeq { rle, denominator: d }
    }

    /// The number of values in the sequence.
    pub fn len(&self) -> (n: usize)
        ensures
            n == self@.values().len(),
    {
        proof {
            use_type_invariant(self);
        }
        rle_len(&self.rle)
    }

    /// The number of runs, which is the number of maximal blocks of equal
    /// neighbours in the sequence.
    pub fn runs_len(&self) -> (n: usize)
        ensures
            n == self@.runs.len(),
            n == block_count(self@.values()),
    {
        proof {
            use_type_invariant(self);
            lemma_runs_are_blocks(rle_runs(self.rle));
        }
        rle_runs_len(&self.rle)
    }

    /// The denominator, as it was given to [`RleNumSeq::new`].
    pub fn denominator(&self) -> (d: i16)
        ensures
            d == self@.denominator,
    {
        self.denominator
    }

    /// The container that holds the runs, for callers that walk or index it.
    pub fn rle(&self) -> (rle: &RleVec<i16>)
        ensures
            rle_runs(*rle) == self@.runs,
    {
        &self.rle
    }
}

} // verus!

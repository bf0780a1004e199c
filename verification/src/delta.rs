//! A sequence kept as its first value and the run-length encoded differences
//! of its neighbours, and decoded again by a running sum.
//!
//! Differences are taken with checked subtraction: a sequence with a
//! difference that is no `i16` is refused, so what is stored are the true
//! differences and the running sum of decoding never overflows.

use crate::error::NumSeqError;
use crate::runs::{
    block_count, canonical, expand, lemma_block_count_same_shape, lemma_expand_index,
    lemma_runs_are_blocks,
};
use crate::store::{push_value, rle_len, rle_new, rle_runs, rle_runs_len, rle_to_runs};
use rle_vec::RleVec;
use vstd::prelude::*;

verus! {

/// The step from `v[i]` to `v[i + 1]`, as a mathematical integer.
pub open spec fn step(v: Seq<i16>, i: int) -> int {
    v[i + 1] - v[i]
}

/// The differences of the neighbours of `v`: one fewer than `v` has values,
/// and none where `v` is empty.
pub open spec fn differences(v: Seq<i16>) -> Seq<int> {
    Seq::new(
        if v.len() > 0 {
            (v.len() - 1) as nat
        } else {
            0
        },
        |i: int| step(v, i),
    )
}

/// Every difference of neighbours in `v` is an `i16`.
pub open spec fn differences_fit(v: Seq<i16>) -> bool {
    forall|i: int| 0 <= i < v.len() - 1 ==> i16::MIN <= #[trigger] step(v, i) <= i16::MAX
}

/// The differences of `v` as they are stored: each one as an `i16`.
pub open spec fn deltas_of(v: Seq<i16>) -> Seq<i16> {
    differences(v).map_values(|d: int| d as i16)
}

/// The sum of the elements of `s`.
pub open spec fn sum(s: Seq<i16>) -> int
    decreases s.len(),
{
    if s.len() == 0 {
        0
    } else {
        sum(s.drop_last()) + s.last()
    }
}

/// The value `k` steps behind `root`: `root` plus the first `k` deltas.
pub open spec fn value_at(root: i16, deltas: Seq<i16>, k: int) -> int {
    root + sum(deltas.take(k))
}

/// Every value reached from `root` by `deltas` is an `i16`.
pub open spec fn sums_fit(root: i16, deltas: Seq<i16>) -> bool {
    forall|k: int|
        0 <= k <= deltas.len() ==> i16::MIN <= #[trigger] value_at(root, deltas, k) <= i16::MAX
}

/// The sequence that starts at `root` and moves on by each of `deltas` in
/// turn: one value more than there are deltas.
pub open spec fn running_sums(root: i16, deltas: Seq<i16>) -> Seq<i16> {
    Seq::new(deltas.len() + 1, |k: int| value_at(root, deltas, k) as i16)
}

/// Taking one more delta moves the value by that delta.
pub proof fn lemma_value_at_next(root: i16, deltas: Seq<i16>, k: int)
    requires
        0 <= k < deltas.len(),
    ensures
        value_at(root, deltas, k + 1) == value_at(root, deltas, k) + deltas[k],
{
    assert(deltas.take(k + 1).drop_last() == deltas.take(k));
}

/// Where the differences of `v` fit, the first value plus the first `k`
/// stored differences is `v[k]`.
pub proof fn lemma_sums_telescope(v: Seq<i16>, k: int)
    requires
        differences_fit(v),
        0 <= k < v.len(),
    ensures
        value_at(v[0], deltas_of(v), k) == v[k],
    decreases k,
{
    if k > 0 {
        lemma_sums_telescope(v, k - 1);
        lemma_value_at_next(v[0], deltas_of(v), k - 1);
    }
}

/// Decoding inverts encoding: for every non-empty `v` whose differences fit,
/// the running sums from `v[0]` over the stored differences of `v` are `v`
/// itself, and none of them leaves the range of `i16`.
pub proof fn lemma_round_trip(v: Seq<i16>)
    requires
        v.len() > 0,
        differences_fit(v),
    ensures
        sums_fit(v[0], deltas_of(v)),
        running_sums(v[0], deltas_of(v)) == v,
{
    assert forall|k: int| 0 <= k <= deltas_of(v).len() implies #[trigger] value_at(
        v[0],
        deltas_of(v),
        k,
    ) == v[k] by {
        lemma_sums_telescope(v, k);
    }
}

/// Where the differences of `v` fit, the canonical runs of the stored
/// differences are as many as the maximal blocks of equal neighbours among the
/// true differences.
pub proof fn lemma_stored_runs_are_blocks(v: Seq<i16>, runs: Seq<(i16, usize)>)
    requires
        differences_fit(v),
        canonical(runs),
        expand(runs) == deltas_of(v),
    ensures
        runs.len() == block_count(differences(v)),
{
    lemma_runs_are_blocks(runs);
    lemma_block_count_same_shape(deltas_of(v), differences(v));
}

/// A sequence as its first value and the run-length encoded differences of
/// its neighbours.
pub struct DeltaRleNumSeq {
    root: i16,
    rle: RleVec<i16>,
}

/// What a [`DeltaRleNumSeq`] holds.
pub struct DeltaRleNumSeqView {
    /// The first value of the sequence.
    pub root: i16,
    /// The runs of the differences, first to last, each as `(value, len)`.
    pub runs: Seq<(i16, usize)>,
}

impl DeltaRleNumSeqView {
    /// The differences, written out.
    pub open spec fn deltas(self) -> Seq<i16> {
        expand(self.runs)
    }

    /// The sequence that the root and the differences stand for.
    pub open spec fn decoded(self) -> Seq<i16> {
        running_sums(self.root, self.deltas())
    }
}

impl View for DeltaRleNumSeq {
    type V = DeltaRleNumSeqView;

    closed spec fn view(&self) -> DeltaRleNumSeqView {
        DeltaRleNumSeqView { root: self.root, runs: rle_runs(self.rle) }
    }
}

impl DeltaRleNumSeq {
    #[verifier::type_invariant]
    spec fn well_formed(self) -> bool {
        &&& canonical(rle_runs(self.rle))
        &&& expand(rle_runs(self.rle)).len() < usize::MAX
        &&& sums_fit(self.root, expand(rle_runs(self.rle)))
    }

    /// Encodes `v` as its first value and the differences of its neighbours.
    ///
    /// Fails with [`NumSeqError::InvalidInput`] exactly when `v` is empty, and
    /// with [`NumSeqError::Overflow`] exactly when `v` is not empty and some
    /// difference of neighbours is no `i16`. Otherwise the stored differences
    /// are the true ones, their runs are the maximal blocks of equal
    /// neighbours among them, and decoding gives `v` back.
    pub fn new(v: &Vec<i16>) -> (res: Result<DeltaRleNumSeq, NumSeqError>)
        ensures
            (res matches Err(NumSeqError::InvalidInput)) <==> v.len() == 0,
            (res matches Err(NumSeqError::Overflow)) <==> v.len() > 0 && !differences_fit(v@),
            res is Ok <==> v.len() > 0 && differences_fit(v@),
            res matches Ok(d) ==> {
                &&& d@.root == v[0]
                &&& d@.deltas() == deltas_of(v@)
                &&& canonical(d@.runs)
                &&& d@.runs.len() == block_count(differences(v@))
                &&& d@.deltas().len() == v.len() - 1
                &&& d@.decoded() == v@
            },
    {
        if v.len() == 0 {
            return Err(NumSeqError::InvalidInput);
        }
        let root = v[0];
        let mut rle = rle_new();
        let mut i: usize = 1;
        while i < v.len()
            invariant
                1 <= i <= v.len(),
                canonical(rle_runs(rle)),
                expand(rle_runs(rle)) == deltas_of(v@).take(i - 1),
                forall|j: int| 0 <= j < i - 1 ==> i16::MIN <= #[trigger] step(v@, j) <= i16::MAX,
            decreases v.len() - i,
        {
            match v[i].checked_sub(v[i - 1]) {
                None => {
                    proof {
                        assert(!(i16::MIN <= step(v@, i - 1) <= i16::MAX));
                    }
                    return Err(NumSeqError::Overflow);
                },
                Some(delta) => {
                    push_value(&mut rle, delta);
                },
            }
            i += 1;
        }
        proof {
            assert(deltas_of(v@).take(v.len() - 1) == deltas_of(v@));
            lemma_round_trip(v@);
            lemma_stored_runs_are_blocks(v@, rle_runs(rle));
        }
        Ok(DeltaRleNumSeq { root, rle })
    }

    /// Rebuilds the sequence: the root, then the running sum of the
    /// differences, run by run. No sum overflows.
    #[verifier::loop_isolation(false)]
    pub fn decode(&self) -> (out: Vec<i16>)
        ensures
            out@ == self@.decoded(),
            out.len() == self@.deltas().len() + 1,
    {
        proof {
            use_type_invariant(self);
        }
        let runs = rle_to_runs(&self.rle);
        let ghost deltas = expand(runs@);
        let ghost target = running_sums(self.root, deltas);
        let mut out: Vec<i16> = Vec::new();
        out.push(self.root);
        let mut acc: i16 = self.root;
        let mut i: usize = 0;
        while i < runs.len()
            invariant
                i <= runs.len(),
                out@.len() == expand(runs@.take(i as int)).len() + 1,
                out@ == target.take(out@.len() as int),
                acc == out@.last(),
            decreases runs.len() - i,
        {
            let value = runs[i].0;
            let len = runs[i].1;
            let mut k: usize = 0;
            while k < len
                invariant
                    k <= len,
                    out@.len() == expand(runs@.take(i as int)).len() + k + 1,
                    out@ == target.take(out@.len() as int),
                    acc == out@.last(),
                decreases len - k,
            {
                proof {
                    lemma_expand_index(runs@, i as int, k as int);
                    lemma_value_at_next(self.root, deltas, out@.len() - 1);
                }
                acc = acc + value;
                out.push(acc);
                k += 1;
            }
            proof {
                assert(runs@.take(i + 1).drop_last() == runs@.take(i as int));
            }
            i += 1;
        }
        proof {
            assert(runs@.take(runs.len() as int) == runs@);
        }
        out
    }

    /// The first value of the sequence.
    pub fn root(&self) -> (r: i16)
        ensures
            r == self@.root,
    {
        self.root
    }

    /// The number of stored differences: one fewer than the sequence has
    /// values.
    pub fn len(&self) -> (n: usize)
        ensures
            n == self@.deltas().len(),
            n + 1 == self@.decoded().len(),
    {
        proof {
            use_type_invariant(self);
        }
        rle_len(&self.rle)
    }

    /// The number of runs, which is the number of maximal blocks of equal
    /// neighbours among the differences.
    pub fn runs_len(&self) -> (n: usize)
        ensures
            n == self@.runs.len(),
            n == block_count(self@.deltas()),
    {
        proof {
            use_type_invariant(self);
            lemma_runs_are_blocks(rle_runs(self.rle));
        }
        rle_runs_len(&self.rle)
    }

    /// The container that holds the runs of the differences, for callers that
    /// walk or index it.
    pub fn rle(&self) -> (rle: &RleVec<i16>)
        ensures
            rle_runs(*rle) == self@.runs,
    {
        &self.rle
    }
}

} // verus!

//! The mathematics of run-length encoding: what a list of runs stands for,
//! when its runs are maximal, and how many runs a sequence needs.
//!
//! A run is a pair `(value, len)`: `value` repeated `len` times.

use vstd::prelude::*;

verus! {

/// `value` repeated `n` times.
pub open spec fn repeat(value: i16, n: nat) -> Seq<i16> {
    Seq::new(n, |i: int| value)
}

/// The sequence that a list of runs stands for: each run written out in turn.
pub open spec fn expand(runs: Seq<(i16, usize)>) -> Seq<i16>
    decreases runs.len(),
{
    if runs.len() == 0 {
        Seq::empty()
    } else {
        expand(runs.drop_last()) + repeat(runs.last().0, runs.last().1 as nat)
    }
}

/// No run is empty and no two neighbouring runs hold the same value: each run
/// is a maximal block of equal neighbours of the expansion.
pub open spec fn canonical(runs: Seq<(i16, usize)>) -> bool {
    &&& forall|i: int| 0 <= i < runs.len() ==> (#[trigger] runs[i]).1 >= 1
    &&& forall|i: int| 0 < i < runs.len() ==> (#[trigger] runs[i]).0 != runs[i - 1].0
}

/// The runs after one more value is appended: the last run grows when it
/// already holds that value, otherwise a new run of length one starts.
pub open spec fn appended(runs: Seq<(i16, usize)>, value: i16) -> Seq<(i16, usize)> {
    if runs.len() > 0 && runs.last().0 == value {
        runs.update(runs.len() - 1, (value, (runs.last().1 + 1) as usize))
    } else {
        runs.push((value, 1usize))
    }
}

/// The number of maximal blocks of equal neighbours in `s`.
pub open spec fn block_count<T>(s: Seq<T>) -> nat
    decreases s.len(),
{
    if s.len() == 0 {
        0
    } else if s.len() == 1 {
        1
    } else if s[s.len() - 2] == s[s.len() - 1] {
        block_count(s.drop_last())
    } else {
        block_count(s.drop_last()) + 1
    }
}

/// Appending a value to the runs appends it to what they stand for.
pub proof fn lemma_expand_appended(runs: Seq<(i16, usize)>, value: i16)
    requires
        expand(runs).len() < usize::MAX,
    ensures
        expand(appended(runs, value)) == expand(runs).push(value),
{
    let after = appended(runs, value);
    if runs.len() > 0 && runs.last().0 == value {
        assert(after.drop_last() == runs.drop_last());
    } else {
        assert(after.drop_last() == runs);
    }
}

/// A canonical list of runs ends in the value of its last run.
pub proof fn lemma_expand_last(runs: Seq<(i16, usize)>)
    requires
        canonical(runs),
        runs.len() > 0,
    ensures
        expand(runs).len() > 0,
        expand(runs).last() == runs.last().0,
{
}

/// Appending a value keeps the runs canonical.
pub proof fn lemma_canonical_appended(runs: Seq<(i16, usize)>, value: i16)
    requires
        canonical(runs),
        expand(runs).len() < usize::MAX,
    ensures
        canonical(appended(runs, value)),
{
}

/// One more value opens a new block exactly when it differs from the value
/// before it.
pub proof fn lemma_block_count_push<T>(s: Seq<T>, x: T)
    ensures
        block_count(s.push(x)) == if s.len() == 0 || s.last() != x {
            block_count(s) + 1
        } else {
            block_count(s)
        },
{
    assert(s.push(x).drop_last() == s);
}

/// The runs without their last value: the last run shrinks by one, or leaves
/// when it held a single value.
pub open spec fn shortened(runs: Seq<(i16, usize)>) -> Seq<(i16, usize)>
    recommends
        runs.len() > 0,
{
    if runs.last().1 > 1 {
        runs.update(runs.len() - 1, (runs.last().0, (runs.last().1 - 1) as usize))
    } else {
        runs.drop_last()
    }
}

/// A canonical list of runs has one run for each maximal block of equal
/// neighbours in the sequence that it stands for.
pub proof fn lemma_runs_are_blocks(runs: Seq<(i16, usize)>)
    requires
        canonical(runs),
    ensures
        runs.len() == block_count(expand(runs)),
    decreases expand(runs).len(),
{
    if runs.len() > 0 {
        let value = runs.last().0;
        let before = shortened(runs);
        if runs.last().1 > 1 {
            assert(before.drop_last() == runs.drop_last());
        }
        assert(expand(runs) == expand(before).push(value));
        if before.len() > 0 {
            lemma_expand_last(before);
        }
        lemma_runs_are_blocks(before);
        lemma_block_count_push(expand(before), value);
    }
}

/// The values of run `i` stand, in the expansion, right behind those of the
/// runs before it.
pub proof fn lemma_expand_index(runs: Seq<(i16, usize)>, i: int, k: int)
    requires
        0 <= i < runs.len(),
        0 <= k < runs[i].1,
    ensures
        expand(runs.take(i)).len() + k < expand(runs).len(),
        expand(runs)[expand(runs.take(i)).len() + k] == runs[i].0,
    decreases runs.len(),
{
    if i < runs.len() - 1 {
        assert(runs.drop_last().take(i) == runs.take(i));
        lemma_expand_index(runs.drop_last(), i, k);
    }
}

/// Two sequences whose elements are equal at the same pairs of places have the
/// same number of blocks.
pub proof fn lemma_block_count_same_shape<A, B>(a: Seq<A>, b: Seq<B>)
    requires
        a.len() == b.len(),
        forall|i: int, j: int|
            0 <= i < a.len() && 0 <= j < a.len() ==> ((a[i] == a[j]) <==> (b[i] == b[j])),
    ensures
        block_count(a) == block_count(b),
    decreases a.len(),
{
    if a.len() > 1 {
        lemma_block_count_same_shape(a.drop_last(), b.drop_last());
    }
}

} // verus!

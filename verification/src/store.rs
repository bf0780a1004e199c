//! The run-length container of the `rle_vec` crate, which holds the encoded
//! values, and what this library takes on trust about it.
//!
//! The verifier cannot look inside an `RleVec`. Its runs are given a name,
//! [`rle_runs`], and each method that the library calls is wrapped in a
//! function whose contract says, over that name, what the method does. These
//! contracts are read off the source of `rle_vec` 0.4.1 and are not proved.
//! Only `push_value`, at the end, is verified: it rests on the contract of
//! the wrapper that it calls.

use crate::runs::{
    appended, canonical, expand, lemma_canonical_appended, lemma_expand_appended,
};
use rle_vec::RleVec;
use vstd::prelude::*;

verus! {

/// `rle_vec::RleVec`, declared so that it can stand in fields and signatures.
#[verifier::external_type_specification]
#[verifier::external_body]
#[verifier::reject_recursive_types(T)]
pub struct ExRleVec<T>(RleVec<T>);

/// The runs that an `RleVec<i16>` holds, first to last, each as
/// `(value, len)`: the items that `RleVec::runs` hands out.
pub uninterp spec fn rle_runs(rle: RleVec<i16>) -> Seq<(i16, usize)>;

/// Calls `RleVec::new`. Trusted: the new container holds no run.
#[verifier::external_body]
pub(crate) fn rle_new() -> (rle: RleVec<i16>)
    ensures
        rle_runs(rle) == Seq::<(i16, usize)>::empty(),
{
    RleVec::new()
}

/// Calls `RleVec::push`. Trusted: the last run grows by one when it holds
/// `value`, otherwise a run `(value, 1)` is added behind it, and no other run
/// changes. `RleVec` keeps positions in a `usize` and panics when one
/// overflows, so the container must hold fewer than `usize::MAX` values.
#[verifier::external_body]
pub(crate) fn rle_push(rle: &mut RleVec<i16>, value: i16)
    requires
        expand(rle_runs(*old(rle))).len() < usize::MAX,
    ensures
        rle_runs(*final(rle)) == appended(rle_runs(*old(rle)), value),
{
    rle.push(value)
}

/// Calls `RleVec::len`. Trusted: the result is the number of values that the
/// runs stand for, the sum of their lengths. `RleVec::len` adds one to the
/// position of the last value, so that number must fit in a `usize`.
#[verifier::external_body]
pub(crate) fn rle_len(rle: &RleVec<i16>) -> (n: usize)
    requires
        expand(rle_runs(*rle)).len() <= usize::MAX,
    ensures
        n == expand(rle_runs(*rle)).len(),
{
    rle.len()
}

/// Calls `RleVec::runs_len`. Trusted: the result is the number of runs.
#[verifier::external_body]
pub(crate) fn rle_runs_len(rle: &RleVec<i16>) -> (n: usize)
    ensures
        n == rle_runs(*rle).len(),
{
    rle.runs_len()
}

/// Walks `RleVec::runs` and writes each `Run { len, value }` down as
/// `(value, len)`. Trusted: these are the runs, in order.
#[verifier::external_body]
pub(crate) fn rle_to_runs(rle: &RleVec<i16>) -> (runs: Vec<(i16, usize)>)
    ensures
        runs@ == rle_runs(*rle),
{
    rle.runs().map(|run| (*run.value, run.len)).collect()
}

/// Appends `value` to a canonical container: the runs stay canonical and
/// stand for one more value.
pub(crate) fn push_value(rle: &mut RleVec<i16>, value: i16)
    requires
        canonical(rle_runs(*old(rle))),
        expand(rle_runs(*old(rle))).len() < usize::MAX,
    ensures
        canonical(rle_runs(*final(rle))),
        expand(rle_runs(*final(rle))) == expand(rle_runs(*old(rle))).push(value),
{
    proof {
        lemma_expand_appended(rle_runs(*rle), value);
        lemma_canonical_appended(rle_runs(*rle), value);
    }
    rle_push(rle, value);
}

} // verus!

//! Data-parallel building blocks over rayon's worker pool.
//!
//! Each function here hands a slice to the pool and joins before it returns. The
//! work on one item never touches another item, so the contracts speak only of
//! what the supplied function does to each item and of the order of the results.
//! The bodies are rayon's and are taken on trust; everything that is passed to
//! them as a function is verified.

use rayon::iter::IntoParallelRefIterator;
use rayon::iter::ParallelIterator;
use rayon::slice::ParallelSlice;
use vstd::prelude::*;

verus! {

/// Applies `f` to every item and collects the results in input order.
///
/// Calls rayon's `par_iter` on the slice, then `ParallelIterator::map` and
/// `ParallelIterator::collect` into a `Vec`. Believed, not proved: the result
/// has one entry per item, and entry `i` is a value that `f` returns for item
/// `i`.
#[verifier::external_body]
pub(crate) fn par_map<T: Sync, U: Send, F: Fn(&T) -> U + Sync + Send>(items: &[T], f: F) -> (out:
    Vec<U>)
    requires
        forall|i: int| 0 <= i < items@.len() ==> call_requires(f, (&#[trigger] items@[i],)),
    ensures
        out@.len() == items@.len(),
        forall|i: int|
            0 <= i < items@.len() ==> call_ensures(f, (&items@[i],), #[trigger] out@[i]),
{
    items.par_iter().map(f).collect()
}

/// Cuts `items` into consecutive groups of `chunk_size`, drops an incomplete last
/// group, applies `f` to every group and collects the results in input order.
///
/// Calls rayon's `ParallelSlice::par_chunks_exact`, then `ParallelIterator::map`
/// and `ParallelIterator::collect` into a `Vec`. Believed, not proved: the
/// result has `len / chunk_size` entries, and entry `i` is a value that `f`
/// returns for the group starting at `i * chunk_size`. A `chunk_size` of zero
/// is left out, since rayon panics on it.
#[verifier::external_body]
pub(crate) fn par_map_chunks<T: Sync, U: Send, F: Fn(&[T]) -> U + Sync + Send>(
    items: &[T],
    chunk_size: usize,
    f: F,
) -> (out: Vec<U>)
    requires
        chunk_size > 0,
        forall|group: &[T]| group@.len() == chunk_size ==> call_requires(f, (group,)),
    ensures
        out@.len() == items@.len() / (chunk_size as nat),
        forall|i: int|
            0 <= i < out@.len() ==> exists|group: &[T]|
                group@ == items@.subrange(i * chunk_size, i * chunk_size + chunk_size)
                    && call_ensures(f, (group,), #[trigger] out@[i]),
{
    items.par_chunks_exact(chunk_size).map(f).collect()
}

/// Tells whether `predicate` holds of some item.
///
/// Calls rayon's `par_iter` on the slice, then `ParallelIterator::any`.
/// Believed, not proved: a `true` comes from an item on which `predicate`
/// returned `true`, and a `false` means that `predicate` returned `false` on
/// every item.
#[verifier::external_body]
pub(crate) fn par_any<T: Sync, P: Fn(&T) -> bool + Sync + Send>(items: &[T], predicate: P) -> (found:
    bool)
    requires
        forall|i: int| 0 <= i < items@.len() ==> call_requires(predicate, (&#[trigger] items@[i],)),
    ensures
        found ==> exists|i: int|
            0 <= i < items@.len() && call_ensures(predicate, (&#[trigger] items@[i],), true),
        !found ==> forall|i: int|
            0 <= i < items@.len() ==> call_ensures(predicate, (&#[trigger] items@[i],), false),
{
    items.par_iter().any(predicate)
}

} // verus!

//! Data-parallel maps over an index range, run on rayon's thread pool.

use rayon::iter::{IntoParallelIterator, ParallelIterator};
use vstd::prelude::*;

verus! {

/// `rows` holds, for each index below `n`, a vector that `f` can return for
/// it.
pub open spec fn rows_of<T, F: Fn(u32) -> Vec<T>>(f: F, n: u32, rows: Seq<Vec<T>>) -> bool {
    &&& rows.len() == n
    &&& forall|i: u32| i < n ==> call_ensures(f, (i,), #[trigger] rows[i as int])
}

/// The items of the rows, one row after the other.
pub open spec fn joined<T>(rows: Seq<Vec<T>>) -> Seq<T> {
    rows.map_values(|row: Vec<T>| row@).flatten()
}

/// `items` holds, for each index below `n` in turn, the items of a vector
/// that `f` can return for it.
pub open spec fn joins_rows_of<T, F: Fn(u32) -> Vec<T>>(f: F, n: u32, items: Seq<T>) -> bool {
    exists|rows: Seq<Vec<T>>| #[trigger] rows_of(f, n, rows) && items == joined(rows)
}

/// Maps `f` over the indices below `n` in parallel and collects the results
/// in the order of the indices.
///
/// Trusted. The body is rayon's `IntoParallelIterator::into_par_iter` on
/// the range `0..n`, then `ParallelIterator::map` and
/// `ParallelIterator::collect` into a vector. The contract says of them that
/// `f` is called only on indices below `n`, and that the vector holds, at
/// each such index, a value that `f` returned for that index: rayon collects
/// an indexed iterator, as this one is, in the order of its items.
#[verifier::external_body]
pub(crate) fn par_map_range<T: Send, F: Fn(u32) -> T + Sync + Send>(n: u32, f: F) -> (out: Vec<T>)
    requires
        forall|i: u32| i < n ==> call_requires(f, (i,)),
    ensures
        out@.len() == n,
        forall|i: u32| i < n ==> call_ensures(f, (i,), #[trigger] out@[i as int]),
{
    (0..n).into_par_iter().map(f).collect()
}

/// Maps `f` over the indices below `n` in parallel and joins the vectors it
/// returns, in the order of the indices.
///
/// Trusted. The body is rayon's `IntoParallelIterator::into_par_iter` on
/// the range `0..n`, then `ParallelIterator::flat_map` and
/// `ParallelIterator::collect` into a vector. The contract says of them that
/// `f` is called only on indices below `n`, and that the vector holds the
/// items of one vector that `f` returned for each such index, those of a
/// smaller index before those of a larger one and each vector's items in
/// their own order: rayon reduces the pieces of a flattened iterator left
/// before right. The caller must show that the items fit in one vector.
#[verifier::external_body]
pub(crate) fn par_flat_map_range<T: Send, F: Fn(u32) -> Vec<T> + Sync + Send>(
    n: u32,
    f: F,
) -> (out: Vec<T>)
    requires
        forall|i: u32| i < n ==> call_requires(f, (i,)),
        forall|rows: Seq<Vec<T>>| #[trigger] rows_of(f, n, rows) ==> joined(rows).len() <= usize::MAX,
    ensures
        joins_rows_of(f, n, out@),
{
    (0..n).into_par_iter().flat_map(f).collect()
}

} // verus!

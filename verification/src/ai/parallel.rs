//! Data-parallel map-and-reduce over a vector, run on rayon's thread pool.

use rayon::iter::IntoParallelRefIterator;
use rayon::iter::ParallelIterator;
use std::cmp::Ordering;
use vstd::prelude::*;

verus! {

/// `results` holds, for each item in order, a value that `f` may return on
/// it.
pub open spec fn maps_to<T, R, F: Fn(&T) -> R>(f: F, items: Seq<T>, results: Seq<R>) -> bool {
    &&& results.len() == items.len()
    &&& forall|i: int| 0 <= i < items.len() ==> call_ensures(f, (&items[i],), #[trigger] results[i])
}

/// `m` occurs in `values` and no element is greater.
pub open spec fn is_greatest(values: Seq<isize>, m: isize) -> bool {
    &&& exists|i: int| 0 <= i < values.len() && values[i] == m
    &&& forall|i: int| 0 <= i < values.len() ==> values[i] <= m
}

/// `m` occurs in `values` and no element is less.
pub open spec fn is_least(values: Seq<isize>, m: isize) -> bool {
    &&& exists|i: int| 0 <= i < values.len() && values[i] == m
    &&& forall|i: int| 0 <= i < values.len() ==> values[i] >= m
}

/// Element `i` of `scored` has the greatest score, and it is the last one
/// that has it.
pub open spec fn is_last_best<U>(scored: Seq<(U, isize)>, i: int) -> bool {
    &&& 0 <= i < scored.len()
    &&& forall|j: int| 0 <= j < i ==> scored[j].1 <= scored[i].1
    &&& forall|j: int| i < j < scored.len() ==> scored[j].1 < scored[i].1
}

/// Orders two scored values by their scores.
pub fn by_score<U>(a: &(U, isize), b: &(U, isize)) -> (order: Ordering)
    ensures
        order is Less <==> a.1 < b.1,
        order is Equal <==> a.1 == b.1,
        order is Greater <==> a.1 > b.1,
{
    if a.1 < b.1 {
        Ordering::Less
    } else if a.1 > b.1 {
        Ordering::Greater
    } else {
        Ordering::Equal
    }
}

/// Calls rayon's `par_iter`, `map` and `max` on `items`.
///
/// Trusted: the result is the greatest of the values that `f` returned for
/// the items, or `None` for no items.
#[verifier::external_body]
pub(crate) fn par_map_max<T: Sync, F>(items: &Vec<T>, f: F) -> (greatest: Option<isize>) where
    F: Fn(&T) -> isize + Sync + Send,

    requires
        forall|i: int| 0 <= i < items.len() ==> call_requires(f, (&items[i],)),
    ensures
        greatest is None <==> items.len() == 0,
        greatest matches Some(m) ==> exists|results: Seq<isize>|
            maps_to(f, items@, results) && is_greatest(results, m),
{
    items.par_iter().map(f).max()
}

/// Calls rayon's `par_iter`, `map` and `min` on `items`.
///
/// Trusted: the result is the least of the values that `f` returned for the
/// items, or `None` for no items.
#[verifier::external_body]
pub(crate) fn par_map_min<T: Sync, F>(items: &Vec<T>, f: F) -> (least: Option<isize>) where
    F: Fn(&T) -> isize + Sync + Send,

    requires
        forall|i: int| 0 <= i < items.len() ==> call_requires(f, (&items[i],)),
    ensures
        least is None <==> items.len() == 0,
        least matches Some(m) ==> exists|results: Seq<isize>|
            maps_to(f, items@, results) && is_least(results, m),
{
    items.par_iter().map(f).min()
}

/// Calls rayon's `par_iter`, `map` and `max_by` on `items`, comparing with
/// `by_score`.
///
/// Trusted: the result is one of the values that `f` returned for the items,
/// or `None` for no items. It is the value with the greatest score; of
/// several with that score it is the one for the last such item: rayon's
/// `max_by` reduces neighbours in the order of the items and keeps the left
/// one only where it compares greater.
#[verifier::external_body]
pub(crate) fn par_map_max_by_score<T: Sync, U: Send, F>(items: &Vec<T>, f: F) -> (best: Option<
    (U, isize),
>) where F: Fn(&T) -> (U, isize) + Sync + Send
    requires
        forall|i: int| 0 <= i < items.len() ==> call_requires(f, (&items[i],)),
    ensures
        best is None <==> items.len() == 0,
        best matches Some(b) ==> exists|results: Seq<(U, isize)>, i: int|
            maps_to(f, items@, results) && is_last_best(results, i) && results[i] == b,
{
    items.par_iter().map(f).max_by(|a, b| by_score(a, b))
}

} // verus!

//! Batches of item fetches: which ids are fetched, and what is kept of the
//! outcomes.
//!
//! A batch never fails as a whole. An item whose fetch fails is left out of
//! the result, so the caller gets the items that succeeded and nothing more.

use crate::error::FetchError;
use vstd::prelude::*;

verus! {

/// The values of the successful outcomes, in the order of the outcomes.
pub open spec fn spec_successes<T>(outcomes: Seq<Result<T, FetchError>>) -> Seq<T>
    decreases outcomes.len(),
{
    if outcomes.len() == 0 {
        Seq::empty()
    } else {
        let earlier = spec_successes(outcomes.drop_last());
        match outcomes.last() {
            Ok(value) => earlier.push(value),
            Err(_) => earlier,
        }
    }
}

/// The number of successful outcomes.
pub open spec fn spec_success_count<T>(outcomes: Seq<Result<T, FetchError>>) -> nat
    decreases outcomes.len(),
{
    if outcomes.len() == 0 {
        0
    } else {
        spec_success_count(outcomes.drop_last()) + if outcomes.last() is Ok {
            1nat
        } else {
            0nat
        }
    }
}

/// The ids that a batch fetches: none if the caller's cancellation signal
/// has fired before the batch starts, else all of `ids`.
pub fn batch_ids(ids: Vec<u32>, cancelled: bool) -> (to_fetch: Vec<u32>)
    ensures
        to_fetch@ == if cancelled {
            Seq::<u32>::empty()
        } else {
            ids@
        },
{
    if cancelled {
        Vec::new()
    } else {
        ids
    }
}

/// Keeps the values of the successful outcomes, in the order in which the
/// outcomes came in, and drops the failures.
pub fn keep_successes<T>(outcomes: Vec<Result<T, FetchError>>) -> (kept: Vec<T>)
    ensures
        kept@ == spec_successes(outcomes@),
{
    let mut kept: Vec<T> = Vec::new();
    let ghost all = outcomes@;
    for outcome in it: outcomes
        invariant
            it.seq() == all,
            kept@ == spec_successes(all.take(it.index() as int)),
    {
        proof {
            let upto = all.take(it.index() + 1);
            assert(upto.drop_last() =~= all.take(it.index() as int));
            assert(upto.last() == outcome);
        }
        match outcome {
            Ok(value) => {
                kept.push(value);
            },
            Err(_) => {},
        }
    }
    assert(all.take(all.len() as int) =~= all);
    kept
}

/// A batch hands out as many items as fetches succeeded, whatever failed.
pub proof fn law_partial_success<T>(outcomes: Seq<Result<T, FetchError>>)
    ensures
        spec_successes(outcomes).len() == spec_success_count(outcomes),
        spec_success_count(outcomes) <= outcomes.len(),
    decreases outcomes.len(),
{
    if outcomes.len() > 0 {
        law_partial_success(outcomes.drop_last());
    }
}

/// Every item that a batch hands out is the value of a successful fetch, and
/// the value of every successful fetch is handed out.
pub proof fn law_successes_are_kept<T>(outcomes: Seq<Result<T, FetchError>>, value: T)
    ensures
        spec_successes(outcomes).contains(value) <==> outcomes.contains(Ok(value)),
    decreases outcomes.len(),
{
    if outcomes.len() > 0 {
        let earlier = outcomes.drop_last();
        law_successes_are_kept(earlier, value);
        let kept = spec_successes(outcomes);
        if kept.contains(value) {
            let i = choose|i: int| 0 <= i < kept.len() && kept[i] == value;
            if i < spec_successes(earlier).len() {
                assert(spec_successes(earlier)[i] == value);
                assert(spec_successes(earlier).contains(value));
                let j = choose|j: int| 0 <= j < earlier.len() && earlier[j] == Ok::<T, FetchError>(value);
                assert(outcomes[j] == Ok::<T, FetchError>(value));
            } else {
                assert(outcomes[outcomes.len() - 1] == Ok::<T, FetchError>(value));
            }
        }
        if outcomes.contains(Ok(value)) {
            let j = choose|j: int| 0 <= j < outcomes.len() && outcomes[j] == Ok::<T, FetchError>(value);
            if j < earlier.len() {
                assert(earlier[j] == Ok::<T, FetchError>(value));
                assert(earlier.contains(Ok(value)));
                let i = choose|i: int|
                    0 <= i < spec_successes(earlier).len() && spec_successes(earlier)[i] == value;
                assert(kept[i] == value);
            } else {
                assert(kept[kept.len() - 1] == value);
            }
        }
    }
}

} // verus!

//! The outcome of work that is done item by item and stops at the first
//! failure.

use vstd::prelude::*;

verus! {

/// The outcome of the whole, given the outcome of each item in order: the
/// results of all items, or the error of the first item that failed.
pub open spec fn collect<A, E>(outcomes: Seq<Result<A, E>>) -> Result<Seq<A>, E>
    decreases outcomes.len(),
{
    if outcomes.len() == 0 {
        Ok(Seq::empty())
    } else {
        match collect(outcomes.drop_last()) {
            Err(e) => Err(e),
            Ok(results) => match outcomes.last() {
                Ok(result) => Ok(results.push(result)),
                Err(e) => Err(e),
            },
        }
    }
}

/// Where every item succeeds, the whole succeeds with the results in order.
pub proof fn collect_all_ok<A, E>(outcomes: Seq<Result<A, E>>)
    requires
        forall|i: int| 0 <= i < outcomes.len() ==> (#[trigger] outcomes[i]) is Ok,
    ensures
        collect(outcomes) == Ok::<Seq<A>, E>(Seq::new(outcomes.len(), |i: int| outcomes[i]->Ok_0)),
    decreases outcomes.len(),
{
    if outcomes.len() > 0 {
        let front = outcomes.drop_last();
        collect_all_ok(front);
        assert(Seq::new(front.len(), |i: int| front[i]->Ok_0).push(outcomes.last()->Ok_0)
            =~= Seq::new(outcomes.len(), |i: int| outcomes[i]->Ok_0));
    } else {
        assert(Seq::<A>::empty() =~= Seq::new(outcomes.len(), |i: int| outcomes[i]->Ok_0));
    }
}

/// Where an item fails and all before it succeed, the whole fails with that
/// item's error.
pub proof fn collect_first_error<A, E>(outcomes: Seq<Result<A, E>>, at: int)
    requires
        0 <= at < outcomes.len(),
        outcomes[at] is Err,
        forall|i: int| 0 <= i < at ==> (#[trigger] outcomes[i]) is Ok,
    ensures
        collect(outcomes) == Err::<Seq<A>, E>(outcomes[at]->Err_0),
    decreases outcomes.len(),
{
    let front = outcomes.drop_last();
    if at == outcomes.len() - 1 {
        collect_all_ok(front);
    } else {
        collect_first_error(front, at);
    }
}

/// Where the whole succeeds, every item did, and the results are theirs in
/// order.
pub proof fn collect_ok_means_all_ok<A, E>(outcomes: Seq<Result<A, E>>)
    requires
        collect(outcomes) is Ok,
    ensures
        forall|i: int| 0 <= i < outcomes.len() ==> (#[trigger] outcomes[i]) is Ok,
        collect(outcomes)->Ok_0.len() == outcomes.len(),
        forall|i: int|
            0 <= i < outcomes.len() ==> (#[trigger] collect(outcomes)->Ok_0[i])
                == outcomes[i]->Ok_0,
    decreases outcomes.len(),
{
    if outcomes.len() > 0 {
        collect_ok_means_all_ok(outcomes.drop_last());
        assert forall|i: int| 0 <= i < outcomes.len() implies (#[trigger] outcomes[i]) is Ok by {
            if i < outcomes.len() - 1 {
                assert(outcomes.drop_last()[i] is Ok);
            }
        }
        collect_all_ok(outcomes);
    }
}

} // verus!

//! The same thing done to one item after the other.

use crate::chain::{each_ran, first_ran, grew_by, Operation};
use crate::driver::Step;
use vstd::prelude::*;

verus! {

/// Where all went well, each item was handled once, in order, each from where the
/// one before it ended.
pub proof fn every_item_is_handled_in_order<T, U>(
    items: Seq<T>,
    before: Seq<Step>,
    after: Seq<Step>,
    results: Seq<U>,
    operation: Operation<T, U>,
)
    requires
        each_ran(items, before, after, Ok(results), operation),
    ensures
        results.len() == items.len(),
        exists|logs: Seq<Seq<Step>>|
            {
                &&& #[trigger] logs.len() == items.len() + 1
                &&& logs[0] == before
                &&& logs.last() == after
                &&& forall|i: int|
                    0 <= i < items.len() ==> operation(
                        items[i],
                        logs[i],
                        logs[i + 1],
                        Ok(#[trigger] results[i]),
                    )
            },
{
    let logs = choose|logs: Seq<Seq<Step>>| #[trigger]
        first_ran(items, results, logs, operation) && results.len() == items.len() && logs[0]
            == before && logs.last() == after;
    assert(logs.len() == items.len() + 1);
}

/// Where an item was refused, those before it were handled, in order, and none
/// after it.
pub proof fn refused_item_is_the_last<T, U>(
    items: Seq<T>,
    before: Seq<Step>,
    after: Seq<Step>,
    message: Seq<char>,
    operation: Operation<T, U>,
)
    requires
        each_ran(items, before, after, Err::<Seq<U>, Seq<char>>(message), operation),
    ensures
        exists|results: Seq<U>, logs: Seq<Seq<Step>>|
            {
                &&& #[trigger] results.len() < items.len()
                &&& #[trigger] logs.len() == results.len() + 1
                &&& logs[0] == before
                &&& forall|i: int|
                    0 <= i < results.len() ==> operation(
                        items[i],
                        logs[i],
                        logs[i + 1],
                        Ok(#[trigger] results[i]),
                    )
                &&& operation(items[results.len() as int], logs.last(), after, Err(message))
            },
{
    let (results, logs) = choose|results: Seq<U>, logs: Seq<Seq<Step>>| #[trigger]
        first_ran(items, results, logs, operation) && results.len() < items.len() && logs[0]
            == before && operation(
            items[results.len() as int],
            logs.last(),
            after,
            Err(message),
        );
    assert(results.len() < items.len());
    assert(logs.len() == results.len() + 1);
}

/// A log that grew by steps of a kind has all that it had, and steps of that kind
/// behind it.
pub proof fn growth_is_by_steps_of_the_kind(
    before: Seq<Step>,
    after: Seq<Step>,
    kind: spec_fn(Step) -> bool,
)
    requires
        grew_by(before, after, kind),
    ensures
        before.len() <= after.len(),
        after.take(before.len() as int) == before,
        forall|i: int| before.len() <= i < after.len() ==> kind(#[trigger] after[i]),
{
    assert(after.take(before.len() as int) =~= before);
}

} // verus!

//! The same operation on one item after the other, up to the first refusal.

use crate::driver::Step;
use vstd::prelude::*;

verus! {

/// What an operation on one item does: the item, the log before it, the log
/// after it, and its result or its message.
pub type Operation<T, U> = spec_fn(T, Seq<Step>, Seq<Step>, Result<U, Seq<char>>) -> bool;

/// The operation succeeded on the first items, as many as there are results.
/// `logs` holds the log before each of them, and the log after the last.
pub open spec fn first_ran<T, U>(
    items: Seq<T>,
    results: Seq<U>,
    logs: Seq<Seq<Step>>,
    operation: Operation<T, U>,
) -> bool {
    &&& results.len() <= items.len()
    &&& logs.len() == results.len() + 1
    &&& forall|i: int|
        0 <= i < results.len() ==> operation(
            items[i],
            logs[i],
            logs[i + 1],
            Ok(#[trigger] results[i]),
        )
}

/// The operation succeeded on all items.
pub open spec fn every_ran<T, U>(
    items: Seq<T>,
    results: Seq<U>,
    before: Seq<Step>,
    after: Seq<Step>,
    operation: Operation<T, U>,
) -> bool {
    exists|logs: Seq<Seq<Step>>| #[trigger]
        first_ran(items, results, logs, operation) && results.len() == items.len() && logs[0]
            == before && logs.last() == after
}

/// The operation succeeded on the first items and was refused on the next, with
/// this message.
pub open spec fn ran_until<T, U>(
    items: Seq<T>,
    before: Seq<Step>,
    after: Seq<Step>,
    message: Seq<char>,
    operation: Operation<T, U>,
) -> bool {
    exists|results: Seq<U>, logs: Seq<Seq<Step>>| #[trigger]
        first_ran(items, results, logs, operation) && results.len() < items.len() && logs[0]
            == before && operation(
            items[results.len() as int],
            logs.last(),
            after,
            Err(message),
        )
}

/// The operation was made on one item after the other: on all of them, or up to
/// the first on which it was refused.
pub open spec fn each_ran<T, U>(
    items: Seq<T>,
    before: Seq<Step>,
    after: Seq<Step>,
    r: Result<Seq<U>, Seq<char>>,
    operation: Operation<T, U>,
) -> bool {
    match r {
        Ok(results) => every_ran(items, results, before, after, operation),
        Err(message) => ran_until(items, before, after, message, operation),
    }
}

/// Before the first item.
pub proof fn none_ran<T, U>(items: Seq<T>, log: Seq<Step>, operation: Operation<T, U>)
    ensures
        first_ran(items, Seq::<U>::empty(), seq![log], operation),
{
}

/// One item more.
pub proof fn one_more_ran<T, U>(
    items: Seq<T>,
    results: Seq<U>,
    logs: Seq<Seq<Step>>,
    operation: Operation<T, U>,
    result: U,
    log: Seq<Step>,
)
    requires
        first_ran(items, results, logs, operation),
        results.len() < items.len(),
        operation(items[results.len() as int], logs.last(), log, Ok(result)),
    ensures
        first_ran(items, results.push(result), logs.push(log), operation),
{
    let longer = results.push(result);
    let all = logs.push(log);
    assert forall|i: int| 0 <= i < longer.len() implies operation(
        items[i],
        all[i],
        all[i + 1],
        Ok(#[trigger] longer[i]),
    ) by {
        if i < results.len() {
            assert(longer[i] == results[i]);
            assert(all[i] == logs[i]);
            assert(all[i + 1] == logs[i + 1]);
        }
    }
}

/// What was done on the first items was done on the first of a longer list.
pub proof fn ran_on_longer<T, U>(
    items: Seq<T>,
    longer: Seq<T>,
    results: Seq<U>,
    logs: Seq<Seq<Step>>,
    operation: Operation<T, U>,
)
    requires
        first_ran(items, results, logs, operation),
        items.is_prefix_of(longer),
    ensures
        first_ran(longer, results, logs, operation),
{
    assert forall|i: int| 0 <= i < results.len() implies operation(
        longer[i],
        logs[i],
        logs[i + 1],
        Ok(#[trigger] results[i]),
    ) by {
        assert(longer[i] == items[i]);
    }
}

// ---------------------------------------------------------------------------
// The steps of a chain
// ---------------------------------------------------------------------------
/// The log grew, by steps of this kind alone.
pub open spec fn grew_by(
    before: Seq<Step>,
    after: Seq<Step>,
    kind: spec_fn(Step) -> bool,
) -> bool {
    &&& before.is_prefix_of(after)
    &&& forall|i: int| before.len() <= i < after.len() ==> kind(#[trigger] after[i])
}

/// However the operation goes, the log grows by steps of this kind alone.
pub open spec fn takes_steps<T, U>(
    operation: Operation<T, U>,
    kind: spec_fn(Step) -> bool,
) -> bool {
    forall|item: T, before: Seq<Step>, after: Seq<Step>, r: Result<U, Seq<char>>| #[trigger]
        operation(item, before, after, r) ==> grew_by(before, after, kind)
}

/// A log that grew twice.
pub proof fn growth_goes_on(
    before: Seq<Step>,
    middle: Seq<Step>,
    after: Seq<Step>,
    kind: spec_fn(Step) -> bool,
)
    requires
        grew_by(before, middle, kind),
        grew_by(middle, after, kind),
    ensures
        grew_by(before, after, kind),
{
    assert forall|i: int| before.len() <= i < after.len() implies kind(#[trigger] after[i]) by {
        if i < middle.len() {
            assert(after[i] == middle[i]);
        }
    }
}

proof fn first_steps<T, U>(
    items: Seq<T>,
    results: Seq<U>,
    logs: Seq<Seq<Step>>,
    operation: Operation<T, U>,
    kind: spec_fn(Step) -> bool,
    n: int,
)
    requires
        first_ran(items, results, logs, operation),
        takes_steps(operation, kind),
        0 <= n <= results.len(),
    ensures
        grew_by(logs[0], logs[n], kind),
    decreases n,
{
    if n > 0 {
        first_steps(items, results, logs, operation, kind, n - 1);
        assert(operation(items[n - 1], logs[n - 1], logs[n], Ok(results[n - 1])));
        growth_goes_on(logs[0], logs[n - 1], logs[n], kind);
    }
}

/// A chain takes no other steps than its operation.
pub proof fn chain_steps<T, U>(
    items: Seq<T>,
    before: Seq<Step>,
    after: Seq<Step>,
    r: Result<Seq<U>, Seq<char>>,
    operation: Operation<T, U>,
    kind: spec_fn(Step) -> bool,
)
    requires
        each_ran(items, before, after, r, operation),
        takes_steps(operation, kind),
    ensures
        grew_by(before, after, kind),
{
    match r {
        Ok(results) => {
            let logs = choose|logs: Seq<Seq<Step>>| #[trigger]
                first_ran(items, results, logs, operation) && results.len() == items.len()
                    && logs[0] == before && logs.last() == after;
            first_steps(items, results, logs, operation, kind, results.len() as int);
        },
        Err(message) => {
            let (results, logs) = choose|results: Seq<U>, logs: Seq<Seq<Step>>| #[trigger]
                first_ran(items, results, logs, operation) && results.len() < items.len()
                    && logs[0] == before && operation(
                    items[results.len() as int],
                    logs.last(),
                    after,
                    Err(message),
                );
            first_steps(items, results, logs, operation, kind, results.len() as int);
            growth_goes_on(before, logs.last(), after, kind);
        },
    }
}

} // verus!

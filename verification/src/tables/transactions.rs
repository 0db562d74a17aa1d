//! What a batch leaves in the database.

use crate::commands::{batch_is_one_transaction, batch_message, batch_ran, statement_commands};
use crate::driver::Step;
use crate::sql::values;
use crate::store::{commands_ran, rollback_step, transaction_ran, BatchCommand, BatchFailure};
use vstd::prelude::*;

verus! {

/// What a database holds, and what it held when the open transaction was begun.
pub struct Contents<C> {
    pub now: C,
    pub at_begin: Option<C>,
}

/// What a database holds that has no transaction open.
pub open spec fn settled_contents<C>(now: C) -> Contents<C> {
    Contents { now, at_begin: None }
}

/// What a database holds after one step. `effect` is what a command does that
/// does not itself begin or end a transaction. A transaction that is rolled back
/// brings back what was there when it was begun. What is left is not said where
/// the rollback is refused, nor where the commit is: the transaction is dropped
/// then, and whether that rolls it back the driver does not tell.
pub open spec fn contents_after_step<C>(
    contents: Contents<C>,
    effect: spec_fn(C, Step) -> C,
    step: Step,
) -> Contents<C> {
    match step {
        Step::Begun { outcome: Ok(_) } => Contents {
            now: contents.now,
            at_begin: Some(contents.now),
        },
        Step::Begun { outcome: Err(_) } => contents,
        Step::Committed { outcome: Ok(_) } => settled_contents(contents.now),
        Step::Committed { outcome: Err(_) } => arbitrary(),
        Step::RolledBack { outcome: Ok(_) } => settled_contents(contents.at_begin->Some_0),
        Step::RolledBack { outcome: Err(_) } => arbitrary(),
        _ => Contents { now: effect(contents.now, step), at_begin: contents.at_begin },
    }
}

/// What a database holds after these steps.
pub open spec fn contents_after<C>(
    contents: Contents<C>,
    effect: spec_fn(C, Step) -> C,
    steps: Seq<Step>,
) -> Contents<C>
    decreases steps.len(),
{
    if steps.len() == 0 {
        contents
    } else {
        contents_after_step(
            contents_after(contents, effect, steps.drop_last()),
            effect,
            steps.last(),
        )
    }
}

/// What the commands of these steps do, one after the other.
pub open spec fn effects<C>(now: C, effect: spec_fn(C, Step) -> C, steps: Seq<Step>) -> C
    decreases steps.len(),
{
    if steps.len() == 0 {
        now
    } else {
        effect(effects(now, effect, steps.drop_last()), steps.last())
    }
}

proof fn open_transaction_can_go_back<C>(
    now: C,
    effect: spec_fn(C, Step) -> C,
    steps: Seq<Step>,
)
    requires
        steps.len() > 0,
        steps[0] == (Step::Begun { outcome: Ok(()) }),
        forall|i: int| 1 <= i < steps.len() ==> #[trigger] steps[i] is Executed,
    ensures
        contents_after(settled_contents(now), effect, steps) == (Contents {
            now: effects(now, effect, steps.skip(1)),
            at_begin: Some(now),
        }),
    decreases steps.len(),
{
    if steps.len() == 1 {
        assert(steps.drop_last() =~= Seq::empty());
        assert(steps.skip(1) =~= Seq::empty());
        assert(contents_after(settled_contents(now), effect, steps.drop_last())
            == settled_contents(now));
    } else {
        let shorter = steps.drop_last();
        assert forall|i: int| 1 <= i < shorter.len() implies #[trigger] shorter[i] is Executed by {
            assert(steps[i] is Executed);
        }
        open_transaction_can_go_back(now, effect, shorter);
        assert(steps[steps.len() - 1] is Executed);
        assert(steps.skip(1).drop_last() =~= shorter.skip(1));
    }
}

proof fn commands_only_execute(list: Seq<BatchCommand>, steps: Seq<Step>, counts: Seq<u64>)
    requires
        commands_ran(list, steps, counts),
    ensures
        forall|i: int| 1 <= i < steps.len() ==> #[trigger] steps[i] is Executed,
{
    assert forall|i: int| 1 <= i < steps.len() implies #[trigger] steps[i] is Executed by {
        assert(list[i - 1].sql is Some);
    }
}

/// The steps of a batch that failed lead back to where they began, unless the
/// database refused to commit or to roll back.
proof fn failed_transaction_goes_back<C>(
    now: C,
    effect: spec_fn(C, Step) -> C,
    list: Seq<BatchCommand>,
    steps: Seq<Step>,
    failure: BatchFailure,
)
    requires
        transaction_ran(list, steps, Err(failure)),
        steps.len() > 0,
        !(steps.last() matches Step::RolledBack { outcome: Err(_) }),
        !(steps.last() matches Step::Committed { outcome: Err(_) }),
    ensures
        contents_after(settled_contents(now), effect, steps) == settled_contents(now),
{
    let shorter = steps.drop_last();
    match failure {
        BatchFailure::Begin(e) => {
            assert(shorter =~= Seq::empty());
            assert(contents_after(settled_contents(now), effect, shorter) == settled_contents(now));
        },
        BatchFailure::NoSql => {
            let (before, counts, outcome) = choose|
                before: Seq<Step>,
                counts: Seq<u64>,
                outcome: Result<(), Seq<char>>,
            |
                #![trigger commands_ran(list, before, counts), rollback_step(outcome)]
                commands_ran(list, before, counts) && steps == before.push(rollback_step(outcome));
            assert(shorter =~= before);
            commands_only_execute(list, before, counts);
            open_transaction_can_go_back(now, effect, before);
        },
        BatchFailure::Execute(e) => {
            let (before, counts, outcome) = choose|
                before: Seq<Step>,
                counts: Seq<u64>,
                outcome: Result<(), Seq<char>>,
            |
                #![trigger commands_ran(list, before, counts), rollback_step(outcome)]
                commands_ran(list, before, counts) && steps == before.push(
                    Step::Executed {
                        sql: list[counts.len() as int].sql->Some_0@,
                        params: values(list[counts.len() as int].params@),
                        outcome: Err(e@),
                    },
                ).push(rollback_step(outcome));
            commands_only_execute(list, before, counts);
            assert forall|i: int| 1 <= i < shorter.len() implies #[trigger] shorter[i]
                is Executed by {
                if i < before.len() {
                    assert(shorter[i] == before[i]);
                }
            }
            open_transaction_can_go_back(now, effect, shorter);
        },
        BatchFailure::Commit(e) => {},
    }
}

/// A batch that fails leaves nothing behind: the database holds what it held
/// before, whatever the commands do, unless it refused to commit or to roll back.
pub proof fn failed_batch_leaves_nothing<C>(
    now: C,
    effect: spec_fn(C, Step) -> C,
    statements: Seq<serde_json::Value>,
    before: Seq<Step>,
    after: Seq<Step>,
    message: String,
)
    requires
        batch_ran(statements, before, after, Err(message)),
        !(after.last() matches Step::RolledBack { outcome: Err(_) }),
        !(after.last() matches Step::Committed { outcome: Err(_) }),
    ensures
        contents_after(settled_contents(now), effect, after.skip(before.len() as int))
            == settled_contents(now),
{
    let r = Err::<Vec<u64>, String>(message);
    let (list, steps, ran) = choose|
        list: Seq<BatchCommand>,
        steps: Seq<Step>,
        ran: Result<Vec<u64>, BatchFailure>,
    |
        #![trigger statement_commands(statements, list), transaction_ran(list, steps, ran)]
        {
            &&& statement_commands(statements, list)
            &&& after == before + steps
            &&& transaction_ran(list, steps, ran)
            &&& match ran {
                Ok(counts) => r == Ok::<Vec<u64>, String>(counts),
                Err(failure) => r is Err && r->Err_0@ == batch_message(failure),
            }
        };
    assert(after.skip(before.len() as int) =~= steps);
    assert(steps.len() > 0) by {
        if !(ran matches Err(BatchFailure::Begin(_))) {
            batch_is_one_transaction(list, steps, ran);
        }
    }
    assert(after.last() == steps.last());
    failed_transaction_goes_back(now, effect, list, steps, ran->Err_0);
}

/// A batch that succeeds keeps the effects of all its commands, in order, and
/// leaves no transaction open.
pub proof fn successful_batch_keeps_all<C>(
    now: C,
    effect: spec_fn(C, Step) -> C,
    statements: Seq<serde_json::Value>,
    before: Seq<Step>,
    after: Seq<Step>,
    counts: Vec<u64>,
)
    requires
        batch_ran(statements, before, after, Ok(counts)),
    ensures
        counts.len() == statements.len(),
        after.len() == before.len() + statements.len() + 2,
        contents_after(settled_contents(now), effect, after.skip(before.len() as int))
            == settled_contents(
            effects(now, effect, after.subrange(before.len() as int + 1, after.len() - 1)),
        ),
{
    let r = Ok::<Vec<u64>, String>(counts);
    let (list, steps, ran) = choose|
        list: Seq<BatchCommand>,
        steps: Seq<Step>,
        ran: Result<Vec<u64>, BatchFailure>,
    |
        #![trigger statement_commands(statements, list), transaction_ran(list, steps, ran)]
        {
            &&& statement_commands(statements, list)
            &&& after == before + steps
            &&& transaction_ran(list, steps, ran)
            &&& match ran {
                Ok(counts) => r == Ok::<Vec<u64>, String>(counts),
                Err(failure) => r is Err && r->Err_0@ == batch_message(failure),
            }
        };
    let shorter = steps.drop_last();
    assert(after.skip(before.len() as int) =~= steps);
    commands_only_execute(list, shorter, counts@);
    open_transaction_can_go_back(now, effect, shorter);
    assert(shorter.skip(1) =~= after.subrange(before.len() as int + 1, after.len() - 1));
}

} // verus!

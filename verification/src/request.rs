//! Commands handed to the store, with the messages of their refusals.

use crate::driver::{outcome_of, Step};
use crate::sql::{commands, Command, CommandView};
use crate::store::Store;
use vstd::prelude::*;

verus! {

// ---------------------------------------------------------------------------
// Single commands
// ---------------------------------------------------------------------------
/// The execution of a command, with its outcome.
pub open spec fn execution(command: CommandView, outcome: Result<usize, Seq<char>>) -> Step {
    Step::Executed { sql: command.sql, params: command.params, outcome }
}

/// A row was inserted; `r` is its id, or the message of the refusal. The id is
/// asked for only where the command was executed.
pub open spec fn recorded(
    before: Seq<Step>,
    after: Seq<Step>,
    command: CommandView,
    r: Result<i64, Seq<char>>,
) -> bool {
    match r {
        Ok(id) => exists|n: usize|
            after == before.push(#[trigger] execution(command, Ok(n))).push(
                Step::InsertedId { id },
            ),
        Err(message) => exists|e: Seq<char>|
            after == before.push(#[trigger] execution(command, Err(e))) && message
                == command.failure + e,
    }
}

/// Executes an inserting command and returns the id of the inserted row.
pub fn insert_returning_id(store: &mut Store, command: &Command) -> (r: Result<i64, String>)
    ensures
        final(store).conn() == old(store).conn(),
        final(store).readings() == old(store).readings(),
        recorded(old(store).log(), final(store).log(), command@, outcome_of(r)),
{
    match store.execute(command.sql.as_str(), &command.params) {
        Ok(n) => {
            let ghost step = execution(command@, Ok(n));
            assert(store.log() == old(store).log().push(step));
            Ok(store.last_insert_rowid())
        },
        Err(e) => {
            let ghost step = execution(command@, Err(e@));
            assert(store.log() == old(store).log().push(step));
            Err(command.failed(e.as_str()))
        },
    }
}

/// A command was executed; `r` is the number of rows that it changed, or the
/// message of its refusal.
pub open spec fn carried_out(
    before: Seq<Step>,
    after: Seq<Step>,
    command: CommandView,
    r: Result<usize, Seq<char>>,
) -> bool {
    match r {
        Ok(n) => after == before.push(execution(command, Ok(n))),
        Err(message) => exists|e: Seq<char>|
            after == before.push(#[trigger] execution(command, Err(e))) && message
                == command.failure + e,
    }
}

/// Executes a command and returns the number of rows that it changed.
pub fn carry_out(store: &mut Store, command: &Command) -> (r: Result<usize, String>)
    ensures
        final(store).conn() == old(store).conn(),
        final(store).readings() == old(store).readings(),
        carried_out(old(store).log(), final(store).log(), command@, outcome_of(r)),
{
    match store.execute(command.sql.as_str(), &command.params) {
        Ok(n) => Ok(n),
        Err(e) => {
            let ghost step = execution(command@, Err(e@));
            assert(store.log() == old(store).log().push(step));
            Err(command.failed(e.as_str()))
        },
    }
}

/// A command was executed of which only the success matters.
pub open spec fn settled(
    before: Seq<Step>,
    after: Seq<Step>,
    command: CommandView,
    r: Result<(), Seq<char>>,
) -> bool {
    match r {
        Ok(_) => exists|n: usize| after == before.push(#[trigger] execution(command, Ok(n))),
        Err(message) => exists|e: Seq<char>|
            after == before.push(#[trigger] execution(command, Err(e))) && message
                == command.failure + e,
    }
}

/// Executes a command of which only the success matters.
pub fn settle(store: &mut Store, command: &Command) -> (r: Result<(), String>)
    ensures
        final(store).conn() == old(store).conn(),
        final(store).readings() == old(store).readings(),
        settled(old(store).log(), final(store).log(), command@, outcome_of(r)),
{
    match carry_out(store, command) {
        Ok(n) => {
            let ghost step = execution(command@, Ok(n));
            assert(store.log() == old(store).log().push(step));
            Ok(())
        },
        Err(e) => Err(e),
    }
}

// ---------------------------------------------------------------------------
// Scripts
// ---------------------------------------------------------------------------
/// The step of executing a command as a script.
pub open spec fn script_step(command: CommandView, outcome: Result<(), Seq<char>>) -> Step {
    Step::Scripted { sql: command.sql, outcome }
}

/// The steps of executing these commands, each with success.
pub open spec fn script_steps(list: Seq<CommandView>) -> Seq<Step> {
    list.map_values(|c: CommandView| script_step(c, Ok(())))
}

/// The commands were executed in order, up to the first that was refused; `r`
/// is the message of that refusal.
pub open spec fn script_ran(
    list: Seq<CommandView>,
    before: Seq<Step>,
    after: Seq<Step>,
    r: Result<(), Seq<char>>,
) -> bool {
    match r {
        Ok(_) => after == before + script_steps(list),
        Err(message) => exists|n: int, e: Seq<char>|
            0 <= n < list.len() && message == list[n].failure + e && after == before
                + script_steps(list.take(n)) + seq![#[trigger] script_step(list[n], Err(e))],
    }
}

/// A script that goes on with another one: nothing of the second is executed
/// where the first is refused.
pub proof fn scripts_compose(
    first: Seq<CommandView>,
    second: Seq<CommandView>,
    start: Seq<Step>,
    middle: Seq<Step>,
    end: Seq<Step>,
    r1: Result<(), Seq<char>>,
    r2: Result<(), Seq<char>>,
)
    requires
        script_ran(first, start, middle, r1),
        r1 is Ok ==> script_ran(second, middle, end, r2),
        r1 is Err ==> end == middle && r2 == r1,
    ensures
        script_ran(first + second, start, end, r2),
{
    let all = first + second;
    if r1 is Ok {
        match r2 {
            Ok(_) => {
                assert(script_steps(all) =~= script_steps(first) + script_steps(second));
                assert(end =~= start + script_steps(all));
            },
            Err(message) => {
                let (n, e) = choose|n: int, e: Seq<char>|
                    0 <= n < second.len() && message == second[n].failure + e && end == middle
                        + script_steps(second.take(n)) + seq![
                        #[trigger] script_step(second[n], Err(e)),
                    ];
                let m = first.len() + n;
                assert(all[m] == second[n]);
                assert(script_steps(all.take(m)) =~= script_steps(first) + script_steps(
                    second.take(n),
                ));
                assert(end =~= start + script_steps(all.take(m)) + seq![
                    script_step(all[m], Err(e)),
                ]);
            },
        }
    } else {
        let message = r1->Err_0;
        let (n, e) = choose|n: int, e: Seq<char>|
            0 <= n < first.len() && message == first[n].failure + e && middle == start
                + script_steps(first.take(n)) + seq![#[trigger] script_step(first[n], Err(e))];
        assert(all[n] == first[n]);
        assert(all.take(n) =~= first.take(n));
        assert(end == start + script_steps(all.take(n)) + seq![script_step(all[n], Err(e))]);
    }
}

/// Executes commands in order, up to the first that is refused.
pub fn run_script(store: &mut Store, list: &Vec<Command>) -> (r: Result<(), String>)
    ensures
        final(store).conn() == old(store).conn(),
        final(store).readings() == old(store).readings(),
        script_ran(commands(list@), old(store).log(), final(store).log(), outcome_of(r)),
{
    let ghost all = commands(list@);
    let ghost before = store.log();
    let mut i: usize = 0;
    assert(before =~= before + script_steps(all.take(0)));
    while i < list.len()
        invariant
            i <= list.len(),
            all == commands(list@),
            before == old(store).log(),
            store.conn() == old(store).conn(),
            store.readings() == old(store).readings(),
            store.log() == before + script_steps(all.take(i as int)),
        decreases list.len() - i,
    {
        match store.execute_batch(list[i].sql.as_str()) {
            Ok(_) => {},
            Err(e) => {
                proof {
                    let step = script_step(all[i as int], Err(e@));
                    assert(store.log() =~= before + script_steps(all.take(i as int)) + seq![step]);
                }
                return Err(list[i].failed(e.as_str()));
            },
        }
        proof {
            assert(all.take(i + 1) =~= all.take(i as int).push(all[i as int]));
            assert(script_steps(all.take(i + 1)) =~= script_steps(all.take(i as int)).push(
                script_step(all[i as int], Ok(())),
            ));
            assert(store.log() =~= before + script_steps(all.take(i + 1)));
        }
        i = i + 1;
    }
    assert(all.take(i as int) =~= all);
    Ok(())
}

} // verus!

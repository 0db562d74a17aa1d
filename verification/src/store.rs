//! A database connection and the record of what was asked of it.
//!
//! [`Store`] is the only part of the library that talks to the database. A
//! contract over its log says exactly what was handed to the database, in which
//! order, and how the answers were used.

use crate::chain::grew_by;
use crate::changelog::ChangeRecord;
use crate::clock::{is_utc_timestamp, now_rfc3339, Readings};
use crate::driver::{
    begun_on, driver_begin, driver_commit, driver_execute, driver_execute_batch,
    driver_last_insert_rowid, driver_next, driver_pragma_update, driver_prepare, driver_query,
    driver_rollback, holds_text, outcome_of, row_cells, running_on, take_over, HeldConnection,
    Step, Stored, Trace,
};
use crate::rows::{read_text, refusal, Cell, CellReader, RecordReader, RowReader, Wanted};
use crate::sql::{values, QueryOutcome, SqlValue, SqlValueView};
use vstd::prelude::*;

verus! {

// ---------------------------------------------------------------------------
// Queries
// ---------------------------------------------------------------------------
/// How the rows of a query came to an end.
#[verifier::ext_equal]
pub enum Ending {
    /// The database said that there are no more.
    Exhausted,
    /// The database failed to hand out the next one, with this message.
    Failed(Seq<char>),
    /// No more were asked for.
    Stopped,
}

/// How a query for rows was answered.
#[verifier::ext_equal]
pub enum Selected {
    /// It was refused when it was prepared, with this message.
    PrepareFailed { message: Seq<char> },
    /// It was refused when it was started, with this message.
    QueryFailed { message: Seq<char> },
    /// The rows that were taken, one after the other.
    Rows { rows: Seq<Seq<Stored>>, ending: Ending },
}

/// The steps of preparing and starting a query.
pub open spec fn starting(
    sql: Seq<char>,
    params: Seq<SqlValueView>,
    outcome: Result<(), Seq<char>>,
) -> Seq<Step> {
    seq![Step::Prepared { sql, outcome: Ok(()) }, Step::Started { params, outcome }]
}

/// The steps of taking these rows.
pub open spec fn fetches(rows: Seq<Seq<Stored>>) -> Seq<Step> {
    rows.map_values(|row: Seq<Stored>| Step::Fetched { outcome: Ok(Some(row)) })
}

/// The steps of coming to this end.
pub open spec fn ending_steps(ending: Ending) -> Seq<Step> {
    match ending {
        Ending::Exhausted => seq![Step::Fetched { outcome: Ok(None) }],
        Ending::Failed(message) => seq![Step::Fetched { outcome: Err(message) }],
        Ending::Stopped => Seq::empty(),
    }
}

/// The steps of a query that was answered in this way.
pub open spec fn selection(
    sql: Seq<char>,
    params: Seq<SqlValueView>,
    answer: Selected,
) -> Seq<Step> {
    match answer {
        Selected::PrepareFailed { message } => seq![
            Step::Prepared { sql, outcome: Err(message) },
        ],
        Selected::QueryFailed { message } => starting(sql, params, Err(message)),
        Selected::Rows { rows, ending } => starting(sql, params, Ok(())) + fetches(rows)
            + ending_steps(ending),
    }
}

/// A step that only reads.
pub open spec fn reads() -> spec_fn(Step) -> bool {
    |step: Step|
        match step {
            Step::Prepared { sql, outcome } => true,
            Step::Started { params, outcome } => true,
            Step::Fetched { outcome } => true,
            _ => false,
        }
}

/// A query only reads, however it is answered.
pub proof fn selection_only_reads(
    before: Seq<Step>,
    sql: Seq<char>,
    params: Seq<SqlValueView>,
    answer: Selected,
)
    ensures
        grew_by(before, before + selection(sql, params, answer), reads()),
{
    let steps = selection(sql, params, answer);
    let after = before + steps;
    assert forall|i: int| 0 <= i < steps.len() implies reads()(#[trigger] steps[i]) by {
        match answer {
            Selected::PrepareFailed { message } => {},
            Selected::QueryFailed { message } => {},
            Selected::Rows { rows, ending } => {
                let begun = starting(sql, params, Ok(()));
                if i < begun.len() {
                    assert(steps[i] == begun[i]);
                } else if i < begun.len() + rows.len() {
                    assert(steps[i] == fetches(rows)[i - begun.len()]);
                } else {
                    assert(steps[i] == ending_steps(ending)[i - begun.len() - rows.len()]);
                }
            },
        }
    }
    assert forall|i: int| before.len() <= i < after.len() implies reads()(#[trigger] after[i]) by {
        assert(after[i] == steps[i - before.len()]);
    }
}

/// `read` is what became of the rows: each row that was read holds its value;
/// reading stops at the first row that the reader refuses, with its message, or
/// where the database fails to hand out the next one.
pub open spec fn rows_read<T, R: RowReader<T>>(
    rows: Seq<Seq<Stored>>,
    ending: Ending,
    read: Seq<Result<T, String>>,
    reader: R,
) -> bool {
    &&& forall|i: int| 0 <= i < read.len() - 1 ==> #[trigger] read[i] is Ok
    &&& forall|i: int|
        0 <= i < read.len() && #[trigger] read[i] is Ok ==> i < rows.len() && reader.holds(
            rows[i],
            read[i]->Ok_0,
        )
    &&& match ending {
        Ending::Exhausted => read.len() == rows.len() && (read.len() > 0 ==> read.last() is Ok),
        Ending::Failed(e) => read.len() == rows.len() + 1 && read.last() is Err
            && read.last()->Err_0@ == e,
        Ending::Stopped => read.len() == rows.len() && (read.len() < usize::MAX ==> read.len() > 0
            && read.last() is Err) && (read.len() > 0 && read.last() is Err ==> reader.refuses(
            rows.last(),
        ) == Some(read.last()->Err_0@)),
    }
}

/// `outcome` is what a query came to whose rows were read in this way.
pub open spec fn selection_read<T, R: RowReader<T>>(
    answer: Selected,
    outcome: QueryOutcome<T>,
    reader: R,
) -> bool {
    match answer {
        Selected::PrepareFailed { message } => outcome is PrepareFailed
            && outcome->PrepareFailed_0@ == message,
        Selected::QueryFailed { message } => outcome is QueryFailed && outcome->QueryFailed_0@
            == message,
        Selected::Rows { rows, ending } => outcome is Rows && rows_read(
            rows,
            ending,
            outcome->Rows_0@,
            reader,
        ),
    }
}

/// `r` is the text in the first column of the first row, if there is a row, or
/// the message of what cannot be read. `column` is the name of the column. No
/// more than one row is asked for.
pub open spec fn text_read(
    answer: Selected,
    column: Seq<char>,
    r: Result<Option<String>, String>,
) -> bool {
    match answer {
        Selected::PrepareFailed { message } => r is Err && r->Err_0@ == message,
        Selected::QueryFailed { message } => r is Err && r->Err_0@ == message,
        Selected::Rows { rows, ending } => match ending {
            Ending::Failed(e) => rows.len() == 0 && r is Err && r->Err_0@ == e,
            Ending::Exhausted => rows.len() == 0 && r == Ok::<Option<String>, String>(None),
            Ending::Stopped => rows.len() == 1 && match r {
                Ok(Some(text)) => holds_text(rows[0], 0, text@),
                Ok(None) => false,
                Err(e) => refusal(rows[0], 0, column, Wanted::Text) == Some(e@),
            },
        },
    }
}

// ---------------------------------------------------------------------------
// Batches
// ---------------------------------------------------------------------------
/// A command of a batch; the caller may have left out the SQL text.
#[derive(Debug, PartialEq)]
pub struct BatchCommand {
    pub sql: Option<String>,
    pub params: Vec<SqlValue>,
}

/// Why a batch was not committed. The texts are the database's messages.
#[derive(Debug, PartialEq)]
pub enum BatchFailure {
    Begin(String),
    NoSql,
    Execute(String),
    Commit(String),
}

/// The steps begin a transaction and execute the first commands of the list,
/// each with success; `counts` are the numbers of rows that they changed.
pub open spec fn commands_ran(list: Seq<BatchCommand>, steps: Seq<Step>, counts: Seq<u64>) -> bool {
    &&& counts.len() <= list.len()
    &&& steps.len() == counts.len() + 1
    &&& steps[0] == Step::Begun { outcome: Ok(()) }
    &&& forall|i: int|
        0 <= i < counts.len() ==> {
            &&& #[trigger] list[i].sql is Some
            &&& steps[i + 1] == Step::Executed {
                sql: list[i].sql->Some_0@,
                params: values(list[i].params@),
                outcome: Ok(counts[i] as usize),
            }
        }
}

/// The step of rolling a transaction back.
pub open spec fn rollback_step(outcome: Result<(), Seq<char>>) -> Step {
    Step::RolledBack { outcome }
}

/// The step that ends a transaction.
pub open spec fn ends_transaction(step: Step) -> bool {
    step is Committed || step is RolledBack
}

/// The steps of a batch and what it came to: the transaction is committed once
/// every command was executed, and rolled back where one was not.
pub open spec fn transaction_ran(
    list: Seq<BatchCommand>,
    steps: Seq<Step>,
    r: Result<Vec<u64>, BatchFailure>,
) -> bool {
    match r {
        Ok(counts) => {
            &&& steps.len() == list.len() + 2
            &&& commands_ran(list, steps.drop_last(), counts@)
            &&& steps.last() == Step::Committed { outcome: Ok(()) }
        },
        Err(BatchFailure::Begin(e)) => steps == seq![Step::Begun { outcome: Err(e@) }],
        Err(BatchFailure::NoSql) => exists|
            before: Seq<Step>,
            counts: Seq<u64>,
            outcome: Result<(), Seq<char>>,
        |
            #![trigger commands_ran(list, before, counts), rollback_step(outcome)]
            {
                &&& commands_ran(list, before, counts)
                &&& counts.len() < list.len()
                &&& list[counts.len() as int].sql is None
                &&& steps == before.push(rollback_step(outcome))
            },
        Err(BatchFailure::Execute(e)) => exists|
            before: Seq<Step>,
            counts: Seq<u64>,
            outcome: Result<(), Seq<char>>,
        |
            #![trigger commands_ran(list, before, counts), rollback_step(outcome)]
            {
                &&& commands_ran(list, before, counts)
                &&& counts.len() < list.len()
                &&& list[counts.len() as int].sql is Some
                &&& steps == before.push(
                    Step::Executed {
                        sql: list[counts.len() as int].sql->Some_0@,
                        params: values(list[counts.len() as int].params@),
                        outcome: Err(e@),
                    },
                ).push(rollback_step(outcome))
            },
        Err(BatchFailure::Commit(e)) => exists|counts: Seq<u64>|
            #![trigger commands_ran(list, steps.drop_last(), counts)]
            {
                &&& steps.len() == list.len() + 2
                &&& commands_ran(list, steps.drop_last(), counts)
                &&& counts.len() == list.len()
                &&& steps.last() == Step::Committed { outcome: Err(e@) }
            },
    }
}

// ---------------------------------------------------------------------------
// The store
// ---------------------------------------------------------------------------
/// A connection with the log of what was asked of it.
pub struct Store {
    conn: HeldConnection,
    trace: Trace,
    clock: Readings,
}

impl Store {
    /// What was asked of the connection so far, in order.
    pub closed spec fn log(self) -> Seq<Step> {
        self.trace@
    }

    /// The readings of the clock that were taken for this connection, in order.
    pub closed spec fn readings(self) -> Seq<Seq<char>> {
        self.clock@
    }

    /// The connection itself.
    pub closed spec fn conn(self) -> rusqlite::Connection {
        self.conn@
    }

    #[verifier::type_invariant]
    spec fn traces_its_connection(self) -> bool {
        self.trace.of() == self.conn@
    }

    /// A store over an open connection, with an empty log.
    pub fn new(conn: rusqlite::Connection) -> (r: Self)
        ensures
            r.conn() == conn,
            r.log() == Seq::<Step>::empty(),
            r.readings() == Seq::<Seq<char>>::empty(),
    {
        let (conn, trace) = take_over(conn);
        Store { conn, trace, clock: Readings::new() }
    }

    /// Reads the clock: the current time in UTC.
    pub(crate) fn now(&mut self) -> (r: String)
        ensures
            final(self).conn() == old(self).conn(),
            final(self).log() == old(self).log(),
            final(self).readings() == old(self).readings().push(r@),
            is_utc_timestamp(r@),
    {
        proof {
            use_type_invariant(&*self);
        }
        let mut clock = Readings::new();
        std::mem::swap(&mut self.clock, &mut clock);
        let time = now_rfc3339(&mut clock);
        std::mem::swap(&mut self.clock, &mut clock);
        time
    }

    /// The connection, for requests that are made from outside the library; the
    /// log does not show them.
    pub fn connection(&self) -> (r: &rusqlite::Connection)
        ensures
            *r == self.conn(),
    {
        self.conn.get()
    }

    /// Closes the connection by dropping it, and keeps what was asked of it.
    pub fn close(self) -> (r: Trace)
        ensures
            r.of() == self.conn(),
            r@ == self.log(),
    {
        proof {
            use_type_invariant(&self);
        }
        self.trace
    }

    /// Executes one command and returns how many rows it changed.
    pub fn execute(&mut self, sql: &str, params: &Vec<SqlValue>) -> (r: Result<usize, String>)
        ensures
            final(self).conn() == old(self).conn(),
            final(self).readings() == old(self).readings(),
            final(self).log() == old(self).log().push(
                Step::Executed { sql: sql@, params: values(params@), outcome: outcome_of(r) },
            ),
    {
        proof {
            use_type_invariant(&*self);
        }
        driver_execute(self.conn.get(), &mut self.trace, sql, params)
    }

    /// Executes a script of commands without placeholders.
    pub fn execute_batch(&mut self, sql: &str) -> (r: Result<(), String>)
        ensures
            final(self).conn() == old(self).conn(),
            final(self).readings() == old(self).readings(),
            final(self).log() == old(self).log().push(
                Step::Scripted { sql: sql@, outcome: outcome_of(r) },
            ),
    {
        proof {
            use_type_invariant(&*self);
        }
        driver_execute_batch(self.conn.get(), &mut self.trace, sql)
    }

    /// The id of the row that was inserted last.
    pub fn last_insert_rowid(&mut self) -> (r: i64)
        ensures
            final(self).conn() == old(self).conn(),
            final(self).readings() == old(self).readings(),
            final(self).log() == old(self).log().push(Step::InsertedId { id: r }),
    {
        proof {
            use_type_invariant(&*self);
        }
        driver_last_insert_rowid(self.conn.get(), &mut self.trace)
    }

    /// Makes a setting of the connection.
    pub fn pragma_update(&mut self, name: &str, value: &SqlValue) -> (r: Result<(), String>)
        ensures
            final(self).conn() == old(self).conn(),
            final(self).readings() == old(self).readings(),
            final(self).log() == old(self).log().push(
                Step::Configured { name: name@, value: value@, outcome: outcome_of(r) },
            ),
    {
        proof {
            use_type_invariant(&*self);
        }
        driver_pragma_update(self.conn.get(), &mut self.trace, name, value)
    }

    /// Reads the rows that a query selects, up to the first that cannot be read.
    fn select<T, R: RowReader<T>>(&mut self, sql: &str, params: &Vec<SqlValue>, reader: &R) -> (r:
        QueryOutcome<T>)
        ensures
            final(self).conn() == old(self).conn(),
            final(self).readings() == old(self).readings(),
            exists|answer: Selected|
                final(self).log() == old(self).log() + #[trigger] selection(
                    sql@,
                    values(params@),
                    answer,
                ) && selection_read(answer, r, *reader),
    {
        proof {
            use_type_invariant(&*self);
        }
        let ghost before = self.log();
        let mut prepared = match driver_prepare(self.conn.get(), &mut self.trace, sql) {
            Ok(prepared) => prepared,
            Err(e) => {
                let ghost answer = Selected::PrepareFailed { message: e@ };
                assert(self.log() =~= before + selection(sql@, values(params@), answer));
                return QueryOutcome::PrepareFailed(e);
            },
        };
        let mut rows = match driver_query(&mut prepared, &mut self.trace, params) {
            Ok(rows) => rows,
            Err(e) => {
                let ghost answer = Selected::QueryFailed { message: e@ };
                assert(self.log() =~= before + selection(sql@, values(params@), answer));
                return QueryOutcome::QueryFailed(e);
            },
        };
        let ghost started = before + starting(sql@, values(params@), Ok(()));
        let ghost mut taken: Seq<Seq<Stored>> = Seq::empty();
        let ghost mut ending: Ending = Ending::Stopped;
        let mut read: Vec<Result<T, String>> = Vec::new();
        assert(self.trace@ =~= started + fetches(taken));
        while read.len() < usize::MAX
            invariant_except_break
                taken.len() == read.len(),
                ending is Stopped,
                forall|i: int|
                    0 <= i < read.len() ==> #[trigger] read@[i] is Ok && reader.holds(
                        taken[i],
                        read@[i]->Ok_0,
                    ),
                self.trace@ == started + fetches(taken),
            invariant
                self.conn@ == old(self).conn(),
                self.clock@ == old(self).readings(),
                self.trace.of() == self.conn@,
                running_on(rows) == self.conn@,
            ensures
                self.trace@ == started + fetches(taken) + ending_steps(ending),
                rows_read(taken, ending, read@, *reader),
            decreases usize::MAX - read.len(),
        {
            match driver_next(&mut rows, &mut self.trace) {
                Err(e) => {
                    proof {
                        ending = Ending::Failed(e@);
                    }
                    read.push(Err(e));
                    break;
                },
                Ok(None) => {
                    proof {
                        ending = Ending::Exhausted;
                    }
                    break;
                },
                Ok(Some(row)) => {
                    proof {
                        let fetched = taken.push(row_cells(row));
                        assert(fetches(fetched) =~= fetches(taken).push(
                            Step::Fetched { outcome: Ok(Some(row_cells(row))) },
                        ));
                        taken = fetched;
                        assert(self.trace@ =~= started + fetches(taken));
                    }
                    match reader.read(row) {
                        Ok(value) => {
                            read.push(Ok(value));
                        },
                        Err(e) => {
                            read.push(Err(e));
                            break;
                        },
                    }
                },
            }
        }
        proof {
            let answer = Selected::Rows { rows: taken, ending };
            assert(self.log() =~= before + selection(sql@, values(params@), answer));
        }
        QueryOutcome::Rows(read)
    }

    /// Reads the change records that a query selects, up to the first row that
    /// cannot be read.
    pub fn select_changes(&mut self, sql: &str, params: &Vec<SqlValue>) -> (r: QueryOutcome<
        ChangeRecord,
    >)
        ensures
            final(self).conn() == old(self).conn(),
            final(self).readings() == old(self).readings(),
            exists|answer: Selected|
                final(self).log() == old(self).log() + #[trigger] selection(
                    sql@,
                    values(params@),
                    answer,
                ) && selection_read(answer, r, RecordReader),
    {
        self.select(sql, params, &RecordReader)
    }

    /// Reads the rows that a query selects, `width` cells of each, up to the
    /// first row that cannot be read.
    pub fn select_cells(&mut self, sql: &str, params: &Vec<SqlValue>, width: usize) -> (r:
        QueryOutcome<Vec<Cell>>)
        ensures
            final(self).conn() == old(self).conn(),
            final(self).readings() == old(self).readings(),
            exists|answer: Selected|
                final(self).log() == old(self).log() + #[trigger] selection(
                    sql@,
                    values(params@),
                    answer,
                ) && selection_read(answer, r, CellReader { width }),
    {
        let reader = CellReader { width };
        self.select(sql, params, &reader)
    }

    /// Reads the text in the first column of the first row that a query selects.
    /// `column` is the name of that column.
    pub fn select_text(&mut self, sql: &str, params: &Vec<SqlValue>, column: &str) -> (r: Result<
        Option<String>,
        String,
    >)
        ensures
            final(self).conn() == old(self).conn(),
            final(self).readings() == old(self).readings(),
            exists|answer: Selected|
                final(self).log() == old(self).log() + #[trigger] selection(
                    sql@,
                    values(params@),
                    answer,
                ) && text_read(answer, column@, r),
    {
        proof {
            use_type_invariant(&*self);
        }
        let ghost before = self.log();
        let mut prepared = match driver_prepare(self.conn.get(), &mut self.trace, sql) {
            Ok(prepared) => prepared,
            Err(e) => {
                let ghost answer = Selected::PrepareFailed { message: e@ };
                assert(self.log() =~= before + selection(sql@, values(params@), answer));
                return Err(e);
            },
        };
        let mut rows = match driver_query(&mut prepared, &mut self.trace, params) {
            Ok(rows) => rows,
            Err(e) => {
                let ghost answer = Selected::QueryFailed { message: e@ };
                assert(self.log() =~= before + selection(sql@, values(params@), answer));
                return Err(e);
            },
        };
        match driver_next(&mut rows, &mut self.trace) {
            Err(e) => {
                let ghost answer = Selected::Rows {
                    rows: Seq::empty(),
                    ending: Ending::Failed(e@),
                };
                assert(self.log() =~= before + selection(sql@, values(params@), answer));
                Err(e)
            },
            Ok(None) => {
                let ghost answer = Selected::Rows {
                    rows: Seq::empty(),
                    ending: Ending::Exhausted,
                };
                assert(self.log() =~= before + selection(sql@, values(params@), answer));
                Ok(None)
            },
            Ok(Some(row)) => {
                let ghost answer = Selected::Rows {
                    rows: seq![row_cells(row)],
                    ending: Ending::Stopped,
                };
                assert(self.log() =~= before + selection(sql@, values(params@), answer));
                match read_text(row, 0, column) {
                    Ok(text) => Ok(Some(text)),
                    Err(e) => Err(e),
                }
            },
        }
    }

    /// Executes commands within one transaction, in order, and commits it when
    /// all have been executed. Where a command has no SQL text or is refused, the
    /// transaction is rolled back.
    pub fn execute_transaction(&mut self, list: &Vec<BatchCommand>) -> (r: Result<
        Vec<u64>,
        BatchFailure,
    >)
        ensures
            final(self).conn() == old(self).conn(),
            final(self).readings() == old(self).readings(),
            exists|steps: Seq<Step>|
                final(self).log() == old(self).log() + steps && #[trigger] transaction_ran(
                    list@,
                    steps,
                    r,
                ),
    {
        proof {
            use_type_invariant(&*self);
        }
        let ghost before = self.log();
        let ghost mut steps: Seq<Step> = Seq::empty();
        let mut counts: Vec<u64> = Vec::new();
        let transaction = match driver_begin(self.conn.get(), &mut self.trace) {
            Ok(transaction) => transaction,
            Err(e) => {
                proof {
                    steps = steps.push(Step::Begun { outcome: Err(e@) });
                    assert(self.trace@ =~= before + steps);
                    assert(transaction_ran(list@, steps, Err(BatchFailure::Begin(e))));
                }
                return Err(BatchFailure::Begin(e));
            },
        };
        proof {
            steps = steps.push(Step::Begun { outcome: Ok(()) });
            assert(self.trace@ =~= before + steps);
        }
        let mut i: usize = 0;
        while i < list.len()
            invariant
                i <= list.len(),
                counts.len() == i,
                before == old(self).log(),
                self.conn@ == old(self).conn(),
                self.clock@ == old(self).readings(),
                self.trace.of() == self.conn@,
                begun_on(transaction) == self.conn@,
                self.trace@ == before + steps,
                commands_ran(list@, steps, counts@),
            decreases list.len() - i,
        {
            match &list[i].sql {
                None => {
                    let ghost ran = steps;
                    let undone = driver_rollback(transaction, &mut self.trace);
                    proof {
                        steps = steps.push(rollback_step(outcome_of(undone)));
                        assert(self.trace@ =~= before + steps);
                        assert(commands_ran(list@, ran, counts@));
                        assert(transaction_ran(list@, steps, Err(BatchFailure::NoSql)));
                    }
                    return Err(BatchFailure::NoSql);
                },
                Some(sql) => {
                    let outcome = driver_execute(
                        self.conn.get(),
                        &mut self.trace,
                        sql.as_str(),
                        &list[i].params,
                    );
                    let ghost ran = steps;
                    proof {
                        steps =
                        steps.push(
                            Step::Executed {
                                sql: sql@,
                                params: values(list@[i as int].params@),
                                outcome: outcome_of(outcome),
                            },
                        );
                        assert(self.trace@ =~= before + steps);
                        assert(steps.drop_last() =~= ran);
                    }
                    match outcome {
                        Ok(n) => {
                            counts.push(n as u64);
                        },
                        Err(e) => {
                            let undone = driver_rollback(transaction, &mut self.trace);
                            proof {
                                steps = steps.push(rollback_step(outcome_of(undone)));
                                assert(self.trace@ =~= before + steps);
                                assert(commands_ran(list@, ran, counts@));
                                assert(transaction_ran(
                                    list@,
                                    steps,
                                    Err(BatchFailure::Execute(e)),
                                ));
                            }
                            return Err(BatchFailure::Execute(e));
                        },
                    }
                },
            }
            i = i + 1;
        }
        let ghost ran = steps;
        let outcome = driver_commit(transaction, &mut self.trace);
        proof {
            steps = steps.push(Step::Committed { outcome: outcome_of(outcome) });
            assert(self.trace@ =~= before + steps);
            assert(steps.drop_last() =~= ran);
        }
        match outcome {
            Ok(_) => {
                assert(transaction_ran(list@, steps, Ok(counts)));
                Ok(counts)
            },
            Err(e) => {
                assert(commands_ran(list@, steps.drop_last(), counts@));
                assert(transaction_ran(list@, steps, Err(BatchFailure::Commit(e))));
                Err(BatchFailure::Commit(e))
            },
        }
    }
}

} // verus!

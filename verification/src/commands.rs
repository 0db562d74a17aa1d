//! What the front-end can ask of an open database.

use crate::driver::Step;
use crate::encoding::{base64_encode, base64_text};
use crate::json::{
    fields_of, json_member_list, json_member_text, json_object, member_list, member_text,
    object_document, Json, JsonView,
};
use crate::request::{carried_out, carry_out};
use crate::rows::{Cell, CellReader};
use crate::sql::{
    chars_of, json_values_to_sql, query_result, sql_values, values, Command, CommandView, Query,
    QueryOutcome, QueryView, SqlValue,
};
use crate::store::{
    commands_ran, ends_transaction, rollback_step, selection, selection_read, transaction_ran,
    BatchCommand, BatchFailure, Selected, Store,
};
use crate::text::join2;
use vstd::prelude::*;

verus! {

// ---------------------------------------------------------------------------
// Executing a command
// ---------------------------------------------------------------------------
/// The command that the front-end asks for.
pub open spec fn execute_command(sql: Seq<char>, params: Seq<serde_json::Value>) -> CommandView {
    CommandView { sql, params: sql_values(params), failure: "db_execute error: "@ }
}

/// Executes a command and returns the number of rows that it changed.
pub fn db_execute(store: &mut Store, sql: &str, params: &Vec<serde_json::Value>) -> (r: Result<
    u64,
    String,
>)
    ensures
        final(store).conn() == old(store).conn(),
        carried_out(
            old(store).log(),
            final(store).log(),
            execute_command(sql@, params@),
            match r {
                Ok(n) => Ok(n as usize),
                Err(e) => Err(e@),
            },
        ),
{
    let command = Command {
        sql: sql.to_owned(),
        params: json_values_to_sql(params),
        failure: "db_execute error: ".to_owned(),
    };
    match carry_out(store, &command) {
        Ok(n) => Ok(n as u64),
        Err(e) => Err(e),
    }
}

// ---------------------------------------------------------------------------
// Querying rows
// ---------------------------------------------------------------------------
/// The JSON value of a cell: bytes become their Base64 text, a number that JSON
/// cannot show becomes null.
pub open spec fn json_of_cell(cell: Cell) -> JsonView {
    match cell {
        Cell::Null => JsonView::Null,
        Cell::Integer(i) => JsonView::Integer(i),
        Cell::Real(Some(n)) => JsonView::Real(n),
        Cell::Real(None) => JsonView::Null,
        Cell::Text(s) => JsonView::Text(s@),
        Cell::Blob(b) => JsonView::Text(base64_text(b@)),
    }
}

/// The JSON value of a cell.
pub fn sqlite_value_to_json(val: Cell) -> (r: Json)
    ensures
        r@ == json_of_cell(val),
{
    match val {
        Cell::Null => Json::Null,
        Cell::Integer(i) => Json::Integer(i),
        Cell::Real(Some(n)) => Json::Real(n),
        Cell::Real(None) => Json::Null,
        Cell::Text(s) => Json::Text(s),
        Cell::Blob(b) => Json::Text(base64_encode(b.as_slice())),
    }
}

/// The fields of a row: each column's name with the JSON value of its cell.
pub open spec fn row_fields(columns: Seq<String>, cells: Seq<Cell>) -> Seq<
    (Seq<char>, JsonView),
> {
    Seq::new(columns.len(), |i: int| (columns[i]@, json_of_cell(cells[i])))
}

/// The fields of a row.
pub fn row_to_fields(columns: &Vec<String>, cells: Vec<Cell>) -> (r: Vec<(String, Json)>)
    requires
        cells.len() == columns.len(),
    ensures
        fields_of(r@) == row_fields(columns@, cells@),
{
    let mut fields: Vec<(String, Json)> = Vec::new();
    for cell in it: cells
        invariant
            it.seq() == cells@,
            cells.len() == columns.len(),
            fields.len() == it.index(),
            forall|i: int|
                0 <= i < it.index() ==> (#[trigger] fields@[i]).0@ == columns@[i]@ && fields@[i].1@
                    == json_of_cell(cells@[i]),
    {
        let i: usize = fields.len();
        fields.push((columns[i].clone(), sqlite_value_to_json(cell)));
    }
    assert(fields_of(fields@) =~= row_fields(columns@, cells@));
    fields
}

/// The query that the front-end asks for.
pub open spec fn front_end_query(sql: Seq<char>, params: Seq<serde_json::Value>) -> QueryView {
    QueryView {
        sql,
        params: sql_values(params),
        prepare_failure: "db_query prepare error: "@,
        query_failure: "db_query error: "@,
        row_failure: "db_query row error: "@,
    }
}

/// The message of a query whose columns could not be asked for, because it could
/// not be prepared.
pub fn query_refused(error: &str) -> (r: String)
    ensures
        r@ == "db_query prepare error: "@ + error@,
{
    join2("db_query prepare error: ", error)
}

/// The objects of rows.
pub open spec fn row_objects(columns: Seq<String>, rows: Seq<Vec<Cell>>) -> Seq<
    serde_json::Value,
> {
    rows.map_values(|cells: Vec<Cell>| json_object(row_fields(columns, cells@)))
}

/// Turns rows into objects: each cell is a field under the name of its column.
pub fn rows_to_objects(columns: &Vec<String>, rows: Vec<Vec<Cell>>) -> (r: Vec<serde_json::Value>)
    requires
        forall|i: int| 0 <= i < rows.len() ==> (#[trigger] rows@[i]).len() == columns.len(),
    ensures
        r@ == row_objects(columns@, rows@),
        r.len() == rows.len(),
        forall|i: int|
            0 <= i < rows.len() ==> #[trigger] r@[i] == json_object(
                row_fields(columns@, rows@[i]@),
            ),
{
    let mut objects: Vec<serde_json::Value> = Vec::new();
    for cells in it: rows
        invariant
            it.seq() == rows@,
            forall|i: int| 0 <= i < rows.len() ==> (#[trigger] rows@[i]).len() == columns.len(),
            objects.len() == it.index(),
            forall|i: int|
                0 <= i < it.index() ==> #[trigger] objects@[i] == json_object(
                    row_fields(columns@, rows@[i]@),
                ),
    {
        assert(cells == rows@[objects.len() as int]);
        objects.push(object_document(row_to_fields(columns, cells)));
    }
    assert(objects@ =~= row_objects(columns@, rows@));
    objects
}

/// Rows were asked for, as many cells of each as there are columns; each row
/// that was read is an object, and `r` holds them in order, or the message of
/// the first failure.
pub open spec fn rows_queried(
    query: QueryView,
    columns: Seq<String>,
    width: usize,
    before: Seq<Step>,
    after: Seq<Step>,
    r: Result<Vec<serde_json::Value>, String>,
) -> bool {
    exists|
        answer: Selected,
        outcome: QueryOutcome<Vec<Cell>>,
        rows: Result<Vec<Vec<Cell>>, String>,
    |
        #![trigger selection(query.sql, query.params, answer), query_result(query, outcome, rows)]
        {
            &&& after == before + selection(query.sql, query.params, answer)
            &&& selection_read(answer, outcome, CellReader { width })
            &&& query_result(query, outcome, rows)
            &&& match rows {
                Ok(rows) => r is Ok && r->Ok_0@ == row_objects(columns, rows@),
                Err(e) => r is Err && r->Err_0 == e,
            }
        }
}

/// Selects rows and returns each as an object. `columns` are the names of the
/// columns that the query hands out.
pub fn db_query(
    store: &mut Store,
    sql: &str,
    params: &Vec<serde_json::Value>,
    columns: &Vec<String>,
) -> (r: Result<Vec<serde_json::Value>, String>)
    ensures
        final(store).conn() == old(store).conn(),
        rows_queried(
            front_end_query(sql@, params@),
            columns@,
            columns@.len() as usize,
            old(store).log(),
            final(store).log(),
            r,
        ),
{
    let query = Query {
        sql: sql.to_owned(),
        params: json_values_to_sql(params),
        prepare_failure: "db_query prepare error: ".to_owned(),
        query_failure: "db_query error: ".to_owned(),
        row_failure: "db_query row error: ".to_owned(),
    };
    let width: usize = columns.len();
    let outcome = store.select_cells(query.sql.as_str(), &query.params, width);
    let ghost answer = choose|answer: Selected|
        store.log() == old(store).log() + #[trigger] selection(
            query.sql@,
            values(query.params@),
            answer,
        ) && selection_read(answer, outcome, CellReader { width });
    assert(store.log() == old(store).log() + selection(query@.sql, query@.params, answer));
    let rows = query.collect_rows(outcome);
    assert(query_result(query@, outcome, rows));
    match rows {
        Ok(list) => {
            proof {
                assert forall|i: int| 0 <= i < list.len() implies (#[trigger] list@[i]).len()
                    == columns.len() by {
                    assert(outcome is Rows);
                    assert(outcome->Rows_0@[i] == Ok::<Vec<Cell>, String>(list@[i]));
                    assert(outcome->Rows_0@[i] is Ok);
                }
            }
            Ok(rows_to_objects(columns, list))
        },
        Err(e) => Err(e),
    }
}

// ---------------------------------------------------------------------------
// Batches
// ---------------------------------------------------------------------------
/// The command of a statement that the front-end sent.
pub open spec fn statement_command(statement: serde_json::Value, command: BatchCommand) -> bool {
    &&& chars_of(command.sql) == json_member_text(statement, "sql"@)
    &&& values(command.params@) == match json_member_list(statement, "params"@) {
        Some(params) => sql_values(params),
        None => Seq::empty(),
    }
}

/// The commands of statements that the front-end sent.
pub open spec fn statement_commands(
    statements: Seq<serde_json::Value>,
    list: Seq<BatchCommand>,
) -> bool {
    &&& list.len() == statements.len()
    &&& forall|i: int| 0 <= i < list.len() ==> statement_command(statements[i], #[trigger] list[i])
}

/// The command of a statement: its text is the member `sql`, its values are the
/// elements of the member `params`.
pub fn statement_to_command(statement: &serde_json::Value) -> (r: BatchCommand)
    ensures
        statement_command(*statement, r),
{
    let sql = member_text(statement, "sql");
    let params = match member_list(statement, "params") {
        Some(list) => json_values_to_sql(&list),
        None => {
            let none: Vec<SqlValue> = Vec::new();
            assert(values(none@) =~= Seq::empty());
            none
        },
    };
    BatchCommand { sql, params }
}

/// The message of a batch that was not committed.
pub open spec fn batch_message(failure: BatchFailure) -> Seq<char> {
    match failure {
        BatchFailure::Begin(e) => "db_batch transaction error: "@ + e@,
        BatchFailure::NoSql => "Each statement must have a 'sql' field"@,
        BatchFailure::Execute(e) => "db_batch execute error: "@ + e@,
        BatchFailure::Commit(e) => "db_batch commit error: "@ + e@,
    }
}

/// The message of a batch that was not committed.
pub fn batch_failure(failure: &BatchFailure) -> (r: String)
    ensures
        r@ == batch_message(*failure),
{
    match failure {
        BatchFailure::Begin(e) => join2("db_batch transaction error: ", e.as_str()),
        BatchFailure::NoSql => "Each statement must have a 'sql' field".to_owned(),
        BatchFailure::Execute(e) => join2("db_batch execute error: ", e.as_str()),
        BatchFailure::Commit(e) => join2("db_batch commit error: ", e.as_str()),
    }
}

/// A batch was executed in one transaction.
pub open spec fn batch_ran(
    statements: Seq<serde_json::Value>,
    before: Seq<Step>,
    after: Seq<Step>,
    r: Result<Vec<u64>, String>,
) -> bool {
    exists|list: Seq<BatchCommand>, steps: Seq<Step>, ran: Result<Vec<u64>, BatchFailure>|
        #![trigger statement_commands(statements, list), transaction_ran(list, steps, ran)]
        {
            &&& statement_commands(statements, list)
            &&& after == before + steps
            &&& transaction_ran(list, steps, ran)
            &&& match ran {
                Ok(counts) => r == Ok::<Vec<u64>, String>(counts),
                Err(failure) => r is Err && r->Err_0@ == batch_message(failure),
            }
        }
}

/// Executes statements in one transaction and returns how many rows each
/// changed.
pub fn db_batch(store: &mut Store, statements: &Vec<serde_json::Value>) -> (r: Result<
    Vec<u64>,
    String,
>)
    ensures
        final(store).conn() == old(store).conn(),
        batch_ran(statements@, old(store).log(), final(store).log(), r),
{
    let mut list: Vec<BatchCommand> = Vec::new();
    let mut i: usize = 0;
    while i < statements.len()
        invariant
            i <= statements.len(),
            list.len() == i,
            forall|j: int|
                0 <= j < i ==> statement_command(statements@[j], #[trigger] list@[j]),
        decreases statements.len() - i,
    {
        list.push(statement_to_command(&statements[i]));
        i = i + 1;
    }
    assert(statement_commands(statements@, list@));
    let ran = store.execute_transaction(&list);
    match ran {
        Ok(counts) => Ok(counts),
        Err(failure) => Err(batch_failure(&failure)),
    }
}

// ---------------------------------------------------------------------------
// Laws
// ---------------------------------------------------------------------------
/// The steps of a batch are those of one transaction: once it was begun, it ends
/// with the last step, and not before.
pub proof fn batch_is_one_transaction(
    list: Seq<BatchCommand>,
    steps: Seq<Step>,
    ran: Result<Vec<u64>, BatchFailure>,
)
    requires
        transaction_ran(list, steps, ran),
        !(ran matches Err(BatchFailure::Begin(_))),
    ensures
        steps.len() > 1,
        steps[0] == (Step::Begun { outcome: Ok(()) }),
        forall|i: int|
            0 <= i < steps.len() ==> (ends_transaction(#[trigger] steps[i]) <==> i == steps.len()
                - 1),
{
    match ran {
        Ok(counts) => {
            commands_do_not_end_it(list, steps.drop_last(), counts@);
            assert forall|i: int| 0 <= i < steps.len() implies (ends_transaction(
                #[trigger] steps[i],
            ) <==> i == steps.len() - 1) by {
                if i < steps.len() - 1 {
                    assert(steps[i] == steps.drop_last()[i]);
                }
            }
        },
        Err(BatchFailure::Begin(_)) => {},
        Err(BatchFailure::NoSql) => {
            let (before, counts, outcome) = choose|
                before: Seq<Step>,
                counts: Seq<u64>,
                outcome: Result<(), Seq<char>>,
            |
                #![trigger commands_ran(list, before, counts), rollback_step(outcome)]
                commands_ran(list, before, counts) && steps == before.push(rollback_step(outcome));
            commands_do_not_end_it(list, before, counts);
        },
        Err(BatchFailure::Execute(e)) => {
            let (before, counts, outcome) = choose|
                before: Seq<Step>,
                counts: Seq<u64>,
                outcome: Result<(), Seq<char>>,
            |
                #![trigger commands_ran(list, before, counts), rollback_step(outcome)]
                commands_ran(list, before, counts) && steps == before.push(
                    Step::Executed {
                        sql: list[counts.len() as int].sql->Some_0@,
                        params: values(list[counts.len() as int].params@),
                        outcome: Err(e@),
                    },
                ).push(rollback_step(outcome));
            commands_do_not_end_it(list, before, counts);
            assert forall|i: int| 0 <= i < steps.len() implies (ends_transaction(
                #[trigger] steps[i],
            ) <==> i == steps.len() - 1) by {
                if i < before.len() {
                    assert(steps[i] == before[i]);
                }
            }
        },
        Err(BatchFailure::Commit(e)) => {
            let counts = choose|counts: Seq<u64>|
                {
                    &&& #[trigger] commands_ran(list, steps.drop_last(), counts)
                    &&& counts.len() == list.len()
                    &&& steps.last() == Step::Committed { outcome: Err(e@) }
                };
            commands_do_not_end_it(list, steps.drop_last(), counts);
            assert forall|i: int| 0 <= i < steps.len() implies (ends_transaction(
                #[trigger] steps[i],
            ) <==> i == steps.len() - 1) by {
                if i < steps.len() - 1 {
                    assert(steps[i] == steps.drop_last()[i]);
                }
            }
        },
    }
}

proof fn commands_do_not_end_it(list: Seq<BatchCommand>, steps: Seq<Step>, counts: Seq<u64>)
    requires
        commands_ran(list, steps, counts),
    ensures
        forall|i: int| 0 <= i < steps.len() ==> !ends_transaction(#[trigger] steps[i]),
{
    assert forall|i: int| 0 <= i < steps.len() implies !ends_transaction(#[trigger] steps[i]) by {
        if i > 0 {
            assert(list[i - 1].sql is Some);
        }
    }
}

/// A batch is all or nothing: it is committed exactly where it succeeds, every
/// command having been executed; where a command has no SQL text or is refused,
/// it is rolled back.
pub proof fn batch_commits_all_or_nothing(
    list: Seq<BatchCommand>,
    steps: Seq<Step>,
    ran: Result<Vec<u64>, BatchFailure>,
)
    requires
        transaction_ran(list, steps, ran),
        steps.len() > 0,
    ensures
        ran is Ok <==> steps.last() == (Step::Committed { outcome: Ok(()) }),
        (ran matches Err(BatchFailure::NoSql)) || (ran matches Err(BatchFailure::Execute(_)))
            <==> steps.last() is RolledBack,
        steps.last() is Committed ==> steps.len() == list.len() + 2 && forall|j: int|
            0 <= j < list.len() ==> (#[trigger] list[j]).sql is Some && steps[j + 1] is Executed
                && steps[j + 1]->Executed_outcome is Ok,
{
    if steps.last() is Committed {
        let ran_before = steps.drop_last();
        let counts = match ran {
            Ok(counts) => counts@,
            Err(_) => choose|counts: Seq<u64>|
                #[trigger] commands_ran(list, ran_before, counts) && counts.len() == list.len(),
        };
        assert(commands_ran(list, ran_before, counts));
        assert forall|j: int| 0 <= j < list.len() implies (#[trigger] list[j]).sql is Some
            && steps[j + 1] is Executed && steps[j + 1]->Executed_outcome is Ok by {
            assert(steps[j + 1] == ran_before[j + 1]);
        }
    }
}

} // verus!

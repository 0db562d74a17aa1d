//! What the front-end's commands and queries come to.

use crate::commands::{
    batch_message, batch_ran, execute_command, front_end_query, json_of_cell, row_fields,
    row_objects, rows_queried, statement_command, statement_commands,
};
use crate::driver::{Step, Stored};
use crate::encoding::base64_text;
use crate::json::{
    json_display, json_kind, json_member, json_object, number_as_integer, seen_as, JsonView,
    KindView,
};
use crate::laws::{asked, executed, whole_query};
use crate::request::carried_out;
use crate::rows::{
    cell_holds, cell_refusals, cells_hold, first_of, first_of_is_first, row_with_cells_is_read,
    utf8_refusal, Cell, CellReader, RowReader,
};
use crate::sql::{
    first_refused, query_result, sql_value, sql_values, values, QueryOutcome, QueryView,
    SqlValueView,
};
use crate::store::{
    commands_ran, fetches, rollback_step, selection, selection_read, transaction_ran,
    BatchCommand, BatchFailure, Ending, Selected,
};
use crate::text::decimal;
use vstd::prelude::*;
use vstd::utf8::{encode_utf8, valid_utf8};

verus! {

proof fn first_refused_holds<T>(rows: Seq<Result<T, String>>)
    ensures
        first_refused(rows) <= rows.len(),
        forall|i: int| 0 <= i < first_refused(rows) ==> #[trigger] rows[i] is Ok,
        first_refused(rows) < rows.len() ==> rows[first_refused(rows) as int] is Err,
    decreases rows.len(),
{
    if rows.len() > 0 && rows[0] is Ok {
        let rest = rows.skip(1);
        first_refused_holds(rest);
        assert forall|i: int| 0 <= i < first_refused(rows) implies #[trigger] rows[i] is Ok by {
            if i > 0 {
                assert(rows[i] == rest[i - 1]);
            }
        }
    }
}

/// However a query is answered and its rows are read, it comes to what was asked.
pub proof fn query_is_asked<T, R: RowReader<T>>(
    query: QueryView,
    before: Seq<Step>,
    after: Seq<Step>,
    answer: Selected,
    outcome: QueryOutcome<T>,
    r: Result<Vec<T>, String>,
    reader: R,
    reads: spec_fn(Seq<Stored>, T) -> bool,
    refuses: spec_fn(Seq<Stored>) -> Option<Seq<char>>,
)
    requires
        forall|row: Seq<Stored>| #[trigger] reader.refuses(row) == refuses(row),
        after == before + selection(query.sql, query.params, answer),
        selection_read(answer, outcome, reader),
        query_result(query, outcome, r),
        r is Ok ==> r->Ok_0.len() < usize::MAX,
        forall|row: Seq<Stored>, value: T| #[trigger]
            reader.holds(row, value) <==> reads(row, value),
        forall|row: Seq<Stored>, value: T| #[trigger]
            reader.holds(row, value) ==> reader.refuses(row) is None,
    ensures
        asked(
            before,
            after,
            query,
            match r {
                Ok(list) => Ok(list@),
                Err(e) => Err(e@),
            },
            reads,
            refuses,
        ),
{
    let steps = selection(query.sql, query.params, answer);
    assert(after.take(before.len() as int) =~= before);
    match answer {
        Selected::PrepareFailed { message } => {
            assert(after.last() == steps[0]);
        },
        Selected::QueryFailed { message } => {
            assert(after[before.len() as int] == steps[0]);
            assert(after.last() == steps[1]);
        },
        Selected::Rows { rows, ending } => {
            let read = outcome->Rows_0@;
            first_refused_holds(read);
            let n = first_refused(read);
            assert(after[before.len() as int] == steps[0]);
            if n < read.len() {
                assert(read[n as int] is Err);
                assert(n == read.len() - 1);
                assert(after.last() == steps.last());
                match ending {
                    Ending::Exhausted => {},
                    Ending::Failed(e) => {
                        assert(steps.last() == Step::Fetched { outcome: Err(e) });
                    },
                    Ending::Stopped => {
                        assert(steps.last() == fetches(rows).last());
                        assert(fetches(rows).last() == Step::Fetched {
                            outcome: Ok(Some(rows.last())),
                        });
                        assert(reader.refuses(rows.last()) == refuses(rows.last()));
                        assert forall|value: T| !#[trigger] reads(rows.last(), value) by {
                            assert(reader.holds(rows.last(), value) <==> reads(rows.last(), value));
                        }
                    },
                }
            } else {
                let list = r->Ok_0;
                assert(ending is Exhausted) by {
                    if ending is Failed {
                        assert(read.last() is Err);
                        assert(read[read.len() - 1] is Ok);
                    }
                    if ending is Stopped {
                        assert(read.len() < usize::MAX);
                        assert(read[read.len() - 1] is Ok);
                    }
                }
                assert(steps =~= whole_query(query.sql, query.params, rows));
                assert forall|i: int| 0 <= i < rows.len() implies reads(
                    rows[i],
                    #[trigger] list@[i],
                ) by {
                    assert(read[i] == Ok::<T, String>(list@[i]));
                    assert(read[i] is Ok);
                    assert(reader.holds(rows[i], list@[i]));
                }
            }
        },
    }
}

/// The value under which a JSON value is bound: null, a truth value, a 64-bit
/// integer and a text as they are, any other number as a number, an array or an
/// object as its JSON text.
pub open spec fn bound_as(v: serde_json::Value) -> SqlValueView {
    match json_kind(v) {
        KindView::Null => SqlValueView::Null,
        KindView::Bool(b) => SqlValueView::Bool(b),
        KindView::Number(n) => match number_as_integer(n) {
            Some(i) => SqlValueView::Integer(i),
            None => SqlValueView::Real(n),
        },
        KindView::Text(text) => SqlValueView::Text(text),
        KindView::Array(_) => SqlValueView::Text(json_display(v)),
        KindView::Object => SqlValueView::Text(json_display(v)),
    }
}

/// The values under which JSON values are bound, one for each, in order.
pub open spec fn all_bound(params: Seq<serde_json::Value>) -> Seq<SqlValueView> {
    Seq::new(params.len(), |i: int| bound_as(params[i]))
}

/// JSON values are bound one by one, each by its kind.
pub proof fn json_is_bound_by_its_kind(v: serde_json::Value, params: Seq<serde_json::Value>)
    ensures
        sql_value(seen_as(v)) == bound_as(v),
        sql_values(params) == all_bound(params),
{
    assert forall|i: int| 0 <= i < params.len() implies sql_values(params)[i] == all_bound(
        params,
    )[i] by {
        let p = params[i];
        assert(sql_value(seen_as(p)) == bound_as(p));
    }
    assert(sql_values(params) =~= all_bound(params));
}

/// A document is seen by its kind: a number as an integer where it is one of 64
/// bits, an array or an object as the document itself.
pub proof fn document_is_seen_by_its_kind(v: serde_json::Value)
    ensures
        seen_as(v) == match json_kind(v) {
            KindView::Null => JsonView::Null,
            KindView::Bool(b) => JsonView::Bool(b),
            KindView::Number(n) => match number_as_integer(n) {
                Some(i) => JsonView::Integer(i),
                None => JsonView::Real(n),
            },
            KindView::Text(text) => JsonView::Text(text),
            KindView::Array(_) => JsonView::Nested(v),
            KindView::Object => JsonView::Nested(v),
        },
{
}

/// What is seen is bound as it is, an array or an object as its JSON text.
pub proof fn what_is_seen_is_bound(json: JsonView)
    ensures
        sql_value(json) == match json {
            JsonView::Null => SqlValueView::Null,
            JsonView::Bool(b) => SqlValueView::Bool(b),
            JsonView::Integer(i) => SqlValueView::Integer(i),
            JsonView::Real(n) => SqlValueView::Real(n),
            JsonView::Text(text) => SqlValueView::Text(text),
            JsonView::Nested(v) => SqlValueView::Text(json_display(v)),
        },
{
}

/// A command of the front-end is executed as it stands, with its values bound.
pub proof fn command_is_executed_as_it_stands(
    sql: Seq<char>,
    params: Seq<serde_json::Value>,
    before: Seq<Step>,
    after: Seq<Step>,
    r: Result<usize, Seq<char>>,
)
    requires
        carried_out(before, after, execute_command(sql, params), r),
    ensures
        executed(before, after, sql, all_bound(params), "db_execute error: "@, r),
{
    if params.len() > 0 {
        json_is_bound_by_its_kind(params[0], params);
    } else {
        assert(sql_values(params) =~= all_bound(params));
    }
}

/// The JSON value of a column: NULL, an integer, a number and a text as they are,
/// bytes as their Base64, and null for a number that JSON cannot show.
pub open spec fn shown_as(stored: Stored, json: JsonView) -> bool {
    match stored {
        Stored::Null => json is Null,
        Stored::Integer(n) => json == JsonView::Integer(n),
        Stored::Real(Some(n)) => json == JsonView::Real(n),
        Stored::Real(None) => json is Null,
        Stored::Text(bytes) => json is Text && encode_utf8(json->Text_0) == bytes,
        Stored::Blob(bytes) => json == JsonView::Text(base64_text(bytes)),
    }
}

/// The object shows the row: under the name of each column the value that the row
/// holds there.
pub open spec fn shows(row: Seq<Stored>, columns: Seq<String>, object: serde_json::Value) -> bool {
    exists|fields: Seq<(Seq<char>, JsonView)>|
        {
            &&& object == #[trigger] json_object(fields)
            &&& fields.len() == columns.len()
            &&& columns.len() <= row.len()
            &&& forall|j: int|
                0 <= j < columns.len() ==> (#[trigger] fields[j]).0 == columns[j]@ && shown_as(
                    row[j],
                    fields[j].1,
                )
        }
}

/// A cell is shown as the value that its column holds.
pub proof fn cell_is_shown_as_it_is_stored(stored: Stored, cell: Cell)
    requires
        cell_holds(stored, cell),
    ensures
        shown_as(stored, json_of_cell(cell)),
{
}

/// Rows become objects one for one, in their order.
pub proof fn every_row_becomes_its_object(columns: Seq<String>, rows: Seq<Vec<Cell>>)
    ensures
        row_objects(columns, rows).len() == rows.len(),
        forall|i: int|
            0 <= i < rows.len() ==> #[trigger] row_objects(columns, rows)[i] == json_object(
                row_fields(columns, rows[i]@),
            ),
{
}

/// The fields of a row are its cells, each under the name of its column.
pub proof fn every_cell_becomes_a_field(columns: Seq<String>, cells: Seq<Cell>)
    requires
        cells.len() == columns.len(),
    ensures
        row_fields(columns, cells).len() == columns.len(),
        forall|j: int|
            0 <= j < columns.len() ==> (#[trigger] row_fields(columns, cells)[j]).0 == columns[j]@
                && row_fields(columns, cells)[j].1 == json_of_cell(cells[j]),
{
}

/// A query of the front-end returns an object for each row that the database
/// hands out, in its order, that shows what the row holds.
pub proof fn query_returns_every_row(
    sql: Seq<char>,
    params: Seq<serde_json::Value>,
    columns: Seq<String>,
    width: usize,
    before: Seq<Step>,
    after: Seq<Step>,
    objects: Vec<serde_json::Value>,
)
    requires
        width == columns.len(),
        rows_queried(front_end_query(sql, params), columns, width, before, after, Ok(objects)),
        objects.len() < usize::MAX,
    ensures
        exists|rows: Seq<Seq<Stored>>|
            {
                &&& after == before + #[trigger] whole_query(sql, all_bound(params), rows)
                &&& objects.len() == rows.len()
                &&& forall|i: int|
                    0 <= i < rows.len() ==> shows(rows[i], columns, #[trigger] objects@[i])
            },
{
    let query = front_end_query(sql, params);
    let r = Ok::<Vec<serde_json::Value>, String>(objects);
    let (answer, outcome, list) = choose|
        answer: Selected,
        outcome: QueryOutcome<Vec<Cell>>,
        list: Result<Vec<Vec<Cell>>, String>,
    |
        #![trigger selection(query.sql, query.params, answer), query_result(query, outcome, list)]
        {
            &&& after == before + selection(query.sql, query.params, answer)
            &&& selection_read(answer, outcome, CellReader { width })
            &&& query_result(query, outcome, list)
            &&& match list {
                Ok(list) => r is Ok && r->Ok_0@ == row_objects(columns, list@),
                Err(e) => r is Err && r->Err_0 == e,
            }
        };
    let cells = list->Ok_0;
    let reader = CellReader { width };
    let reads = |row: Seq<Stored>, value: Vec<Cell>| cells_hold(width as nat, row, value@);
    assert forall|row: Seq<Stored>, value: Vec<Cell>| #[trigger]
        reader.holds(row, value) implies reader.refuses(row) is None by {
        row_with_cells_is_read(width, row, value@);
    }
    let refuses = |row: Seq<Stored>| first_of(cell_refusals(width as nat, row));
    query_is_asked(query, before, after, answer, outcome, list, reader, reads, refuses);
    let rows = choose|rows: Seq<Seq<Stored>>|
        {
            &&& after == before + #[trigger] whole_query(query.sql, query.params, rows)
            &&& cells@.len() == rows.len()
            &&& forall|i: int| 0 <= i < rows.len() ==> reads(rows[i], #[trigger] cells@[i])
        };
    if params.len() > 0 {
        json_is_bound_by_its_kind(params[0], params);
    } else {
        assert(sql_values(params) =~= all_bound(params));
    }
    assert(after == before + whole_query(sql, all_bound(params), rows));
    assert forall|i: int| 0 <= i < rows.len() implies shows(
        rows[i],
        columns,
        #[trigger] objects@[i],
    ) by {
        assert(reads(rows[i], cells@[i]));
        let fields = row_fields(columns, cells@[i]@);
        assert(objects@[i] == json_object(fields));
        assert forall|j: int| 0 <= j < columns.len() implies (#[trigger] fields[j]).0
            == columns[j]@ && shown_as(rows[i][j], fields[j].1) by {
            assert(cell_holds(rows[i][j], cells@[i]@[j]));
        }
    }
}

/// A query of the front-end that fails says at which step, in the words of the
/// database, or that a row could not be read.
pub proof fn refused_query_says_why(
    sql: Seq<char>,
    params: Seq<serde_json::Value>,
    columns: Seq<String>,
    width: usize,
    before: Seq<Step>,
    after: Seq<Step>,
    message: String,
)
    requires
        width == columns.len(),
        rows_queried(front_end_query(sql, params), columns, width, before, after, Err(message)),
    ensures
        before.len() < after.len(),
        after[before.len() as int] is Prepared && after[before.len() as int]->Prepared_sql == sql,
        match after.last() {
            Step::Prepared { sql, outcome: Err(e) } => message@ == "db_query prepare error: "@ + e,
            Step::Started { params: bound, outcome: Err(e) } => bound == all_bound(params)
                && message@ == "db_query error: "@ + e,
            Step::Fetched { outcome: Err(e) } => message@ == "db_query row error: "@ + e,
            Step::Fetched { outcome: Ok(Some(row)) } => {
                &&& first_of(cell_refusals(width as nat, row)) is Some
                &&& message@ == "db_query row error: "@ + first_of(
                    cell_refusals(width as nat, row),
                )->0
                &&& forall|cells: Vec<Cell>| !#[trigger] cells_hold(width as nat, row, cells@)
            },
            _ => false,
        },
{
    let query = front_end_query(sql, params);
    let r = Err::<Vec<serde_json::Value>, String>(message);
    let (answer, outcome, list) = choose|
        answer: Selected,
        outcome: QueryOutcome<Vec<Cell>>,
        list: Result<Vec<Vec<Cell>>, String>,
    |
        #![trigger selection(query.sql, query.params, answer), query_result(query, outcome, list)]
        {
            &&& after == before + selection(query.sql, query.params, answer)
            &&& selection_read(answer, outcome, CellReader { width })
            &&& query_result(query, outcome, list)
            &&& match list {
                Ok(list) => r is Ok && r->Ok_0@ == row_objects(columns, list@),
                Err(e) => r is Err && r->Err_0 == e,
            }
        };
    let reader = CellReader { width };
    let reads = |row: Seq<Stored>, value: Vec<Cell>| cells_hold(width as nat, row, value@);
    assert forall|row: Seq<Stored>, value: Vec<Cell>| #[trigger]
        reader.holds(row, value) implies reader.refuses(row) is None by {
        row_with_cells_is_read(width, row, value@);
    }
    let refuses = |row: Seq<Stored>| first_of(cell_refusals(width as nat, row));
    query_is_asked(query, before, after, answer, outcome, list, reader, reads, refuses);
    if params.len() > 0 {
        json_is_bound_by_its_kind(params[0], params);
    } else {
        assert(sql_values(params) =~= all_bound(params));
    }
    if let Step::Fetched { outcome: Ok(Some(row)) } = after.last() {
        assert forall|cells: Vec<Cell>| !#[trigger] cells_hold(width as nat, row, cells@) by {
            assert(!reads(row, cells));
        }
    }
}

/// A row is refused by the first of its columns that cannot be read: one that it
/// does not have, or a text that is not UTF-8.
pub proof fn row_is_refused_by_its_first_column(width: nat, row: Seq<Stored>, n: int)
    requires
        0 <= n < width,
        forall|i: int|
            0 <= i < n ==> i < row.len() && match #[trigger] row[i] {
                Stored::Text(bytes) => valid_utf8(bytes),
                _ => true,
            },
        n < row.len() ==> row[n] is Text && !valid_utf8(row[n]->Text_0),
    ensures
        first_of(cell_refusals(width, row)) == Some(
            if n >= row.len() {
                "Invalid column index: "@ + decimal(n as nat)
            } else {
                "Conversion error from type Text at index: "@ + decimal(n as nat) + ", "@
                    + utf8_refusal(row[n]->Text_0)
            },
        ),
{
    let refusals = cell_refusals(width, row);
    assert forall|i: int| 0 <= i < n implies #[trigger] refusals[i] is None by {
        assert(i < row.len() && match row[i] {
            Stored::Text(bytes) => valid_utf8(bytes),
            _ => true,
        });
    }
    first_of_is_first(refusals, n);
}

/// The text of a statement's member `sql`, if it has one.
pub open spec fn sql_of(statement: serde_json::Value) -> Option<Seq<char>> {
    match json_member(statement, "sql"@) {
        Some(member) => match json_kind(member) {
            KindView::Text(text) => Some(text),
            _ => None,
        },
        None => None,
    }
}

/// The elements of a statement's member `params`; none where it is no array.
pub open spec fn params_of(statement: serde_json::Value) -> Seq<serde_json::Value> {
    match json_member(statement, "params"@) {
        Some(member) => match json_kind(member) {
            KindView::Array(list) => list,
            _ => Seq::empty(),
        },
        None => Seq::empty(),
    }
}

proof fn statement_is_its_command(statement: serde_json::Value, command: BatchCommand)
    requires
        statement_command(statement, command),
    ensures
        match command.sql {
            Some(sql) => sql_of(statement) == Some(sql@),
            None => sql_of(statement) is None,
        },
        values(command.params@) == all_bound(params_of(statement)),
{
    let list = params_of(statement);
    if list.len() > 0 {
        json_is_bound_by_its_kind(list[0], list);
    } else {
        assert(sql_values(list) =~= all_bound(list));
        assert(all_bound(list) =~= Seq::empty());
    }
}

/// A batch that succeeds executed every statement, in order, with its values,
/// between the beginning of one transaction and its commit, and returns how many
/// rows each changed.
pub proof fn batch_executes_every_statement(
    statements: Seq<serde_json::Value>,
    before: Seq<Step>,
    after: Seq<Step>,
    counts: Vec<u64>,
)
    requires
        batch_ran(statements, before, after, Ok(counts)),
    ensures
        counts.len() == statements.len(),
        after.len() == before.len() + statements.len() + 2,
        after.take(before.len() as int) == before,
        after[before.len() as int] == (Step::Begun { outcome: Ok(()) }),
        after.last() == (Step::Committed { outcome: Ok(()) }),
        forall|i: int|
            0 <= i < statements.len() ==> sql_of(#[trigger] statements[i]) is Some && after[
            before.len() + 1 + i] == (Step::Executed {
                sql: sql_of(statements[i])->0,
                params: all_bound(params_of(statements[i])),
                outcome: Ok(counts@[i] as usize),
            }),
{
    let r = Ok::<Vec<u64>, String>(counts);
    let (list, steps, ran) = choose|
        list: Seq<BatchCommand>,
        steps: Seq<Step>,
        ran: Result<Vec<u64>, BatchFailure>,
    |
        #![trigger statement_commands(statements, list), transaction_ran(list, steps, ran)]
        {
            &&& statement_commands(statements, list)
            &&& after == before + steps
            &&& transaction_ran(list, steps, ran)
            &&& match ran {
                Ok(counts) => r == Ok::<Vec<u64>, String>(counts),
                Err(failure) => r is Err && r->Err_0@ == batch_message(failure),
            }
        };
    let shorter = steps.drop_last();
    assert(after.take(before.len() as int) =~= before);
    assert(after[before.len() as int] == steps[0]);
    assert(shorter[0] == steps[0]);
    assert forall|i: int| 0 <= i < statements.len() implies sql_of(
        #[trigger] statements[i],
    ) is Some && after[before.len() + 1 + i] == (Step::Executed {
        sql: sql_of(statements[i])->0,
        params: all_bound(params_of(statements[i])),
        outcome: Ok(counts@[i] as usize),
    }) by {
        assert(statement_command(statements[i], list[i]));
        statement_is_its_command(statements[i], list[i]);
        assert(list[i].sql is Some);
        assert(after[before.len() + 1 + i] == steps[i + 1]);
        assert(steps[i + 1] == shorter[i + 1]);
    }
}

/// The statements before one were executed, each with success.
pub open spec fn executed_up_to(
    statements: Seq<serde_json::Value>,
    n: int,
    before: Seq<Step>,
    after: Seq<Step>,
) -> bool {
    &&& 0 <= n <= statements.len()
    &&& after.len() > before.len() + n
    &&& after.take(before.len() as int) == before
    &&& after[before.len() as int] == Step::Begun { outcome: Ok(()) }
    &&& forall|i: int|
        0 <= i < n ==> {
            &&& sql_of(#[trigger] statements[i]) is Some
            &&& after[before.len() + 1 + i] is Executed
            &&& after[before.len() + 1 + i]->Executed_sql == sql_of(statements[i])->0
            &&& after[before.len() + 1 + i]->Executed_params == all_bound(params_of(statements[i]))
            &&& after[before.len() + 1 + i]->Executed_outcome is Ok
        }
}

/// Why a batch failed, by the steps that were taken: the transaction could not
/// be begun; a statement has no SQL text, or was refused, and what went before
/// was rolled back; or the commit was refused.
pub open spec fn batch_failed(
    statements: Seq<serde_json::Value>,
    n: int,
    before: Seq<Step>,
    after: Seq<Step>,
    message: Seq<char>,
) -> bool {
    let at = before.len() as int;
    ||| exists|e: Seq<char>|
        message == #[trigger] ("db_batch transaction error: "@ + e) && after == before.push(
            Step::Begun { outcome: Err(e) },
        )
    ||| {
        &&& executed_up_to(statements, n, before, after)
        &&& n < statements.len()
        &&& sql_of(statements[n]) is None
        &&& message == "Each statement must have a 'sql' field"@
        &&& after.len() == at + n + 2
        &&& after.last() is RolledBack
    }
    ||| {
        &&& executed_up_to(statements, n, before, after)
        &&& n < statements.len()
        &&& sql_of(statements[n]) is Some
        &&& after.len() == at + n + 3
        &&& after[at + 1 + n] is Executed
        &&& after[at + 1 + n]->Executed_sql == sql_of(statements[n])->0
        &&& after[at + 1 + n]->Executed_params == all_bound(params_of(statements[n]))
        &&& after[at + 1 + n]->Executed_outcome is Err
        &&& message == "db_batch execute error: "@ + after[at + 1 + n]->Executed_outcome->Err_0
        &&& after.last() is RolledBack
    }
    ||| {
        &&& executed_up_to(statements, n, before, after)
        &&& n == statements.len()
        &&& after.len() == at + n + 2
        &&& after.last() is Committed
        &&& after.last()->Committed_outcome is Err
        &&& message == "db_batch commit error: "@ + after.last()->Committed_outcome->Err_0
    }
}

proof fn commands_are_the_statements(
    statements: Seq<serde_json::Value>,
    list: Seq<BatchCommand>,
    counts: Seq<u64>,
    ran: Seq<Step>,
    before: Seq<Step>,
    after: Seq<Step>,
)
    requires
        statement_commands(statements, list),
        commands_ran(list, ran, counts),
        after.len() >= before.len() + ran.len(),
        after.take((before.len() + ran.len()) as int) == before + ran,
    ensures
        executed_up_to(statements, counts.len() as int, before, after),
{
    let whole = before + ran;
    assert forall|i: int| 0 <= i < whole.len() implies after[i] == whole[i] by {
        assert(after.take((before.len() + ran.len()) as int)[i] == after[i]);
    }
    assert(after.take(before.len() as int) =~= before);
    assert(after[before.len() as int] == ran[0]);
    assert forall|i: int| 0 <= i < counts.len() implies {
        &&& sql_of(#[trigger] statements[i]) is Some
        &&& after[before.len() + 1 + i] is Executed
        &&& after[before.len() + 1 + i]->Executed_sql == sql_of(statements[i])->0
        &&& after[before.len() + 1 + i]->Executed_params == all_bound(params_of(statements[i]))
        &&& after[before.len() + 1 + i]->Executed_outcome is Ok
    } by {
        assert(statement_command(statements[i], list[i]));
        statement_is_its_command(statements[i], list[i]);
        assert(list[i].sql is Some);
        assert(after[before.len() + 1 + i] == ran[i + 1]);
    }
}

/// A batch that fails says why, and has been rolled back where the transaction
/// was begun, unless the commit itself was refused.
pub proof fn failed_batch_says_why(
    statements: Seq<serde_json::Value>,
    before: Seq<Step>,
    after: Seq<Step>,
    message: String,
)
    requires
        batch_ran(statements, before, after, Err(message)),
    ensures
        exists|n: int| #[trigger] batch_failed(statements, n, before, after, message@),
{
    let r = Err::<Vec<u64>, String>(message);
    let (list, steps, ran) = choose|
        list: Seq<BatchCommand>,
        steps: Seq<Step>,
        ran: Result<Vec<u64>, BatchFailure>,
    |
        #![trigger statement_commands(statements, list), transaction_ran(list, steps, ran)]
        {
            &&& statement_commands(statements, list)
            &&& after == before + steps
            &&& transaction_ran(list, steps, ran)
            &&& match ran {
                Ok(counts) => r == Ok::<Vec<u64>, String>(counts),
                Err(failure) => r is Err && r->Err_0@ == batch_message(failure),
            }
        };
    let at = before.len() as int;
    match ran->Err_0 {
        BatchFailure::Begin(e) => {
            assert(after =~= before.push(Step::Begun { outcome: Err(e@) }));
            assert(message@ == "db_batch transaction error: "@ + e@);
            assert(batch_failed(statements, 0, before, after, message@));
        },
        BatchFailure::NoSql => {
            let (earlier, counts, outcome) = choose|
                earlier: Seq<Step>,
                counts: Seq<u64>,
                outcome: Result<(), Seq<char>>,
            |
                #![trigger commands_ran(list, earlier, counts), rollback_step(outcome)]
                commands_ran(list, earlier, counts) && counts.len() < list.len()
                    && list[counts.len() as int].sql is None && steps == earlier.push(
                    rollback_step(outcome),
                );
            let n = counts.len() as int;
            assert(after.take((before.len() + earlier.len()) as int) =~= before + earlier);
            commands_are_the_statements(statements, list, counts, earlier, before, after);
            assert(statement_command(statements[n], list[n]));
            statement_is_its_command(statements[n], list[n]);
            assert(after.last() == rollback_step(outcome));
            assert(batch_failed(statements, n, before, after, message@));
        },
        BatchFailure::Execute(e) => {
            let (earlier, counts, outcome) = choose|
                earlier: Seq<Step>,
                counts: Seq<u64>,
                outcome: Result<(), Seq<char>>,
            |
                #![trigger commands_ran(list, earlier, counts), rollback_step(outcome)]
                commands_ran(list, earlier, counts) && counts.len() < list.len()
                    && list[counts.len() as int].sql is Some && steps == earlier.push(
                    Step::Executed {
                        sql: list[counts.len() as int].sql->Some_0@,
                        params: values(list[counts.len() as int].params@),
                        outcome: Err(e@),
                    },
                ).push(rollback_step(outcome));
            let n = counts.len() as int;
            assert(after.take((before.len() + earlier.len()) as int) =~= before + earlier);
            commands_are_the_statements(statements, list, counts, earlier, before, after);
            assert(statement_command(statements[n], list[n]));
            statement_is_its_command(statements[n], list[n]);
            assert(after.last() == rollback_step(outcome));
            assert(after[at + 1 + n] == steps[1 + n]);
            assert(batch_failed(statements, n, before, after, message@));
        },
        BatchFailure::Commit(e) => {
            let earlier = steps.drop_last();
            let counts = choose|counts: Seq<u64>| #[trigger]
                commands_ran(list, earlier, counts) && counts.len() == list.len();
            let n = counts.len() as int;
            assert(after.take((before.len() + earlier.len()) as int) =~= before + earlier);
            commands_are_the_statements(statements, list, counts, earlier, before, after);
            assert(after.last() == steps.last());
            assert(batch_failed(statements, n, before, after, message@));
        },
    }
}

} // verus!

//! Calls of the front-end's commands.

use crate::commands::{
    batch_failure, db_batch, db_execute, db_query, query_refused, row_to_fields, rows_to_objects,
    sqlite_value_to_json, statement_to_command,
};
use crate::driver::{Step, Stored};
use crate::encoding::base64_text;
use crate::json::{
    classify, json_display, json_kind, json_member, json_object, member_list, member_text,
    number_as_integer, number_to_json, Json, JsonView, KindView,
};
use crate::laws::queries::{
    all_bound, batch_executes_every_statement, batch_failed, bound_as,
    command_is_executed_as_it_stands, document_is_seen_by_its_kind, failed_batch_says_why,
    json_is_bound_by_its_kind, params_of, query_returns_every_row, refused_query_says_why, shows,
    sql_of, what_is_seen_is_bound,
};
use crate::laws::{executed, whole_query};
use crate::rows::{cell_refusals, cells_hold, first_of, Cell};
use crate::sql::{
    classified_to_sql, json_value_to_sql, json_values_to_sql, sql_values, SqlValue, SqlValueView,
};
use crate::store::{BatchCommand, BatchFailure, Store};
use vstd::prelude::*;

verus! {

/// `db_execute` executes the command as it stands, and returns how many rows it
/// changed.
pub proof fn db_execute_comes_to(
    store: &mut Store,
    sql: &str,
    params: &Vec<serde_json::Value>,
    r: Result<u64, String>,
)
    requires
        call_ensures(db_execute, (store, sql, params), r),
    ensures
        final(store).conn() == old(store).conn(),
        executed(
            old(store).log(),
            final(store).log(),
            sql@,
            all_bound(params@),
            "db_execute error: "@,
            match r {
                Ok(n) => Ok(n as usize),
                Err(e) => Err(e@),
            },
        ),
{
    command_is_executed_as_it_stands(
        sql@,
        params@,
        old(store).log(),
        final(store).log(),
        match r {
            Ok(n) => Ok(n as usize),
            Err(e) => Err(e@),
        },
    );
}

/// `db_query` returns an object for each row that the database hands out, in its
/// order, or says at which step it failed.
pub proof fn db_query_comes_to(
    store: &mut Store,
    sql: &str,
    params: &Vec<serde_json::Value>,
    columns: &Vec<String>,
    r: Result<Vec<serde_json::Value>, String>,
)
    requires
        call_ensures(db_query, (store, sql, params, columns), r),
        r is Ok ==> r->Ok_0.len() < usize::MAX,
        columns@.len() <= usize::MAX,
    ensures
        final(store).conn() == old(store).conn(),
        match r {
            Ok(objects) => exists|rows: Seq<Seq<Stored>>|
                {
                    &&& final(store).log() == old(store).log() + #[trigger] whole_query(
                        sql@,
                        all_bound(params@),
                        rows,
                    )
                    &&& objects.len() == rows.len()
                    &&& forall|i: int|
                        0 <= i < rows.len() ==> shows(rows[i], columns@, #[trigger] objects@[i])
                },
            Err(message) => {
                &&& old(store).log().len() < final(store).log().len()
                &&& match final(store).log().last() {
                    Step::Prepared { sql, outcome: Err(e) } => message@
                        == "db_query prepare error: "@ + e,
                    Step::Started { params: bound, outcome: Err(e) } => bound == all_bound(params@)
                        && message@ == "db_query error: "@ + e,
                    Step::Fetched { outcome: Err(e) } => message@ == "db_query row error: "@ + e,
                    Step::Fetched { outcome: Ok(Some(row)) } => {
                        &&& first_of(cell_refusals(columns@.len(), row)) is Some
                        &&& message@ == "db_query row error: "@ + first_of(
                            cell_refusals(columns@.len(), row),
                        )->0
                        &&& forall|cells: Vec<Cell>|
                            !#[trigger] cells_hold(columns@.len(), row, cells@)
                    },
                    _ => false,
                }
            },
        },
{
    let width = columns@.len() as usize;
    match r {
        Ok(objects) => {
            query_returns_every_row(
                sql@,
                params@,
                columns@,
                width,
                old(store).log(),
                final(store).log(),
                objects,
            );
        },
        Err(message) => {
            refused_query_says_why(
                sql@,
                params@,
                columns@,
                width,
                old(store).log(),
                final(store).log(),
                message,
            );
        },
    }
}

/// `rows_to_objects` makes one object of each row, in their order, with a field
/// for each column that holds the cell's value.
pub proof fn rows_to_objects_comes_to(
    columns: &Vec<String>,
    rows: Vec<Vec<Cell>>,
    r: Vec<serde_json::Value>,
)
    requires
        call_ensures(rows_to_objects, (columns, rows), r),
    ensures
        r@.len() == rows@.len(),
        forall|i: int|
            0 <= i < rows@.len() ==> #[trigger] r@[i] == json_object(
                Seq::new(
                    columns@.len(),
                    |j: int| (columns@[j]@, cell_shown_as(rows@[i]@[j])),
                ),
            ),
{
    assert forall|i: int| 0 <= i < rows@.len() implies #[trigger] r@[i] == json_object(
        Seq::new(columns@.len(), |j: int| (columns@[j]@, cell_shown_as(rows@[i]@[j]))),
    ) by {
        assert(crate::commands::row_fields(columns@, rows@[i]@) =~= Seq::new(
            columns@.len(),
            |j: int| (columns@[j]@, cell_shown_as(rows@[i]@[j])),
        ));
    }
}

/// The JSON value of a cell.
pub open spec fn cell_shown_as(cell: Cell) -> JsonView {
    match cell {
        Cell::Null => JsonView::Null,
        Cell::Integer(n) => JsonView::Integer(n),
        Cell::Real(Some(n)) => JsonView::Real(n),
        Cell::Real(None) => JsonView::Null,
        Cell::Text(text) => JsonView::Text(text@),
        Cell::Blob(bytes) => JsonView::Text(base64_text(bytes@)),
    }
}

/// `sqlite_value_to_json` shows a cell as it is, and bytes as their Base64.
pub proof fn sqlite_value_to_json_comes_to(cell: Cell, r: Json)
    requires
        call_ensures(sqlite_value_to_json, (cell,), r),
    ensures
        r@ == cell_shown_as(cell),
{
}

/// `row_to_fields` makes one field of each cell, under the name of its column.
pub proof fn row_to_fields_comes_to(
    columns: &Vec<String>,
    cells: Vec<Cell>,
    r: Vec<(String, Json)>,
)
    requires
        call_ensures(row_to_fields, (columns, cells), r),
        cells@.len() == columns@.len(),
    ensures
        r@.len() == columns@.len(),
        forall|j: int|
            0 <= j < columns@.len() ==> (#[trigger] r@[j]).0@ == columns@[j]@ && r@[j].1@
                == cell_shown_as(cells@[j]),
{
    let fields = crate::json::fields_of(r@);
    assert(fields.len() == r@.len());
    assert forall|j: int| 0 <= j < columns@.len() implies (#[trigger] r@[j]).0@ == columns@[j]@
        && r@[j].1@ == cell_shown_as(cells@[j]) by {
        assert(fields[j] == (r@[j].0@, r@[j].1@));
        assert(fields[j] == crate::commands::row_fields(columns@, cells@)[j]);
    }
}

/// `query_refused` puts the words for a query that could not be prepared before
/// the error.
pub proof fn query_refused_comes_to(error: &str, r: String)
    requires
        call_ensures(query_refused, (error,), r),
    ensures
        r@ == "db_query prepare error: "@ + error@,
{
}

/// `db_batch` executes every statement in one transaction, or says why it did
/// not.
pub proof fn db_batch_comes_to(
    store: &mut Store,
    statements: &Vec<serde_json::Value>,
    r: Result<Vec<u64>, String>,
)
    requires
        call_ensures(db_batch, (store, statements), r),
    ensures
        final(store).conn() == old(store).conn(),
        match r {
            Ok(counts) => {
                let at = old(store).log().len() as int;
                let after = final(store).log();
                &&& counts@.len() == statements@.len()
                &&& after.len() == at + statements@.len() + 2
                &&& after.take(at) == old(store).log()
                &&& after[at] == (Step::Begun { outcome: Ok(()) })
                &&& after.last() == (Step::Committed { outcome: Ok(()) })
                &&& forall|i: int|
                    0 <= i < statements@.len() ==> sql_of(#[trigger] statements@[i]) is Some
                        && after[at + 1 + i] == (Step::Executed {
                        sql: sql_of(statements@[i])->0,
                        params: all_bound(params_of(statements@[i])),
                        outcome: Ok(counts@[i] as usize),
                    })
            },
            Err(message) => exists|n: int| #[trigger]
                batch_failed(
                    statements@,
                    n,
                    old(store).log(),
                    final(store).log(),
                    message@,
                ),
        },
{
    match r {
        Ok(counts) => {
            batch_executes_every_statement(
                statements@,
                old(store).log(),
                final(store).log(),
                counts,
            );
        },
        Err(message) => {
            failed_batch_says_why(statements@, old(store).log(), final(store).log(), message);
        },
    }
}

/// `statement_to_command` takes the text and the values of a statement.
pub proof fn statement_to_command_comes_to(statement: &serde_json::Value, r: BatchCommand)
    requires
        call_ensures(statement_to_command, (statement,), r),
    ensures
        match r.sql {
            Some(sql) => sql_of(*statement) == Some(sql@),
            None => sql_of(*statement) is None,
        },
        r.params@.len() == params_of(*statement).len(),
        forall|i: int|
            0 <= i < r.params@.len() ==> (#[trigger] r.params@[i])@ == bound_as(
                params_of(*statement)[i],
            ),
{
    let list = params_of(*statement);
    let bound = crate::sql::values(r.params@);
    if list.len() > 0 {
        json_is_bound_by_its_kind(list[0], list);
    } else {
        assert(sql_values(list) =~= all_bound(list));
        assert(all_bound(list) =~= Seq::empty());
    }
    assert(bound == all_bound(list));
    assert(bound.len() == r.params@.len());
    assert forall|i: int| 0 <= i < r.params@.len() implies (#[trigger] r.params@[i])@ == bound_as(
        list[i],
    ) by {
        assert(bound[i] == r.params@[i]@);
    }
}

/// `batch_failure` has its words for each way in which a batch can fail.
pub proof fn batch_failure_comes_to(failure: &BatchFailure, r: String)
    requires
        call_ensures(batch_failure, (failure,), r),
    ensures
        r@ == match *failure {
            BatchFailure::Begin(e) => "db_batch transaction error: "@ + e@,
            BatchFailure::NoSql => "Each statement must have a 'sql' field"@,
            BatchFailure::Execute(e) => "db_batch execute error: "@ + e@,
            BatchFailure::Commit(e) => "db_batch commit error: "@ + e@,
        },
{
}

/// `json_value_to_sql` binds a document by its kind.
pub proof fn json_value_to_sql_comes_to(v: &serde_json::Value, r: SqlValue)
    requires
        call_ensures(json_value_to_sql, (v,), r),
    ensures
        r@ == bound_as(*v),
{
    json_is_bound_by_its_kind(*v, Seq::empty());
}

/// `json_values_to_sql` binds each document by its kind, in their order.
pub proof fn json_values_to_sql_comes_to(list: &Vec<serde_json::Value>, r: Vec<SqlValue>)
    requires
        call_ensures(json_values_to_sql, (list,), r),
    ensures
        r@.len() == list@.len(),
        forall|i: int| 0 <= i < r@.len() ==> (#[trigger] r@[i])@ == bound_as(list@[i]),
{
    let bound = crate::sql::values(r@);
    assert(bound.len() == r@.len());
    assert(sql_values(list@).len() == list@.len());
    assert forall|i: int| 0 <= i < r@.len() implies (#[trigger] r@[i])@ == bound_as(list@[i]) by {
        json_is_bound_by_its_kind(list@[i], list@);
        assert(bound[i] == r@[i]@);
        assert(sql_values(list@)[i] == all_bound(list@)[i]);
    }
}

/// `classified_to_sql` binds what is seen as it is, an array or an object as its
/// JSON text.
pub proof fn classified_to_sql_comes_to(json: Json, r: SqlValue)
    requires
        call_ensures(classified_to_sql, (json,), r),
    ensures
        r@ == match json {
            Json::Null => SqlValueView::Null,
            Json::Bool(b) => SqlValueView::Bool(b),
            Json::Integer(i) => SqlValueView::Integer(i),
            Json::Real(n) => SqlValueView::Real(n),
            Json::Text(text) => SqlValueView::Text(text@),
            Json::Nested(v) => SqlValueView::Text(json_display(v)),
        },
{
    what_is_seen_is_bound(json@);
}

/// `classify` sees a document by its kind.
pub proof fn classify_comes_to(v: &serde_json::Value, r: Json)
    requires
        call_ensures(classify, (v,), r),
    ensures
        r@ == match json_kind(*v) {
            KindView::Null => JsonView::Null,
            KindView::Bool(b) => JsonView::Bool(b),
            KindView::Number(n) => match number_as_integer(n) {
                Some(i) => JsonView::Integer(i),
                None => JsonView::Real(n),
            },
            KindView::Text(text) => JsonView::Text(text),
            KindView::Array(_) => JsonView::Nested(*v),
            KindView::Object => JsonView::Nested(*v),
        },
{
    document_is_seen_by_its_kind(*v);
}

/// `number_to_json` sees a number as the integer that it is, where it is one.
pub proof fn number_to_json_comes_to(
    integer: Option<i64>,
    number: serde_json::Number,
    r: Json,
)
    requires
        call_ensures(number_to_json, (integer, number), r),
    ensures
        integer matches Some(i) ==> r@ == JsonView::Integer(i),
        integer is None ==> r@ == JsonView::Real(number),
{
}

/// `member_text` is the text of the member of that name, if it is a text.
pub proof fn member_text_comes_to(v: &serde_json::Value, name: &str, r: Option<String>)
    requires
        call_ensures(member_text, (v, name), r),
    ensures
        match r {
            Some(text) => json_member(*v, name@) is Some && json_kind(json_member(*v, name@)->0)
                == KindView::Text(text@),
            None => json_member(*v, name@) is None || !(json_kind(
                json_member(*v, name@)->0,
            ) is Text),
        },
{
}

/// `member_list` are the elements of the member of that name, if it is an array.
pub proof fn member_list_comes_to(
    v: &serde_json::Value,
    name: &str,
    r: Option<Vec<serde_json::Value>>,
)
    requires
        call_ensures(member_list, (v, name), r),
    ensures
        match r {
            Some(list) => json_member(*v, name@) is Some && json_kind(json_member(*v, name@)->0)
                == KindView::Array(list@),
            None => json_member(*v, name@) is None || !(json_kind(
                json_member(*v, name@)->0,
            ) is Array),
        },
{
}

} // verus!

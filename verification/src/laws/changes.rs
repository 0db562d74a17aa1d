//! What the change log is told and asked.

use crate::changelog::{
    all_pending_query, changes_read, insert_change_command, mark_synced_command, pending_query, placeholders,
    recorded_now, sync_error_command, widened, ChangeRecord,
};
use crate::driver::{Step, Stored};
use crate::laws::queries::query_is_asked;
use crate::laws::{asked, done, executed, inserted};
use crate::request::{carried_out, execution, recorded, settled};
use crate::rows::{
    first_of, first_of_is_first, record_refusals, refusal, row_with_a_record_is_read, utf8_refusal,
    RecordReader, RowReader, Wanted,
};
use crate::sql::{query_result, CommandView, QueryOutcome, QueryView, SqlValueView};
use crate::store::{selection, selection_read, Selected};
use crate::text::{decimal, signed_decimal};
use vstd::prelude::*;
use vstd::utf8::{encode_utf8, valid_utf8};

verus! {

/// A change is recorded with the time that the clock showed during the call: the
/// clock was read once, and that reading is the fifth of the values that are
/// inserted, behind the table, the document, the operation and its data.
pub proof fn change_is_recorded_at_the_time_of_the_call(
    table: Seq<char>,
    doc_id: Seq<char>,
    operation: Seq<char>,
    data: Option<Seq<char>>,
    readings: Seq<Seq<char>>,
    readings_after: Seq<Seq<char>>,
    before: Seq<Step>,
    after: Seq<Step>,
    r: Result<i64, Seq<char>>,
)
    requires
        recorded_now(
            table,
            doc_id,
            operation,
            data,
            readings,
            readings_after,
            before,
            after,
            r,
        ),
    ensures
        readings_after.len() == readings.len() + 1,
        readings_after.take(readings.len() as int) == readings,
        inserted(
            before,
            after,
            "INSERT INTO _change_log (table_name, doc_id, operation, data, timestamp)
         VALUES (?1, ?2, ?3, ?4, ?5)"@,
            seq![
                SqlValueView::Text(table),
                SqlValueView::Text(doc_id),
                SqlValueView::Text(operation),
                match data {
                    Some(text) => SqlValueView::Text(text),
                    None => SqlValueView::Null,
                },
                SqlValueView::Text(readings_after[readings.len() as int]),
            ],
            "Failed to record change: "@,
            r,
        ),
{
    let now = readings_after.last();
    assert(readings_after.take(readings.len() as int) =~= readings);
    change_is_recorded_with_its_values(table, doc_id, operation, data, now, before, after, r);
}

/// A change that is recorded with a given time is inserted with that time, behind
/// the table, the document, the operation and its data.
pub proof fn change_is_recorded_with_its_values(
    table: Seq<char>,
    doc_id: Seq<char>,
    operation: Seq<char>,
    data: Option<Seq<char>>,
    timestamp: Seq<char>,
    before: Seq<Step>,
    after: Seq<Step>,
    r: Result<i64, Seq<char>>,
)
    requires
        recorded(
            before,
            after,
            insert_change_command(table, doc_id, operation, data, timestamp),
            r,
        ),
    ensures
        inserted(
            before,
            after,
            "INSERT INTO _change_log (table_name, doc_id, operation, data, timestamp)
         VALUES (?1, ?2, ?3, ?4, ?5)"@,
            seq![
                SqlValueView::Text(table),
                SqlValueView::Text(doc_id),
                SqlValueView::Text(operation),
                match data {
                    Some(text) => SqlValueView::Text(text),
                    None => SqlValueView::Null,
                },
                SqlValueView::Text(timestamp),
            ],
            "Failed to record change: "@,
            r,
        ),
{
    let command = insert_change_command(table, doc_id, operation, data, timestamp);
    recorded_is_inserted(before, after, command, r);
    assert(command.params =~= seq![
        SqlValueView::Text(table),
        SqlValueView::Text(doc_id),
        SqlValueView::Text(operation),
        match data {
            Some(text) => SqlValueView::Text(text),
            None => SqlValueView::Null,
        },
        SqlValueView::Text(timestamp),
    ]);
}

/// An inserting command was executed once, and the id asked for then.
pub proof fn recorded_is_inserted(
    before: Seq<Step>,
    after: Seq<Step>,
    command: CommandView,
    r: Result<i64, Seq<char>>,
)
    requires
        recorded(before, after, command, r),
    ensures
        inserted(before, after, command.sql, command.params, command.failure, r),
{
    if let Ok(id) = r {
        let n = choose|n: usize|
            after == before.push(#[trigger] execution(command, Ok(n))).push(
                Step::InsertedId { id },
            );
        assert(after.take(before.len() as int) =~= before);
    }
}

/// Marking records as synced sets `synced` to one where the id is among those
/// that are bound, one placeholder for each of them, and asks nothing else of a
/// row.
pub proof fn marking_reaches_every_id(
    ids: Seq<i64>,
    before: Seq<Step>,
    after: Seq<Step>,
    r: Result<usize, Seq<char>>,
)
    requires
        carried_out(before, after, mark_synced_command(ids), r),
    ensures
        executed(
            before,
            after,
            "UPDATE _change_log SET synced = 1 WHERE id IN ("@ + placeholders(ids.len()) + ")"@,
            Seq::new(ids.len(), |i: int| SqlValueView::Integer(ids[i])),
            "Failed to mark changes as synced: "@,
            r,
        ),
{
    assert(mark_synced_command(ids).params =~= Seq::new(
        ids.len(),
        |i: int| SqlValueView::Integer(ids[i]),
    ));
}

/// An error is noted at the record of that id, and nowhere else.
pub proof fn error_is_noted_at_its_record(
    id: i64,
    error: Seq<char>,
    before: Seq<Step>,
    after: Seq<Step>,
    r: Result<(), Seq<char>>,
)
    requires
        settled(before, after, sync_error_command(id, error), r),
    ensures
        done(
            before,
            after,
            "UPDATE _change_log SET sync_error = ?1 WHERE id = ?2"@,
            seq![SqlValueView::Text(error), SqlValueView::Integer(id)],
            "Failed to mark sync error: "@,
            r,
        ),
{
    settled_is_done(before, after, sync_error_command(id, error), r);
}

/// A command of which only the success matters was executed once.
pub proof fn settled_is_done(
    before: Seq<Step>,
    after: Seq<Step>,
    command: CommandView,
    r: Result<(), Seq<char>>,
)
    requires
        settled(before, after, command, r),
    ensures
        done(before, after, command.sql, command.params, command.failure, r),
{
    if r is Ok {
        let n = choose|n: usize| after == before.push(#[trigger] execution(command, Ok(n)));
        assert(after.take(before.len() as int) =~= before);
    }
}

/// The first eight columns of a row hold this record: its id, table, document,
/// operation, data, timestamp, mark and error.
pub open spec fn is_row_of(row: Seq<Stored>, record: ChangeRecord) -> bool {
    &&& row.len() >= 8
    &&& row[0] == Stored::Integer(record.id)
    &&& row[1] == Stored::Text(encode_utf8(record.table_name@))
    &&& row[2] == Stored::Text(encode_utf8(record.doc_id@))
    &&& row[3] == Stored::Text(encode_utf8(record.operation@))
    &&& row[4] == match record.data {
        Some(text) => Stored::Text(encode_utf8(text@)),
        None => Stored::Null,
    }
    &&& row[5] == Stored::Text(encode_utf8(record.timestamp@))
    &&& row[6] == Stored::Integer(record.synced as i64)
    &&& row[7] == match record.sync_error {
        Some(text) => Stored::Text(encode_utf8(text@)),
        None => Stored::Null,
    }
}

proof fn records_are_asked(
    query: QueryView,
    before: Seq<Step>,
    after: Seq<Step>,
    r: Result<Vec<ChangeRecord>, String>,
)
    requires
        changes_read(before, after, query, r),
        r is Ok ==> r->Ok_0.len() < usize::MAX,
    ensures
        asked(
            before,
            after,
            query,
            match r {
                Ok(list) => Ok(list@),
                Err(e) => Err(e@),
            },
            |row: Seq<Stored>, record: ChangeRecord| is_row_of(row, record),
            |row: Seq<Stored>| first_of(record_refusals(row)),
        ),
{
    let (answer, outcome) = choose|answer: Selected, outcome: QueryOutcome<ChangeRecord>|
        #![trigger selection(query.sql, query.params, answer), query_result(query, outcome, r)]
        {
            &&& after == before + selection(query.sql, query.params, answer)
            &&& selection_read(answer, outcome, RecordReader)
            &&& query_result(query, outcome, r)
        };
    let reads = |row: Seq<Stored>, record: ChangeRecord| is_row_of(row, record);
    assert forall|row: Seq<Stored>, record: ChangeRecord| #[trigger]
        RecordReader.holds(row, record) <==> reads(row, record) by {}
    assert forall|row: Seq<Stored>, record: ChangeRecord| #[trigger]
        RecordReader.holds(row, record) implies RecordReader.refuses(row) is None by {
        row_with_a_record_is_read(row, record);
    }
    let refuses = |row: Seq<Stored>| first_of(record_refusals(row));
    query_is_asked(query, before, after, answer, outcome, r, RecordReader, reads, refuses);
}

/// The rows of the table that are not synced were asked for, the oldest first, and
/// each became one record.
pub open spec fn pending_are_asked_for(
    table: Seq<char>,
    before: Seq<Step>,
    after: Seq<Step>,
    r: Result<Vec<ChangeRecord>, String>,
) -> bool {
    asked(
        before,
        after,
        QueryView {
            sql: "SELECT id, table_name, doc_id, operation, data, timestamp, synced, sync_error
             FROM _change_log
             WHERE synced = 0 AND table_name = ?1
             ORDER BY timestamp ASC"@,
            params: seq![SqlValueView::Text(table)],
            prepare_failure: "Failed to prepare get_pending_changes: "@,
            query_failure: "Failed to query pending changes: "@,
            row_failure: "Failed to read change record row: "@,
        },
        match r {
            Ok(list) => Ok(list@),
            Err(e) => Err(e@),
        },
        |row: Seq<Stored>, record: ChangeRecord| is_row_of(row, record),
        |row: Seq<Stored>| first_of(record_refusals(row)),
    )
}

/// The pending changes of a table are the rows of that table that are not synced,
/// the oldest first; each row becomes one record.
pub proof fn pending_changes_are_asked_for(
    table: Seq<char>,
    before: Seq<Step>,
    after: Seq<Step>,
    r: Result<Vec<ChangeRecord>, String>,
)
    requires
        changes_read(before, after, pending_query(table), r),
        r is Ok ==> r->Ok_0.len() < usize::MAX,
    ensures
        pending_are_asked_for(table, before, after, r),
{
    records_are_asked(pending_query(table), before, after, r);
}

/// All pending changes are the rows that are not synced, the oldest first; each
/// row becomes one record.
pub proof fn all_pending_changes_are_asked_for(
    before: Seq<Step>,
    after: Seq<Step>,
    r: Result<Vec<ChangeRecord>, String>,
)
    requires
        changes_read(before, after, all_pending_query(), r),
        r is Ok ==> r->Ok_0.len() < usize::MAX,
    ensures
        asked(
            before,
            after,
            (QueryView {
                sql: "SELECT id, table_name, doc_id, operation, data, timestamp, synced, sync_error
             FROM _change_log
             WHERE synced = 0
             ORDER BY timestamp ASC"@,
                params: Seq::empty(),
                prepare_failure: "Failed to prepare get_all_pending_changes: "@,
                query_failure: "Failed to query all pending changes: "@,
                row_failure: "Failed to read change record row: "@,
            }),
            match r {
                Ok(list) => Ok(list@),
                Err(e) => Err(e@),
            },
            |row: Seq<Stored>, record: ChangeRecord| is_row_of(row, record),
            |row: Seq<Stored>| first_of(record_refusals(row)),
        ),
{
    records_are_asked(all_pending_query(), before, after, r);
}

/// A column that cannot be read as asked says why: there is none of that number,
/// it holds a value of another kind, an integer that does not fit, or a text that
/// is not UTF-8.
pub proof fn unreadable_column_says_why(cells: Seq<Stored>, i: nat, name: Seq<char>, wanted: Wanted)
    ensures
        ({
            let r = refusal(cells, i as int, name, wanted);
            if i >= cells.len() {
                r == Some("Invalid column index: "@ + decimal(i))
            } else {
                let wrong = |kind: Seq<char>|
                    "Invalid column type "@ + kind + " at index: "@ + decimal(i) + (", name: "@
                        + name);
                match cells[i as int] {
                    Stored::Integer(n) => match wanted {
                        Wanted::Integer => r is None,
                        Wanted::SmallInteger => if -2147483648 <= n <= 2147483647 {
                            r is None
                        } else {
                            r == Some(
                                "Integer "@ + signed_decimal(n as int) + " out of range at index "@
                                    + decimal(i),
                            )
                        },
                        _ => r == Some(wrong("Integer"@)),
                    },
                    Stored::Text(bytes) => match wanted {
                        Wanted::Integer | Wanted::SmallInteger => r == Some(wrong("Text"@)),
                        _ => if valid_utf8(bytes) {
                            r is None
                        } else {
                            r == Some(
                                "Conversion error from type Text at index: "@ + decimal(i) + ", "@
                                    + utf8_refusal(bytes),
                            )
                        },
                    },
                    Stored::Null => match wanted {
                        Wanted::OptionalText => r is None,
                        _ => r == Some(wrong("Null"@)),
                    },
                    Stored::Real(_) => r == Some(wrong("Real"@)),
                    Stored::Blob(_) => r == Some(wrong("Blob"@)),
                }
            }
        }),
{
}

/// A record is refused by the first of its columns that cannot be read.
pub proof fn record_is_refused_by_its_first_column(cells: Seq<Stored>, n: int)
    requires
        0 <= n < 8,
        forall|i: int| 0 <= i < n ==> #[trigger] record_refusals(cells)[i] is None,
        record_refusals(cells)[n] is Some,
    ensures
        first_of(record_refusals(cells)) == record_refusals(cells)[n],
        record_refusals(cells) == seq![
            refusal(cells, 0, "id"@, Wanted::Integer),
            refusal(cells, 1, "table_name"@, Wanted::Text),
            refusal(cells, 2, "doc_id"@, Wanted::Text),
            refusal(cells, 3, "operation"@, Wanted::Text),
            refusal(cells, 4, "data"@, Wanted::OptionalText),
            refusal(cells, 5, "timestamp"@, Wanted::Text),
            refusal(cells, 6, "synced"@, Wanted::SmallInteger),
            refusal(cells, 7, "sync_error"@, Wanted::OptionalText),
        ],
{
    first_of_is_first(record_refusals(cells), n);
}

/// The number of rows that were marked is handed on as it is.
pub proof fn number_of_marked_rows_is_handed_on(r: Result<u64, String>)
    ensures
        match r {
            Ok(n) => widened(r) == Ok::<usize, Seq<char>>(n as usize),
            Err(e) => widened(r) == Err::<usize, Seq<char>>(e@),
        },
{
}

} // verus!

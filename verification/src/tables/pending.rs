//! The changes that wait to be pushed.

use crate::chain::{each_ran, every_ran, first_ran};
use crate::changelog::{
    all_pending_query, changes_read, insert_change_command, mark_synced_command, pending_query, placeholders,
    sync_error_command, ChangeRecord, ALL_PENDING_SQL, PENDING_SQL,
};
use crate::driver::{holds_text, Step, Stored};
use crate::request::{carried_out, execution, recorded};
use crate::sql::{chars_of, query_result, QueryOutcome, QueryView, SqlValueView};
use crate::rows::{RecordReader, RowReader};
use crate::store::{selection, selection_read, Selected};
use crate::sync::push::{
    accepted_ids, accepted_marked, conflicts_noted, id_lists, marking_is_no_noting,
    noted_conflicts, noting, push_finished, push_summary, OpenPush, PushResponse, PushSummary,
};
use crate::tables::{hands_out, stored_value, text_in, text_is_what_was_stored};
use crate::text::text_before;
use vstd::prelude::*;
use vstd::utf8::encode_utf8;

verus! {

/// The row of the change log that a record stands for.
pub open spec fn record_row(record: ChangeRecord) -> Seq<Stored> {
    seq![
        Stored::Integer(record.id),
        Stored::Text(encode_utf8(record.table_name@)),
        Stored::Text(encode_utf8(record.doc_id@)),
        Stored::Text(encode_utf8(record.operation@)),
        optional_stored(chars_of(record.data)),
        Stored::Text(encode_utf8(record.timestamp@)),
        Stored::Integer(record.synced as i64),
        optional_stored(chars_of(record.sync_error)),
    ]
}

/// How an optional text is stored.
pub open spec fn optional_stored(text: Option<Seq<char>>) -> Stored {
    match text {
        Some(t) => Stored::Text(encode_utf8(t)),
        None => Stored::Null,
    }
}

/// The rows that records stand for.
pub open spec fn record_rows(records: Seq<ChangeRecord>) -> Seq<Seq<Stored>> {
    records.map_values(|record: ChangeRecord| record_row(record))
}

/// A row of the change log that has this id and waits to be pushed.
pub open spec fn is_pending_row(id: i64, row: Seq<Stored>) -> bool {
    row.len() == 8 && row[0] == Stored::Integer(id) && row[6] == Stored::Integer(0)
}

/// The rows that wait to be pushed, each under its id.
pub open spec fn are_pending(pending: Map<i64, Seq<Stored>>) -> bool {
    forall|id: i64|
        #![trigger pending.contains_key(id)]
        #![trigger pending[id]]
        pending.contains_key(id) ==> is_pending_row(id, pending[id])
}

/// The row is one of those that wait to be pushed.
pub open spec fn is_held(pending: Map<i64, Seq<Stored>>, row: Seq<Stored>) -> bool {
    exists|id: i64| #[trigger] pending.contains_key(id) && pending[id] == row
}

/// A row of a change of this table.
pub open spec fn is_of_table(row: Seq<Stored>, table: Seq<char>) -> bool {
    holds_text(row, 1, table)
}

/// The integer that a value is.
pub open spec fn integer_in(value: SqlValueView) -> i64 {
    match value {
        SqlValueView::Integer(i) => i,
        _ => arbitrary(),
    }
}

/// The integers that values are.
pub open spec fn integers_in(params: Seq<SqlValueView>) -> Seq<i64> {
    params.map_values(|value: SqlValueView| integer_in(value))
}

/// The rows that wait to be pushed after one step: an error that is noted at a
/// row leaves it pending, a row that is marked as synced no longer is.
pub open spec fn pending_after_step(
    pending: Map<i64, Seq<Stored>>,
    step: Step,
) -> Map<i64, Seq<Stored>> {
    match step {
        Step::Executed { sql, params, outcome: Ok(_) } => if sql
            == "UPDATE _change_log SET sync_error = ?1 WHERE id = ?2"@ {
            let id = integer_in(params[1]);
            if pending.contains_key(id) {
                pending.insert(id, pending[id].update(7, stored_value(params[0])))
            } else {
                pending
            }
        } else if sql == "UPDATE _change_log SET synced = 1 WHERE id IN ("@ + placeholders(
            params.len(),
        ) + ")"@ {
            pending.remove_keys(integers_in(params).to_set())
        } else {
            arbitrary()
        },
        _ => arbitrary(),
    }
}

/// The rows that wait to be pushed after these steps.
pub open spec fn pending_after(pending: Map<i64, Seq<Stored>>, steps: Seq<Step>) -> Map<
    i64,
    Seq<Stored>,
>
    decreases steps.len(),
{
    if steps.len() == 0 {
        pending
    } else {
        pending_after_step(pending_after(pending, steps.drop_last()), steps.last())
    }
}

/// The rows that wait to be pushed after a change was recorded: a row was
/// inserted, and its id asked for.
pub open spec fn pending_after_recording(pending: Map<i64, Seq<Stored>>, steps: Seq<Step>) -> Map<
    i64,
    Seq<Stored>,
> {
    match (steps[0], steps[1]) {
        (Step::Executed { sql, params, outcome: Ok(_) }, Step::InsertedId { id }) => if sql
            == "INSERT INTO _change_log (table_name, doc_id, operation, data, timestamp)
         VALUES (?1, ?2, ?3, ?4, ?5)"@ {
            pending.insert(
                id,
                seq![
                    Stored::Integer(id),
                    stored_value(params[0]),
                    stored_value(params[1]),
                    stored_value(params[2]),
                    stored_value(params[3]),
                    stored_value(params[4]),
                    Stored::Integer(0),
                    Stored::Null,
                ],
            )
        } else {
            arbitrary()
        },
        _ => arbitrary(),
    }
}

/// The query selects the row from those that wait to be pushed.
pub open spec fn query_selects(query: QueryView, row: Seq<Stored>) -> bool {
    if query.sql == "SELECT id, table_name, doc_id, operation, data, timestamp, synced, sync_error
             FROM _change_log
             WHERE synced = 0 AND table_name = ?1
             ORDER BY timestamp ASC"@ {
        is_of_table(row, text_in(query.params[0]))
    } else if query.sql
        == "SELECT id, table_name, doc_id, operation, data, timestamp, synced, sync_error
             FROM _change_log
             WHERE synced = 0
             ORDER BY timestamp ASC"@ {
        true
    } else {
        arbitrary()
    }
}

/// The rows are those that the query selects, each once.
pub open spec fn lists_selected(
    rows: Seq<Seq<Stored>>,
    pending: Map<i64, Seq<Stored>>,
    query: QueryView,
) -> bool {
    &&& rows.no_duplicates()
    &&& forall|row: Seq<Stored>| #[trigger]
        rows.contains(row) <==> is_held(pending, row) && query_selects(query, row)
}

/// The rows come oldest first.
pub open spec fn oldest_first(rows: Seq<Seq<Stored>>) -> bool {
    forall|i: int, j: int, early: Seq<char>, late: Seq<char>|
        0 <= i < j < rows.len() && #[trigger] holds_text(rows[i], 5, early)
            && #[trigger] holds_text(rows[j], 5, late) ==> !text_before(late, early)
}

/// The steps ask for changes, and are answered from the change log: each row
/// that the query selects comes once, the oldest first.
pub open spec fn changes_served(
    pending: Map<i64, Seq<Stored>>,
    query: QueryView,
    steps: Seq<Step>,
) -> bool {
    forall|answer: Selected|
        steps == #[trigger] selection(query.sql, query.params, answer) ==> exists|
            held: Seq<Seq<Stored>>,
        |
            #[trigger] hands_out(answer, held) && lists_selected(held, pending, query)
                && oldest_first(held)
}

/// Changes that are asked for are those that the query selects from the change
/// log, each once, the oldest first.
pub proof fn changes_are_those_selected(
    pending: Map<i64, Seq<Stored>>,
    query: QueryView,
    before: Seq<Step>,
    after: Seq<Step>,
    records: Vec<ChangeRecord>,
)
    requires
        are_pending(pending),
        changes_read(before, after, query, Ok(records)),
        changes_served(pending, query, after.skip(before.len() as int)),
        records.len() < usize::MAX,
    ensures
        lists_selected(record_rows(records@), pending, query),
        forall|i: int, j: int|
            0 <= i < j < records.len() ==> !text_before(
                (#[trigger] records@[j]).timestamp@,
                (#[trigger] records@[i]).timestamp@,
            ),
{
    let r = Ok::<Vec<ChangeRecord>, String>(records);
    let (answer, outcome) = choose|answer: Selected, outcome: QueryOutcome<ChangeRecord>|
        #![trigger selection(query.sql, query.params, answer), query_result(query, outcome, r)]
        {
            &&& after == before + selection(query.sql, query.params, answer)
            &&& selection_read(answer, outcome, RecordReader)
            &&& query_result(query, outcome, r)
        };
    assert(after.skip(before.len() as int) =~= selection(query.sql, query.params, answer));
    let held = choose|held: Seq<Seq<Stored>>| #[trigger]
        hands_out(answer, held) && lists_selected(held, pending, query) && oldest_first(held);
    let read = outcome->Rows_0@;
    let rows = answer->rows;
    assert(read.len() == records.len());
    assert forall|i: int| 0 <= i < records.len() implies #[trigger] read[i] is Ok by {
        assert(read[i] == Ok::<ChangeRecord, String>(records@[i]));
    }
    assert(rows == held);
    assert forall|i: int| 0 <= i < rows.len() implies #[trigger] rows[i] == record_row(
        records@[i],
    ) by {
        assert(read[i] == Ok::<ChangeRecord, String>(records@[i]));
        assert(read[i] is Ok);
        assert(RecordReader.holds(rows[i], records@[i]));
        assert(held.contains(rows[i]));
        let id = choose|id: i64| #[trigger] pending.contains_key(id) && pending[id] == rows[i];
        assert(is_pending_row(id, pending[id]));
        assert(rows[i] =~= record_row(records@[i]));
    }
    assert(record_rows(records@) =~= held);
    assert forall|i: int, j: int| 0 <= i < j < records.len() implies !text_before(
        (#[trigger] records@[j]).timestamp@,
        (#[trigger] records@[i]).timestamp@,
    ) by {
        assert(rows[i] == record_row(records@[i]));
        assert(rows[j] == record_row(records@[j]));
        assert(holds_text(rows[i], 5, records@[i].timestamp@));
        assert(holds_text(rows[j], 5, records@[j].timestamp@));
    }
}

proof fn pending_queries_differ()
    ensures
        PENDING_SQL@ != ALL_PENDING_SQL@,
{
    reveal_strlit(
        "SELECT id, table_name, doc_id, operation, data, timestamp, synced, sync_error
             FROM _change_log
             WHERE synced = 0 AND table_name = ?1
             ORDER BY timestamp ASC",
    );
    reveal_strlit(
        "SELECT id, table_name, doc_id, operation, data, timestamp, synced, sync_error
             FROM _change_log
             WHERE synced = 0
             ORDER BY timestamp ASC",
    );
    assert(PENDING_SQL@.len() != ALL_PENDING_SQL@.len());
}

/// The pending changes of all tables are those of each table taken together:
/// what is asked for without a table holds every row that waits to be pushed,
/// once, and of each table just what is asked for with it.
pub proof fn all_pending_changes_are_those_of_each_table(
    pending: Map<i64, Seq<Stored>>,
    table: Seq<char>,
    before: Seq<Step>,
    middle: Seq<Step>,
    after: Seq<Step>,
    all: Vec<ChangeRecord>,
    of_table: Vec<ChangeRecord>,
)
    requires
        are_pending(pending),
        changes_read(before, middle, all_pending_query(), Ok(all)),
        changes_served(pending, all_pending_query(), middle.skip(before.len() as int)),
        changes_read(middle, after, pending_query(table), Ok(of_table)),
        changes_served(pending, pending_query(table), after.skip(middle.len() as int)),
        all.len() < usize::MAX,
        of_table.len() < usize::MAX,
    ensures
        record_rows(all@).no_duplicates(),
        record_rows(of_table@).no_duplicates(),
        forall|row: Seq<Stored>| #[trigger]
            record_rows(all@).contains(row) <==> is_held(pending, row),
        forall|row: Seq<Stored>| #[trigger]
            record_rows(of_table@).contains(row) <==> record_rows(all@).contains(row)
                && is_of_table(row, table),
{
    pending_queries_differ();
    changes_are_those_selected(pending, all_pending_query(), before, middle, all);
    changes_are_those_selected(pending, pending_query(table), middle, after, of_table);
}

/// A change that was recorded is pending: it is among the changes of its table
/// that are asked for next, beside those that were pending before.
pub proof fn recorded_change_is_pending(
    pending: Map<i64, Seq<Stored>>,
    table: Seq<char>,
    doc_id: Seq<char>,
    operation: Seq<char>,
    data: Option<Seq<char>>,
    timestamp: Seq<char>,
    id: i64,
    before: Seq<Step>,
    middle: Seq<Step>,
    after: Seq<Step>,
    records: Vec<ChangeRecord>,
)
    requires
        are_pending(pending),
        !pending.contains_key(id),
        recorded(
            before,
            middle,
            insert_change_command(table, doc_id, operation, data, timestamp),
            Ok(id),
        ),
        changes_read(middle, after, pending_query(table), Ok(records)),
        changes_served(
            pending_after_recording(pending, middle.skip(before.len() as int)),
            pending_query(table),
            after.skip(middle.len() as int),
        ),
        records.len() < usize::MAX,
    ensures
        exists|i: int|
            0 <= i < records.len() && {
                let record = #[trigger] records@[i];
                &&& record.id == id
                &&& record.table_name@ == table
                &&& record.doc_id@ == doc_id
                &&& record.operation@ == operation
                &&& chars_of(record.data) == data
                &&& record.timestamp@ == timestamp
                &&& record.synced == 0
                &&& record.sync_error is None
            },
        forall|row: Seq<Stored>|
            is_held(pending, row) && is_of_table(row, table) ==> #[trigger] record_rows(
                records@,
            ).contains(row),
{
    let command = insert_change_command(table, doc_id, operation, data, timestamp);
    let n = choose|n: usize|
        middle == before.push(#[trigger] execution(command, Ok(n))).push(Step::InsertedId { id });
    let steps = middle.skip(before.len() as int);
    assert(steps =~= seq![execution(command, Ok(n)), Step::InsertedId { id }]);
    let now = pending_after_recording(pending, steps);
    let row = now[id];
    assert(row[4] == optional_stored(data));
    assert(is_pending_row(id, row));
    assert(are_pending(now));
    changes_are_those_selected(now, pending_query(table), middle, after, records);
    assert(now.contains_key(id) && now[id] == row);
    assert(is_held(now, row));
    assert(query_selects(pending_query(table), row));
    assert(record_rows(records@).contains(row));
    let i = choose|i: int|
        0 <= i < record_rows(records@).len() && #[trigger] record_rows(records@)[i] == row;
    let record = records@[i];
    assert(record_row(record) == row);
    assert(row[0] == record_row(record)[0] && row[1] == record_row(record)[1]);
    assert(row[2] == record_row(record)[2] && row[3] == record_row(record)[3]);
    assert(row[4] == record_row(record)[4] && row[5] == record_row(record)[5]);
    assert(row[6] == record_row(record)[6] && row[7] == record_row(record)[7]);
    text_is_what_was_stored(record.table_name@, table);
    text_is_what_was_stored(record.doc_id@, doc_id);
    text_is_what_was_stored(record.operation@, operation);
    text_is_what_was_stored(record.timestamp@, timestamp);
    if record.data is Some && data is Some {
        text_is_what_was_stored(record.data->0@, data->0);
    }
    assert forall|other: Seq<Stored>|
        is_held(pending, other) && is_of_table(other, table) implies #[trigger] record_rows(
        records@,
    ).contains(other) by {
        let k = choose|k: i64| #[trigger] pending.contains_key(k) && pending[k] == other;
        assert(now.contains_key(k) && now[k] == other);
    }
}

proof fn marking_takes_out(pending: Map<i64, Seq<Stored>>, ids: Seq<i64>, n: usize)
    requires
        are_pending(pending),
    ensures
        pending_after_step(pending, execution(mark_synced_command(ids), Ok(n)))
            == pending.remove_keys(ids.to_set()),
        are_pending(pending.remove_keys(ids.to_set())),
{
    let command = mark_synced_command(ids);
    assert(integers_in(command.params) =~= ids);
    marking_is_no_noting(ids);
}

/// Changes that were marked as synced are no longer pending, and all others
/// stay.
pub proof fn synced_changes_are_no_longer_pending(
    pending: Map<i64, Seq<Stored>>,
    ids: Seq<i64>,
    marked: usize,
    before: Seq<Step>,
    middle: Seq<Step>,
    after: Seq<Step>,
    records: Vec<ChangeRecord>,
)
    requires
        are_pending(pending),
        carried_out(before, middle, mark_synced_command(ids), Ok(marked)),
        changes_read(middle, after, all_pending_query(), Ok(records)),
        changes_served(
            pending_after(pending, middle.skip(before.len() as int)),
            all_pending_query(),
            after.skip(middle.len() as int),
        ),
        records.len() < usize::MAX,
    ensures
        forall|id: i64, row: Seq<Stored>|
            is_pending_row(id, row) ==> (#[trigger] record_rows(records@).contains(row)
                <==> #[trigger] pending.contains_key(id) && pending[id] == row && !ids.contains(
                id,
            )),
{
    pending_queries_differ();
    let command = mark_synced_command(ids);
    let step = execution(command, Ok(marked));
    assert(middle.skip(before.len() as int) =~= seq![step]);
    assert(seq![step].drop_last() =~= Seq::empty());
    assert(pending_after(pending, Seq::empty()) == pending);
    assert(pending_after(pending, seq![step]) == pending_after_step(pending, step));
    marking_takes_out(pending, ids, marked);
    let now = pending.remove_keys(ids.to_set());
    changes_are_those_selected(now, all_pending_query(), middle, after, records);
    assert forall|id: i64, row: Seq<Stored>| is_pending_row(id, row) implies (
    #[trigger] record_rows(records@).contains(row) <==> #[trigger] pending.contains_key(id)
        && pending[id] == row && !ids.contains(id)) by {
        if is_held(now, row) {
            let k = choose|k: i64| #[trigger] now.contains_key(k) && now[k] == row;
            assert(is_pending_row(k, now[k]));
            assert(k == id);
        }
        if pending.contains_key(id) && pending[id] == row && !ids.contains(id) {
            assert(now.contains_key(id) && now[id] == row);
        }
    }
}

proof fn pending_after_more(pending: Map<i64, Seq<Stored>>, steps: Seq<Step>, more: Seq<Step>)
    ensures
        pending_after(pending, steps + more) == pending_after(pending_after(pending, steps), more),
    decreases more.len(),
{
    if more.len() == 0 {
        assert(steps + more =~= steps);
    } else {
        assert((steps + more).drop_last() =~= steps + more.drop_last());
        pending_after_more(pending, steps, more.drop_last());
    }
}

proof fn noting_takes_nothing_out(
    pending: Map<i64, Seq<Stored>>,
    items: Seq<(i64, Seq<char>)>,
    noted: Seq<()>,
    logs: Seq<Seq<Step>>,
    n: nat,
)
    requires
        first_ran(items, noted, logs, noting()),
        n <= noted.len(),
    ensures
        logs[0].is_prefix_of(logs[n as int]),
        pending_after(pending, logs[n as int].skip(logs[0].len() as int)).dom() == pending.dom(),
    decreases n,
{
    let k = logs[0].len() as int;
    if n == 0 {
        assert(logs[0].skip(k) =~= Seq::empty());
    } else {
        let m = (n - 1) as nat;
        noting_takes_nothing_out(pending, items, noted, logs, m);
        let item = items[m as int];
        let command = sync_error_command(item.0, item.1);
        assert(noting()(item, logs[m as int], logs[n as int], Ok(noted[m as int])));
        let done = choose|done: usize|
            logs[n as int] == logs[m as int].push(#[trigger] execution(command, Ok(done)));
        let step = execution(command, Ok(done));
        let steps = logs[n as int].skip(k);
        assert(steps.drop_last() =~= logs[m as int].skip(k));
        assert(steps.last() == step);
        let earlier = pending_after(pending, steps.drop_last());
        assert(pending_after_step(earlier, step).dom() =~= earlier.dom());
    }
}

/// A push that was answered leaves no accepted record pending, however many
/// records a document had, and every other record stays.
pub proof fn accepted_changes_are_no_longer_pending(
    pending: Map<i64, Seq<Stored>>,
    open: OpenPush,
    response: PushResponse,
    before: Seq<Step>,
    after: Seq<Step>,
    summary: PushSummary,
    id: i64,
)
    requires
        are_pending(pending),
        push_finished(open, response, before, after, Ok(summary)),
    ensures
        pending_after(pending, after.skip(before.len() as int)).contains_key(id)
            <==> pending.contains_key(id) && !accepted_ids(
            response.accepted@,
            id_lists(open.ids@),
        ).contains(id),
{
    let ids = accepted_ids(response.accepted@, id_lists(open.ids@));
    let r = Ok::<PushSummary, String>(summary);
    let (middle, marked) = choose|middle: Seq<Step>, marked: Result<usize, Seq<char>>| #[trigger]
        accepted_marked(ids, before, middle, marked) && match marked {
            Ok(_) => conflicts_noted(open, response, middle, after, r),
            Err(e) => after == middle && r is Err && r->Err_0@ == e,
        };
    let items = noted_conflicts(response.conflicts@, id_lists(open.ids@));
    let noted = choose|noted: Result<Seq<()>, Seq<char>>| #[trigger]
        each_ran(items, middle, after, noted, noting()) && match noted {
            Ok(_) => r is Ok && push_summary(open, response, r->Ok_0),
            Err(e) => r is Err && r->Err_0@ == e,
        };
    let done = noted->Ok_0;
    assert(every_ran(items, done, middle, after, noting()));
    let logs = choose|logs: Seq<Seq<Step>>| #[trigger]
        first_ran(items, done, logs, noting()) && done.len() == items.len() && logs[0] == middle
            && logs.last() == after;
    let first = middle.skip(before.len() as int);
    let second = after.skip(middle.len() as int);
    if ids.len() == 0 {
        assert(first =~= Seq::empty());
        assert(pending_after(pending, first) == pending);
    } else {
        let n = marked->Ok_0;
        let step = execution(mark_synced_command(ids), Ok(n));
        assert(first =~= seq![step]);
        assert(seq![step].drop_last() =~= Seq::empty());
        assert(pending_after(pending, Seq::empty()) == pending);
        marking_takes_out(pending, ids, n);
    }
    let now = pending_after(pending, first);
    assert(now.contains_key(id) <==> pending.contains_key(id) && !ids.contains(id));
    noting_takes_nothing_out(now, items, done, logs, done.len());
    assert(after.skip(before.len() as int) =~= first + second);
    pending_after_more(pending, first, second);
}

} // verus!

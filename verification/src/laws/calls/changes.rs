//! Calls on the change log.

use crate::changelog::{
    get_all_pending_changes, get_pending_changes, mark_sync_error, mark_synced, placeholders,
    record_change, record_change_at, ChangeRecord,
};
use crate::driver::Stored;
use crate::laws::changes::{
    all_pending_changes_are_asked_for, change_is_recorded_at_the_time_of_the_call,
    change_is_recorded_with_its_values, error_is_noted_at_its_record, is_row_of,
    marking_reaches_every_id, pending_changes_are_asked_for,
};
use crate::laws::{asked, done, executed, inserted};
use crate::rows::{first_of, record_refusals};
use crate::sql::{QueryView, SqlValueView};
use crate::store::Store;
use vstd::prelude::*;

verus! {

/// The message of a result as characters.
pub open spec fn words_of<T>(r: Result<T, String>) -> Result<T, Seq<char>> {
    match r {
        Ok(value) => Ok(value),
        Err(e) => Err(e@),
    }
}

/// A list as a sequence, and the message of a result as characters.
pub open spec fn listed<T>(r: Result<Vec<T>, String>) -> Result<Seq<T>, Seq<char>> {
    match r {
        Ok(list) => Ok(list@),
        Err(e) => Err(e@),
    }
}

/// The values of a change that is recorded.
pub open spec fn change_values(
    table: &str,
    doc_id: &str,
    operation: &str,
    data: Option<&str>,
    timestamp: Seq<char>,
) -> Seq<SqlValueView> {
    seq![
        SqlValueView::Text(table@),
        SqlValueView::Text(doc_id@),
        SqlValueView::Text(operation@),
        match data {
            Some(text) => SqlValueView::Text(text@),
            None => SqlValueView::Null,
        },
        SqlValueView::Text(timestamp),
    ]
}

/// `record_change` reads the clock once, and inserts the change with that time.
pub proof fn record_change_comes_to(
    store: &mut Store,
    table: &str,
    doc_id: &str,
    operation: &str,
    data: Option<&str>,
    r: Result<i64, String>,
)
    requires
        call_ensures(record_change, (store, table, doc_id, operation, data), r),
    ensures
        final(store).conn() == old(store).conn(),
        final(store).readings().len() == old(store).readings().len() + 1,
        final(store).readings().take(old(store).readings().len() as int) == old(store).readings(),
        inserted(
            old(store).log(),
            final(store).log(),
            "INSERT INTO _change_log (table_name, doc_id, operation, data, timestamp)
         VALUES (?1, ?2, ?3, ?4, ?5)"@,
            change_values(table, doc_id, operation, data, final(store).readings().last()),
            "Failed to record change: "@,
            words_of(r),
        ),
{
    let text = match data {
        Some(text) => Some(text@),
        None => None,
    };
    let now = final(store).readings().last();
    change_is_recorded_at_the_time_of_the_call(
        table@,
        doc_id@,
        operation@,
        text,
        old(store).readings(),
        final(store).readings(),
        old(store).log(),
        final(store).log(),
        words_of(r),
    );
    assert(now == final(store).readings()[old(store).readings().len() as int]);
    assert(change_values(table, doc_id, operation, data, now) =~= seq![
        SqlValueView::Text(table@),
        SqlValueView::Text(doc_id@),
        SqlValueView::Text(operation@),
        match text {
            Some(text) => SqlValueView::Text(text),
            None => SqlValueView::Null,
        },
        SqlValueView::Text(now),
    ]);
}

/// `record_change_at` inserts the change with the time that it is given.
pub proof fn record_change_at_comes_to(
    store: &mut Store,
    table: &str,
    doc_id: &str,
    operation: &str,
    data: Option<&str>,
    timestamp: &str,
    r: Result<i64, String>,
)
    requires
        call_ensures(record_change_at, (store, table, doc_id, operation, data, timestamp), r),
    ensures
        final(store).conn() == old(store).conn(),
        inserted(
            old(store).log(),
            final(store).log(),
            "INSERT INTO _change_log (table_name, doc_id, operation, data, timestamp)
         VALUES (?1, ?2, ?3, ?4, ?5)"@,
            change_values(table, doc_id, operation, data, timestamp@),
            "Failed to record change: "@,
            words_of(r),
        ),
{
    let text = match data {
        Some(text) => Some(text@),
        None => None,
    };
    change_is_recorded_with_its_values(
        table@,
        doc_id@,
        operation@,
        text,
        timestamp@,
        old(store).log(),
        final(store).log(),
        words_of(r),
    );
    assert(change_values(table, doc_id, operation, data, timestamp@) =~= seq![
        SqlValueView::Text(table@),
        SqlValueView::Text(doc_id@),
        SqlValueView::Text(operation@),
        match text {
            Some(text) => SqlValueView::Text(text),
            None => SqlValueView::Null,
        },
        SqlValueView::Text(timestamp@),
    ]);
}

/// `get_pending_changes` asks for the rows of the table that are not synced, the
/// oldest first, and makes a record of each.
pub proof fn get_pending_changes_comes_to(
    store: &mut Store,
    table: &str,
    r: Result<Vec<ChangeRecord>, String>,
)
    requires
        call_ensures(get_pending_changes, (store, table), r),
        r is Ok ==> r->Ok_0.len() < usize::MAX,
    ensures
        final(store).conn() == old(store).conn(),
        asked(
            old(store).log(),
            final(store).log(),
            (QueryView {
                sql: "SELECT id, table_name, doc_id, operation, data, timestamp, synced, sync_error
             FROM _change_log
             WHERE synced = 0 AND table_name = ?1
             ORDER BY timestamp ASC"@,
                params: seq![SqlValueView::Text(table@)],
                prepare_failure: "Failed to prepare get_pending_changes: "@,
                query_failure: "Failed to query pending changes: "@,
                row_failure: "Failed to read change record row: "@,
            }),
            listed(r),
            |row: Seq<Stored>, record: ChangeRecord| is_row_of(row, record),
            |row: Seq<Stored>| first_of(record_refusals(row)),
        ),
{
    pending_changes_are_asked_for(table@, old(store).log(), final(store).log(), r);
}

/// `get_all_pending_changes` asks for all rows that are not synced, the oldest
/// first, and makes a record of each.
pub proof fn get_all_pending_changes_comes_to(
    store: &mut Store,
    r: Result<Vec<ChangeRecord>, String>,
)
    requires
        call_ensures(get_all_pending_changes, (store,), r),
        r is Ok ==> r->Ok_0.len() < usize::MAX,
    ensures
        final(store).conn() == old(store).conn(),
        asked(
            old(store).log(),
            final(store).log(),
            (QueryView {
                sql: "SELECT id, table_name, doc_id, operation, data, timestamp, synced, sync_error
             FROM _change_log
             WHERE synced = 0
             ORDER BY timestamp ASC"@,
                params: Seq::empty(),
                prepare_failure: "Failed to prepare get_all_pending_changes: "@,
                query_failure: "Failed to query all pending changes: "@,
                row_failure: "Failed to read change record row: "@,
            }),
            listed(r),
            |row: Seq<Stored>, record: ChangeRecord| is_row_of(row, record),
            |row: Seq<Stored>| first_of(record_refusals(row)),
        ),
{
    all_pending_changes_are_asked_for(old(store).log(), final(store).log(), r);
}

/// `mark_synced` marks the rows of all these ids by one command, and returns how
/// many there were; without ids it asks nothing.
pub proof fn mark_synced_comes_to(store: &mut Store, ids: &[i64], r: Result<u64, String>)
    requires
        call_ensures(mark_synced, (store, ids), r),
    ensures
        final(store).conn() == old(store).conn(),
        if ids@.len() == 0 {
            r == Ok::<u64, String>(0) && final(store).log() == old(store).log()
        } else {
            executed(
                old(store).log(),
                final(store).log(),
                "UPDATE _change_log SET synced = 1 WHERE id IN ("@ + placeholders(ids@.len())
                    + ")"@,
                Seq::new(ids@.len(), |i: int| SqlValueView::Integer(ids@[i])),
                "Failed to mark changes as synced: "@,
                match r {
                    Ok(n) => Ok(n as usize),
                    Err(e) => Err(e@),
                },
            )
        },
{
    if ids@.len() > 0 {
        marking_reaches_every_id(
            ids@,
            old(store).log(),
            final(store).log(),
            match r {
                Ok(n) => Ok(n as usize),
                Err(e) => Err(e@),
            },
        );
    }
}

/// `mark_sync_error` writes the error to the row of that id.
pub proof fn mark_sync_error_comes_to(store: &mut Store, id: i64, error: &str, r: Result<(), String>)
    requires
        call_ensures(mark_sync_error, (store, id, error), r),
    ensures
        final(store).conn() == old(store).conn(),
        done(
            old(store).log(),
            final(store).log(),
            "UPDATE _change_log SET sync_error = ?1 WHERE id = ?2"@,
            seq![SqlValueView::Text(error@), SqlValueView::Integer(id)],
            "Failed to mark sync error: "@,
            words_of(r),
        ),
{
    error_is_noted_at_its_record(
        id,
        error@,
        old(store).log(),
        final(store).log(),
        words_of(r),
    );
}

} // verus!

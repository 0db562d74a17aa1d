//! The log of local changes that wait to be pushed.

use crate::clock::is_utc_timestamp;
use crate::sql::{
    chars_of, optional_text, optional_text_value, query_result, str_chars_of, text_value, values,
    Command, CommandView, Query, QueryOutcome, QueryView, SqlValue, SqlValueView,
};
use crate::driver::{holds_integer, holds_optional_text, holds_text, outcome_of, Step, Stored};
use crate::request::{carried_out, carry_out, insert_returning_id, recorded, settle, settled};
use crate::rows::RecordReader;
use crate::store::{selection, selection_read, Selected, Store};
use crate::text::{decimal, join2, join3, u64_text};
use vstd::prelude::*;

verus! {

/// One entry of the `_change_log` table.
#[derive(Debug)]
pub struct ChangeRecord {
    pub id: i64,
    pub table_name: String,
    pub doc_id: String,
    pub operation: String,
    pub data: Option<String>,
    pub timestamp: String,
    pub synced: i32,
    pub sync_error: Option<String>,
}

impl Clone for ChangeRecord {
    fn clone(&self) -> (r: Self)
        ensures
            r == *self,
    {
        ChangeRecord {
            id: self.id,
            table_name: self.table_name.clone(),
            doc_id: self.doc_id.clone(),
            operation: self.operation.clone(),
            data: match &self.data {
                Some(d) => Some(d.clone()),
                None => None,
            },
            timestamp: self.timestamp.clone(),
            synced: self.synced,
            sync_error: match &self.sync_error {
                Some(e) => Some(e.clone()),
                None => None,
            },
        }
    }
}

/// The columns hold this record.
pub open spec fn record_in(cells: Seq<Stored>, record: ChangeRecord) -> bool {
    &&& holds_integer(cells, 0, record.id as int)
    &&& holds_text(cells, 1, record.table_name@)
    &&& holds_text(cells, 2, record.doc_id@)
    &&& holds_text(cells, 3, record.operation@)
    &&& holds_optional_text(cells, 4, chars_of(record.data))
    &&& holds_text(cells, 5, record.timestamp@)
    &&& holds_integer(cells, 6, record.synced as int)
    &&& holds_optional_text(cells, 7, chars_of(record.sync_error))
}

// ---------------------------------------------------------------------------
// Commands and queries of the change log
// ---------------------------------------------------------------------------
/// Adds an entry. `synced` starts at its default, `0`.
pub const INSERT_CHANGE_SQL: &'static str = "INSERT INTO _change_log (table_name, doc_id, operation, data, timestamp)
         VALUES (?1, ?2, ?3, ?4, ?5)";

/// Selects the pending entries of one table, oldest first.
pub const PENDING_SQL: &'static str = "SELECT id, table_name, doc_id, operation, data, timestamp, synced, sync_error
             FROM _change_log
             WHERE synced = 0 AND table_name = ?1
             ORDER BY timestamp ASC";

/// Selects all pending entries, oldest first.
pub const ALL_PENDING_SQL: &'static str = "SELECT id, table_name, doc_id, operation, data, timestamp, synced, sync_error
             FROM _change_log
             WHERE synced = 0
             ORDER BY timestamp ASC";

/// Notes an error at an entry.
pub const SYNC_ERROR_SQL: &'static str = "UPDATE _change_log SET sync_error = ?1 WHERE id = ?2";

/// The command that adds an entry.
pub open spec fn insert_change_command(
    table_name: Seq<char>,
    doc_id: Seq<char>,
    operation: Seq<char>,
    data: Option<Seq<char>>,
    timestamp: Seq<char>,
) -> CommandView {
    CommandView {
        sql: INSERT_CHANGE_SQL@,
        params: seq![
            SqlValueView::Text(table_name),
            SqlValueView::Text(doc_id),
            SqlValueView::Text(operation),
            optional_text(data),
            SqlValueView::Text(timestamp),
        ],
        failure: "Failed to record change: "@,
    }
}

/// The query for the pending entries of one table.
pub open spec fn pending_query(table_name: Seq<char>) -> QueryView {
    QueryView {
        sql: PENDING_SQL@,
        params: seq![SqlValueView::Text(table_name)],
        prepare_failure: "Failed to prepare get_pending_changes: "@,
        query_failure: "Failed to query pending changes: "@,
        row_failure: "Failed to read change record row: "@,
    }
}

/// The query for all pending entries.
pub open spec fn all_pending_query() -> QueryView {
    QueryView {
        sql: ALL_PENDING_SQL@,
        params: Seq::empty(),
        prepare_failure: "Failed to prepare get_all_pending_changes: "@,
        query_failure: "Failed to query all pending changes: "@,
        row_failure: "Failed to read change record row: "@,
    }
}

/// The placeholders `?1, ?2, …, ?n`.
pub open spec fn placeholders(n: nat) -> Seq<char>
    decreases n,
{
    if n == 0 {
        Seq::empty()
    } else if n == 1 {
        "?"@ + decimal(1)
    } else {
        placeholders((n - 1) as nat) + ", "@ + ("?"@ + decimal(n))
    }
}

/// The command that marks the entries with these ids as synced.
pub open spec fn mark_synced_command(ids: Seq<i64>) -> CommandView {
    CommandView {
        sql: "UPDATE _change_log SET synced = 1 WHERE id IN ("@ + placeholders(ids.len()) + ")"@,
        params: ids.map_values(|id: i64| SqlValueView::Integer(id)),
        failure: "Failed to mark changes as synced: "@,
    }
}

/// The command that notes an error at an entry.
pub open spec fn sync_error_command(change_id: i64, error: Seq<char>) -> CommandView {
    CommandView {
        sql: SYNC_ERROR_SQL@,
        params: seq![SqlValueView::Text(error), SqlValueView::Integer(change_id)],
        failure: "Failed to mark sync error: "@,
    }
}

fn insert_change(
    table_name: &str,
    doc_id: &str,
    operation: &str,
    data: Option<&str>,
    timestamp: &str,
) -> (r: Command)
    ensures
        r@ == insert_change_command(
            table_name@,
            doc_id@,
            operation@,
            str_chars_of(data),
            timestamp@,
        ),
{
    let mut params: Vec<SqlValue> = Vec::new();
    params.push(text_value(table_name));
    params.push(text_value(doc_id));
    params.push(text_value(operation));
    params.push(optional_text_value(data));
    params.push(text_value(timestamp));
    let r = Command {
        sql: INSERT_CHANGE_SQL.to_owned(),
        params,
        failure: "Failed to record change: ".to_owned(),
    };
    assert(r@ =~= insert_change_command(
        table_name@,
        doc_id@,
        operation@,
        str_chars_of(data),
        timestamp@,
    ));
    r
}

fn placeholder_list(n: usize) -> (r: String)
    ensures
        r@ == placeholders(n as nat),
{
    let mut list = String::new();
    let mut i: usize = 0;
    while i < n
        invariant
            i <= n,
            list@ == placeholders(i as nat),
        decreases n - i,
    {
        i = i + 1;
        if i > 1 {
            list.append(", ");
        }
        let number = u64_text(i as u64);
        let placeholder = join2("?", number.as_str());
        list.append(placeholder.as_str());
        assert(list@ =~= placeholders(i as nat));
    }
    list
}

fn mark_synced_of(ids: &[i64]) -> (r: Command)
    ensures
        r@ == mark_synced_command(ids@),
{
    let list = placeholder_list(ids.len());
    let mut params: Vec<SqlValue> = Vec::new();
    let mut i: usize = 0;
    while i < ids.len()
        invariant
            i <= ids.len(),
            params.len() == i,
            forall|j: int| 0 <= j < i ==> #[trigger] params@[j]@ == SqlValueView::Integer(ids@[j]),
        decreases ids.len() - i,
    {
        params.push(SqlValue::Integer(ids[i]));
        i = i + 1;
    }
    let r = Command {
        sql: join3("UPDATE _change_log SET synced = 1 WHERE id IN (", list.as_str(), ")"),
        params,
        failure: "Failed to mark changes as synced: ".to_owned(),
    };
    assert(r@ =~= mark_synced_command(ids@));
    r
}

fn sync_error_of(change_id: i64, error: &str) -> (r: Command)
    ensures
        r@ == sync_error_command(change_id, error@),
{
    let mut params: Vec<SqlValue> = Vec::new();
    params.push(text_value(error));
    params.push(SqlValue::Integer(change_id));
    let r = Command {
        sql: SYNC_ERROR_SQL.to_owned(),
        params,
        failure: "Failed to mark sync error: ".to_owned(),
    };
    assert(r@ =~= sync_error_command(change_id, error@));
    r
}

// ---------------------------------------------------------------------------
// Operations
// ---------------------------------------------------------------------------
/// Records a change that was made at `timestamp` and returns the id of its
/// entry.
pub fn record_change_at(
    store: &mut Store,
    table_name: &str,
    doc_id: &str,
    operation: &str,
    data: Option<&str>,
    timestamp: &str,
) -> (r: Result<i64, String>)
    ensures
        final(store).conn() == old(store).conn(),
        final(store).readings() == old(store).readings(),
        recorded(
            old(store).log(),
            final(store).log(),
            insert_change_command(
                table_name@,
                doc_id@,
                operation@,
                str_chars_of(data),
                timestamp@,
            ),
            outcome_of(r),
        ),
{
    let command = insert_change(table_name, doc_id, operation, data, timestamp);
    insert_returning_id(store, &command)
}

/// A change was recorded at the time that was read from the clock.
pub open spec fn recorded_now(
    table_name: Seq<char>,
    doc_id: Seq<char>,
    operation: Seq<char>,
    data: Option<Seq<char>>,
    readings_before: Seq<Seq<char>>,
    readings_after: Seq<Seq<char>>,
    before: Seq<Step>,
    after: Seq<Step>,
    r: Result<i64, Seq<char>>,
) -> bool {
    &&& readings_after == readings_before.push(readings_after.last())
    &&& recorded(
        before,
        after,
        insert_change_command(table_name, doc_id, operation, data, readings_after.last()),
        r,
    )
}

/// Records a change (INSERT, UPDATE or DELETE) at the current time and returns
/// the id of its entry.
///
/// `data` is the full document as JSON for INSERT and UPDATE, `None` for
/// DELETE.
pub fn record_change(
    store: &mut Store,
    table_name: &str,
    doc_id: &str,
    operation: &str,
    data: Option<&str>,
) -> (r: Result<i64, String>)
    ensures
        final(store).conn() == old(store).conn(),
        exists|timestamp: Seq<char>|
            is_utc_timestamp(timestamp) && recorded(
                old(store).log(),
                final(store).log(),
                #[trigger] insert_change_command(
                    table_name@,
                    doc_id@,
                    operation@,
                    str_chars_of(data),
                    timestamp,
                ),
                outcome_of(r),
            ),
        recorded_now(
            table_name@,
            doc_id@,
            operation@,
            str_chars_of(data),
            old(store).readings(),
            final(store).readings(),
            old(store).log(),
            final(store).log(),
            outcome_of(r),
        ),
{
    let timestamp = store.now();
    record_change_at(store, table_name, doc_id, operation, data, timestamp.as_str())
}

/// The one step of a query for change records, and what it returns: the records
/// in the rows, in their order, or the message of the first failure.
pub open spec fn changes_read(
    before: Seq<Step>,
    after: Seq<Step>,
    query: QueryView,
    r: Result<Vec<ChangeRecord>, String>,
) -> bool {
    exists|answer: Selected, outcome: QueryOutcome<ChangeRecord>|
        #![trigger selection(query.sql, query.params, answer), query_result(query, outcome, r)]
        {
            &&& after == before + selection(query.sql, query.params, answer)
            &&& selection_read(answer, outcome, RecordReader)
            &&& query_result(query, outcome, r)
        }
}

fn read_changes(store: &mut Store, query: &Query) -> (r: Result<Vec<ChangeRecord>, String>)
    ensures
        final(store).conn() == old(store).conn(),
        final(store).readings() == old(store).readings(),
        changes_read(old(store).log(), final(store).log(), query@, r),
{
    let outcome = store.select_changes(query.sql.as_str(), &query.params);
    let ghost answer = choose|answer: Selected|
        store.log() == old(store).log() + #[trigger] selection(
            query.sql@,
            values(query.params@),
            answer,
        ) && selection_read(answer, outcome, RecordReader);
    assert(store.log() == old(store).log() + selection(query@.sql, query@.params, answer));
    let r = query.collect_rows(outcome);
    assert(query_result(query@, outcome, r));
    r
}

/// The pending changes of one table, oldest first.
pub fn get_pending_changes(store: &mut Store, table_name: &str) -> (r: Result<
    Vec<ChangeRecord>,
    String,
>)
    ensures
        final(store).conn() == old(store).conn(),
        final(store).readings() == old(store).readings(),
        changes_read(old(store).log(), final(store).log(), pending_query(table_name@), r),
{
    let mut params: Vec<SqlValue> = Vec::new();
    params.push(text_value(table_name));
    let query = Query {
        sql: PENDING_SQL.to_owned(),
        params,
        prepare_failure: "Failed to prepare get_pending_changes: ".to_owned(),
        query_failure: "Failed to query pending changes: ".to_owned(),
        row_failure: "Failed to read change record row: ".to_owned(),
    };
    assert(query@ =~= pending_query(table_name@));
    read_changes(store, &query)
}

/// The pending changes of all tables, oldest first.
pub fn get_all_pending_changes(store: &mut Store) -> (r: Result<Vec<ChangeRecord>, String>)
    ensures
        final(store).conn() == old(store).conn(),
        final(store).readings() == old(store).readings(),
        changes_read(old(store).log(), final(store).log(), all_pending_query(), r),
{
    let query = Query {
        sql: ALL_PENDING_SQL.to_owned(),
        params: Vec::new(),
        prepare_failure: "Failed to prepare get_all_pending_changes: ".to_owned(),
        query_failure: "Failed to query all pending changes: ".to_owned(),
        row_failure: "Failed to read change record row: ".to_owned(),
    };
    assert(query@ =~= all_pending_query());
    read_changes(store, &query)
}

/// A result with the number of rows as a machine word.
pub open spec fn widened(r: Result<u64, String>) -> Result<usize, Seq<char>> {
    match r {
        Ok(n) => Ok(n as usize),
        Err(e) => Err(e@),
    }
}

/// Marks the entries with these ids as synced and returns how many there were.
/// Without ids the database is not asked.
pub fn mark_synced(store: &mut Store, change_ids: &[i64]) -> (r: Result<u64, String>)
    ensures
        final(store).conn() == old(store).conn(),
        final(store).readings() == old(store).readings(),
        change_ids.len() == 0 ==> r == Ok::<u64, String>(0) && final(store).log() == old(
            store,
        ).log(),
        change_ids.len() > 0 ==> carried_out(
            old(store).log(),
            final(store).log(),
            mark_synced_command(change_ids@),
            widened(r),
        ),
{
    if change_ids.len() == 0 {
        return Ok(0);
    }
    let command = mark_synced_of(change_ids);
    match carry_out(store, &command) {
        Ok(n) => Ok(n as u64),
        Err(e) => Err(e),
    }
}

/// Notes a sync error at an entry, which stays pending.
pub fn mark_sync_error(store: &mut Store, change_id: i64, error: &str) -> (r: Result<(), String>)
    ensures
        final(store).conn() == old(store).conn(),
        final(store).readings() == old(store).readings(),
        settled(
            old(store).log(),
            final(store).log(),
            sync_error_command(change_id, error@),
            outcome_of(r),
        ),
{
    let command = sync_error_of(change_id, error);
    settle(store, &command)
}

// ---------------------------------------------------------------------------
// Laws
// ---------------------------------------------------------------------------
/// The number of question marks in a text.
pub open spec fn question_marks(text: Seq<char>) -> nat
    decreases text.len(),
{
    if text.len() == 0 {
        0
    } else {
        question_marks(text.drop_last()) + if text.last() == '?' {
            1nat
        } else {
            0
        }
    }
}

proof fn question_marks_add_up(a: Seq<char>, b: Seq<char>)
    ensures
        question_marks(a + b) == question_marks(a) + question_marks(b),
    decreases b.len(),
{
    if b.len() == 0 {
        assert(a + b =~= a);
    } else {
        assert((a + b).drop_last() =~= a + b.drop_last());
        question_marks_add_up(a, b.drop_last());
    }
}

proof fn numerals_have_no_question_marks(n: nat)
    ensures
        question_marks(decimal(n)) == 0,
    decreases n,
{
    if n < 10 {
        without_question_marks(decimal(n));
    } else {
        numerals_have_no_question_marks(n / 10);
        assert(decimal(n).drop_last() =~= decimal(n / 10));
    }
}

proof fn placeholders_count(n: nat)
    ensures
        question_marks(placeholders(n)) == n,
    decreases n,
{
    reveal_strlit("?");
    reveal_strlit(", ");
    let mark = "?"@ + decimal(n);
    numerals_have_no_question_marks(n);
    question_marks_add_up("?"@, decimal(n));
    without_question_marks("?"@.drop_last());
    assert(question_marks("?"@) == 1);
    if n > 1 {
        placeholders_count((n - 1) as nat);
        let earlier = placeholders((n - 1) as nat);
        without_question_marks(", "@);
        question_marks_add_up(earlier, ", "@);
        question_marks_add_up(earlier + ", "@, mark);
    }
}

/// Every id that is to be marked as synced has its placeholder, and there are
/// no others.
pub proof fn every_id_has_its_placeholder(ids: Seq<i64>)
    ensures
        question_marks(mark_synced_command(ids).sql) == mark_synced_command(ids).params.len(),
{
    let head = "UPDATE _change_log SET synced = 1 WHERE id IN ("@;
    let list = placeholders(ids.len());
    placeholders_count(ids.len());
    question_marks_add_up(head, list);
    question_marks_add_up(head + list, ")"@);
    assert(question_marks(head) == 0) by {
        reveal_strlit("UPDATE _change_log SET synced = 1 WHERE id IN (");
        without_question_marks(head);
    }
    assert(question_marks(")"@) == 0) by {
        reveal_strlit(")");
        without_question_marks(")"@);
    }
}

proof fn without_question_marks(text: Seq<char>)
    requires
        forall|i: int| 0 <= i < text.len() ==> #[trigger] text[i] != '?',
    ensures
        question_marks(text) == 0,
    decreases text.len(),
{
    if text.len() > 0 {
        without_question_marks(text.drop_last());
    }
}

} // verus!

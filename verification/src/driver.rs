//! The calls into the database driver.
//!
//! What SQLite answers depends on what is on disk, so nothing is claimed of the
//! answers. Instead every call notes itself, with its answer, in the [`Trace`]
//! of its connection, which exists in contracts only. A connection gets its
//! trace where it is taken over, and no call can be made without it: what the
//! trace shows is what the library handed to the database, in that order, and
//! nothing else.

use crate::sql::{values, SqlValue, SqlValueView};
use crate::text::decimal;
use vstd::prelude::*;
use vstd::utf8::encode_utf8;

verus! {

// ---------------------------------------------------------------------------
// Types of the database driver
// ---------------------------------------------------------------------------
/// A connection to a database.
#[verifier::external_type_specification]
#[verifier::external_body]
pub struct ExConnection(rusqlite::Connection);

/// A prepared query.
#[verifier::external_type_specification]
#[verifier::external_body]
pub struct ExPrepared<'c>(rusqlite::Statement<'c>);

/// The rows of a running query.
#[verifier::external_type_specification]
#[verifier::external_body]
pub struct ExRunning<'s>(rusqlite::Rows<'s>);

/// The current row of a running query.
#[verifier::external_type_specification]
#[verifier::external_body]
pub struct ExCurrentRow<'s>(rusqlite::Row<'s>);

/// An open transaction. Dropped uncommitted it is rolled back, as far as the
/// database lets it.
#[verifier::external_type_specification]
#[verifier::external_body]
pub struct ExOpenTransaction<'c>(rusqlite::Transaction<'c>);

// ---------------------------------------------------------------------------
// What a row holds
// ---------------------------------------------------------------------------
/// A value as a column of a row holds it. A number that JSON cannot show is
/// `Real(None)`.
#[verifier::ext_equal]
pub enum Stored {
    Null,
    Integer(i64),
    Real(Option<serde_json::Number>),
    Text(Seq<u8>),
    Blob(Seq<u8>),
}

/// The values that a row holds, column by column.
pub uninterp spec fn row_cells(row: &rusqlite::Row<'_>) -> Seq<Stored>;

/// Column `i` holds this text.
pub open spec fn holds_text(cells: Seq<Stored>, i: int, text: Seq<char>) -> bool {
    0 <= i < cells.len() && cells[i] == Stored::Text(encode_utf8(text))
}

/// Column `i` holds this text, or NULL where there is none.
pub open spec fn holds_optional_text(cells: Seq<Stored>, i: int, text: Option<Seq<char>>) -> bool {
    match text {
        Some(t) => holds_text(cells, i, t),
        None => 0 <= i < cells.len() && cells[i] is Null,
    }
}

/// Column `i` holds this integer.
pub open spec fn holds_integer(cells: Seq<Stored>, i: int, n: int) -> bool {
    0 <= i < cells.len() && cells[i] is Integer && cells[i]->Integer_0 == n
}

/// A value read from a column, its text as bytes.
pub enum RawCell {
    Null,
    Integer(i64),
    Real(Option<serde_json::Number>),
    Text(Vec<u8>),
    Blob(Vec<u8>),
}

impl RawCell {
    /// The value that the column holds.
    pub open spec fn stored(self) -> Stored {
        match self {
            RawCell::Null => Stored::Null,
            RawCell::Integer(n) => Stored::Integer(n),
            RawCell::Real(n) => Stored::Real(n),
            RawCell::Text(bytes) => Stored::Text(bytes@),
            RawCell::Blob(bytes) => Stored::Blob(bytes@),
        }
    }
}

/// `rusqlite::Row::get_ref`: the value in that column, whatever it is, with a
/// number turned into JSON by `serde_json::Number::from_f64`; where there is no
/// such column, the display of the error, which names the column by its index.
#[verifier::external_body]
pub(crate) fn column_raw(row: &rusqlite::Row<'_>, i: usize) -> (r: Result<RawCell, String>)
    ensures
        match r {
            Ok(raw) => i < row_cells(row).len() && row_cells(row)[i as int] == raw.stored(),
            Err(e) => i >= row_cells(row).len() && e@ == "Invalid column index: "@ + decimal(
                i as nat,
            ),
        },
{
    let cell = row.get_ref(i).map(|value| match value {
        rusqlite::types::ValueRef::Null => RawCell::Null,
        rusqlite::types::ValueRef::Integer(n) => RawCell::Integer(n),
        rusqlite::types::ValueRef::Real(x) => RawCell::Real(serde_json::Number::from_f64(x)),
        rusqlite::types::ValueRef::Text(b) => RawCell::Text(b.to_vec()),
        rusqlite::types::ValueRef::Blob(b) => RawCell::Blob(b.to_vec()),
    });
    cell.map_err(|e| e.to_string())
}

// ---------------------------------------------------------------------------
// Steps
// ---------------------------------------------------------------------------
/// One call into the driver and its answer; a refusal is the driver's message.
#[verifier::ext_equal]
#[allow(inconsistent_fields)]
pub enum Step {
    /// A command was executed; it changed so many rows.
    Executed { sql: Seq<char>, params: Seq<SqlValueView>, outcome: Result<usize, Seq<char>> },
    /// A script of commands without placeholders was executed.
    Scripted { sql: Seq<char>, outcome: Result<(), Seq<char>> },
    /// The id of the row that was inserted last was asked for.
    InsertedId { id: i64 },
    /// A query was prepared.
    Prepared { sql: Seq<char>, outcome: Result<(), Seq<char>> },
    /// The prepared query was started.
    Started { params: Seq<SqlValueView>, outcome: Result<(), Seq<char>> },
    /// The next row of the running query was asked for; there is none at the end.
    Fetched { outcome: Result<Option<Seq<Stored>>, Seq<char>> },
    /// A setting of the connection was made.
    Configured { name: Seq<char>, value: SqlValueView, outcome: Result<(), Seq<char>> },
    /// A transaction was begun.
    Begun { outcome: Result<(), Seq<char>> },
    /// The open transaction was committed. One that the database refuses to
    /// commit is dropped at once, which rolls it back, as far as the database
    /// lets it.
    Committed { outcome: Result<(), Seq<char>> },
    /// The open transaction was rolled back.
    RolledBack { outcome: Result<(), Seq<char>> },
}

/// An outcome with its message as a sequence of characters.
pub open spec fn outcome_of<T>(outcome: Result<T, String>) -> Result<T, Seq<char>> {
    match outcome {
        Ok(v) => Ok(v),
        Err(e) => Err(e@),
    }
}

/// An outcome of which only the success is noted.
pub open spec fn success_of<T>(outcome: Result<T, String>) -> Result<(), Seq<char>> {
    match outcome {
        Ok(_) => Ok(()),
        Err(e) => Err(e@),
    }
}

/// The cells of the row that was handed out, if there was one.
pub open spec fn fetched(r: Result<Option<&rusqlite::Row<'_>>, String>) -> Result<
    Option<Seq<Stored>>,
    Seq<char>,
> {
    match r {
        Ok(Some(row)) => Ok(Some(row_cells(row))),
        Ok(None) => Ok(None),
        Err(e) => Err(e@),
    }
}

// ---------------------------------------------------------------------------
// The trace
// ---------------------------------------------------------------------------
/// The calls that were made on one connection, in order. It exists in contracts
/// only. A trace comes into being where [`take_over`] takes over a connection,
/// and only the calls below add to it.
pub struct Trace {
    of: Ghost<rusqlite::Connection>,
    steps: Ghost<Seq<Step>>,
}

impl View for Trace {
    type V = Seq<Step>;

    closed spec fn view(&self) -> Seq<Step> {
        self.steps@
    }
}

impl Trace {
    /// The connection that the calls were made on.
    pub closed spec fn of(self) -> rusqlite::Connection {
        self.of@
    }
}

/// A connection that was taken over. It cannot be taken back, so a connection has
/// one trace and no other.
pub struct HeldConnection {
    conn: rusqlite::Connection,
}

impl View for HeldConnection {
    type V = rusqlite::Connection;

    closed spec fn view(&self) -> rusqlite::Connection {
        self.conn
    }
}

impl HeldConnection {
    /// The connection, to make calls on.
    pub(crate) fn get(&self) -> (r: &rusqlite::Connection)
        ensures
            *r == self@,
    {
        &self.conn
    }
}

/// Takes over a connection and starts its trace.
pub(crate) fn take_over(conn: rusqlite::Connection) -> (r: (HeldConnection, Trace))
    ensures
        r.0@ == conn,
        r.1.of() == conn,
        r.1@ == Seq::<Step>::empty(),
{
    let trace = Trace { of: Ghost(conn), steps: Ghost(Seq::empty()) };
    (HeldConnection { conn }, trace)
}

/// One more step was noted.
pub open spec fn noted(before: Trace, after: Trace, step: Step) -> bool {
    &&& after.of() == before.of()
    &&& after@ == before@.push(step)
}

/// The connection that a query was prepared on.
pub uninterp spec fn prepared_on(prepared: rusqlite::Statement<'_>) -> rusqlite::Connection;

/// The connection that a query runs on.
pub uninterp spec fn running_on(rows: rusqlite::Rows<'_>) -> rusqlite::Connection;

/// The connection that a transaction was begun on.
pub uninterp spec fn begun_on(transaction: rusqlite::Transaction<'_>) -> rusqlite::Connection;

// ---------------------------------------------------------------------------
// The calls
// ---------------------------------------------------------------------------
/// `rusqlite::Connection::execute` with the values bound in order, a number
/// that is no 64-bit integer as its `f64`. Nothing is claimed of the answer,
/// which depends on what is in the database; the call is noted with it.
#[verifier::external_body]
pub(crate) fn driver_execute(
    conn: &rusqlite::Connection,
    trace: &mut Trace,
    sql: &str,
    params: &Vec<SqlValue>,
) -> (r: Result<usize, String>)
    requires
        old(trace).of() == *conn,
    ensures
        noted(*old(trace), *final(trace), 
            Step::Executed { sql: sql@, params: values(params@), outcome: outcome_of(r) },
        ),
    no_unwind
{
    let bound = params.iter().map(|p| match p {
        SqlValue::Null => rusqlite::types::Value::Null,
        SqlValue::Bool(b) => rusqlite::types::Value::from(*b),
        SqlValue::Integer(i) => rusqlite::types::Value::from(*i),
        SqlValue::Real(n) => rusqlite::types::Value::from(n.as_f64()),
        SqlValue::Text(s) => rusqlite::types::Value::from(s.clone()),
    });
    conn.execute(sql, rusqlite::params_from_iter(bound)).map_err(|e| e.to_string())
}

/// `rusqlite::Connection::execute_batch`. Nothing is claimed of the answer; the
/// call is noted with it.
#[verifier::external_body]
pub(crate) fn driver_execute_batch(
    conn: &rusqlite::Connection,
    trace: &mut Trace,
    sql: &str,
) -> (r: Result<(), String>)
    requires
        old(trace).of() == *conn,
    ensures
        noted(*old(trace), *final(trace), Step::Scripted { sql: sql@, outcome: outcome_of(r) }),
    no_unwind
{
    conn.execute_batch(sql).map_err(|e| e.to_string())
}

/// `rusqlite::Connection::last_insert_rowid`. The id depends on what was done
/// with the connection before; nothing is claimed of it. The call is noted.
#[verifier::external_body]
pub(crate) fn driver_last_insert_rowid(
    conn: &rusqlite::Connection,
    trace: &mut Trace,
) -> (r: i64)
    requires
        old(trace).of() == *conn,
    ensures
        noted(*old(trace), *final(trace), Step::InsertedId { id: r }),
    no_unwind
{
    conn.last_insert_rowid()
}

/// `rusqlite::Connection::prepare`. Nothing is claimed of the answer; the call
/// is noted with it.
#[verifier::external_body]
pub(crate) fn driver_prepare<'c>(
    conn: &'c rusqlite::Connection,
    trace: &mut Trace,
    sql: &str,
) -> (r: Result<rusqlite::Statement<'c>, String>)
    requires
        old(trace).of() == *conn,
    ensures
        noted(*old(trace), *final(trace), Step::Prepared { sql: sql@, outcome: success_of(r) }),
        r is Ok ==> prepared_on(r->Ok_0) == *conn,
    no_unwind
{
    conn.prepare(sql).map_err(|e| e.to_string())
}

/// `rusqlite::Statement::query` with the values bound in order, a number that is
/// no 64-bit integer as its `f64`. Nothing is claimed of the answer; the call is
/// noted with it.
#[verifier::external_body]
pub(crate) fn driver_query<'s>(
    prepared: &'s mut rusqlite::Statement<'_>,
    trace: &mut Trace,
    params: &Vec<SqlValue>,
) -> (r: Result<rusqlite::Rows<'s>, String>)
    requires
        old(trace).of() == prepared_on(*old(prepared)),
    ensures
        noted(*old(trace), *final(trace), 
            Step::Started { params: values(params@), outcome: success_of(r) },
        ),
        r is Ok ==> running_on(r->Ok_0) == old(trace).of(),
    no_unwind
{
    let bound = params.iter().map(|p| match p {
        SqlValue::Null => rusqlite::types::Value::Null,
        SqlValue::Bool(b) => rusqlite::types::Value::from(*b),
        SqlValue::Integer(i) => rusqlite::types::Value::from(*i),
        SqlValue::Real(n) => rusqlite::types::Value::from(n.as_f64()),
        SqlValue::Text(s) => rusqlite::types::Value::from(s.clone()),
    });
    prepared.query(rusqlite::params_from_iter(bound)).map_err(|e| e.to_string())
}

/// `rusqlite::Rows::next`. Nothing is claimed of the answer; the call is noted
/// with it, a row by what its columns hold.
#[verifier::external_body]
pub(crate) fn driver_next<'r, 's>(
    rows: &'r mut rusqlite::Rows<'s>,
    trace: &mut Trace,
) -> (r: Result<Option<&'r rusqlite::Row<'s>>, String>)
    requires
        old(trace).of() == running_on(*old(rows)),
    ensures
        noted(*old(trace), *final(trace), Step::Fetched { outcome: fetched(r) }),
        running_on(*final(rows)) == running_on(*old(rows)),
    no_unwind
{
    rows.next().map_err(|e| e.to_string())
}

/// `rusqlite::Connection::pragma_update` on the main database. Nothing is
/// claimed of the answer; the call is noted with it.
#[verifier::external_body]
pub(crate) fn driver_pragma_update(
    conn: &rusqlite::Connection,
    trace: &mut Trace,
    name: &str,
    value: &SqlValue,
) -> (r: Result<(), String>)
    requires
        old(trace).of() == *conn,
    ensures
        noted(*old(trace), *final(trace), 
            Step::Configured { name: name@, value: value@, outcome: outcome_of(r) },
        ),
    no_unwind
{
    let bound = match value {
        SqlValue::Null => rusqlite::types::Value::Null,
        SqlValue::Bool(b) => rusqlite::types::Value::from(*b),
        SqlValue::Integer(i) => rusqlite::types::Value::from(*i),
        SqlValue::Real(n) => rusqlite::types::Value::from(n.as_f64()),
        SqlValue::Text(s) => rusqlite::types::Value::from(s.clone()),
    };
    conn.pragma_update(None, name, bound).map_err(|e| e.to_string())
}

/// `rusqlite::Connection::unchecked_transaction`. Nothing is claimed of the
/// answer; the call is noted with it.
#[verifier::external_body]
pub(crate) fn driver_begin<'c>(
    conn: &'c rusqlite::Connection,
    trace: &mut Trace,
) -> (r: Result<rusqlite::Transaction<'c>, String>)
    requires
        old(trace).of() == *conn,
    ensures
        noted(*old(trace), *final(trace), Step::Begun { outcome: success_of(r) }),
        r is Ok ==> begun_on(r->Ok_0) == *conn,
    no_unwind
{
    conn.unchecked_transaction().map_err(|e| e.to_string())
}

/// `rusqlite::Transaction::commit`, which consumes the transaction. Where the
/// commit is refused, the transaction is dropped, which rolls it back; a refusal
/// of that is not reported. Nothing is claimed of the answer; the call is noted
/// with it.
#[verifier::external_body]
pub(crate) fn driver_commit(
    transaction: rusqlite::Transaction<'_>,
    trace: &mut Trace,
) -> (r: Result<(), String>)
    requires
        old(trace).of() == begun_on(transaction),
    ensures
        noted(*old(trace), *final(trace), Step::Committed { outcome: outcome_of(r) }),
    no_unwind
{
    transaction.commit().map_err(|e| e.to_string())
}

/// `rusqlite::Transaction::rollback`, which consumes the transaction. Nothing is
/// claimed of the answer; the call is noted with it.
#[verifier::external_body]
pub(crate) fn driver_rollback(
    transaction: rusqlite::Transaction<'_>,
    trace: &mut Trace,
) -> (r: Result<(), String>)
    requires
        old(trace).of() == begun_on(transaction),
    ensures
        noted(*old(trace), *final(trace), Step::RolledBack { outcome: outcome_of(r) }),
    no_unwind
{
    transaction.rollback().map_err(|e| e.to_string())
}

} // verus!

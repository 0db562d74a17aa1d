//! Values, commands and queries for the database, and what their outcomes mean.

use crate::json::{classify, json_display, json_text, seen_as, Json, JsonView};
use crate::text::join2;
use vstd::prelude::*;

verus! {

// ---------------------------------------------------------------------------
// Values
// ---------------------------------------------------------------------------
/// A value bound to a placeholder.
#[derive(Debug, PartialEq)]
pub enum SqlValue {
    Null,
    Bool(bool),
    Integer(i64),
    Real(serde_json::Number),
    Text(String),
}

/// What a [`SqlValue`] is, with its text as a sequence of characters.
#[verifier::ext_equal]
pub enum SqlValueView {
    Null,
    Bool(bool),
    Integer(i64),
    Real(serde_json::Number),
    Text(Seq<char>),
}

impl View for SqlValue {
    type V = SqlValueView;

    open spec fn view(&self) -> SqlValueView {
        match self {
            SqlValue::Null => SqlValueView::Null,
            SqlValue::Bool(b) => SqlValueView::Bool(*b),
            SqlValue::Integer(i) => SqlValueView::Integer(*i),
            SqlValue::Real(n) => SqlValueView::Real(*n),
            SqlValue::Text(s) => SqlValueView::Text(s@),
        }
    }
}

/// The views of a list of values.
pub open spec fn values(params: Seq<SqlValue>) -> Seq<SqlValueView> {
    params.map_values(|p: SqlValue| p@)
}

/// A text value.
pub fn text_value(s: &str) -> (r: SqlValue)
    ensures
        r@ == SqlValueView::Text(s@),
{
    SqlValue::Text(s.to_owned())
}

/// The value that stands for an optional text.
pub open spec fn optional_text(s: Option<Seq<char>>) -> SqlValueView {
    match s {
        Some(t) => SqlValueView::Text(t),
        None => SqlValueView::Null,
    }
}

/// The characters of an optional text.
pub open spec fn chars_of(s: Option<String>) -> Option<Seq<char>> {
    match s {
        Some(t) => Some(t@),
        None => None,
    }
}

/// The characters of an optional string slice.
pub open spec fn str_chars_of(s: Option<&str>) -> Option<Seq<char>> {
    match s {
        Some(t) => Some(t@),
        None => None,
    }
}

/// A text value, or NULL where there is no text.
pub fn optional_text_value(s: Option<&str>) -> (r: SqlValue)
    ensures
        r@ == optional_text(str_chars_of(s)),
{
    match s {
        Some(t) => SqlValue::Text(t.to_owned()),
        None => SqlValue::Null,
    }
}

/// The value under which a JSON value is bound: a scalar as it is, an array or
/// an object as its JSON text.
pub open spec fn sql_value(json: JsonView) -> SqlValueView {
    match json {
        JsonView::Null => SqlValueView::Null,
        JsonView::Bool(b) => SqlValueView::Bool(b),
        JsonView::Integer(i) => SqlValueView::Integer(i),
        JsonView::Real(n) => SqlValueView::Real(n),
        JsonView::Text(s) => SqlValueView::Text(s),
        JsonView::Nested(v) => SqlValueView::Text(json_display(v)),
    }
}

/// The value to bind for a JSON value that was told apart.
pub fn classified_to_sql(val: Json) -> (r: SqlValue)
    ensures
        r@ == sql_value(val@),
{
    match val {
        Json::Null => SqlValue::Null,
        Json::Bool(b) => SqlValue::Bool(b),
        Json::Integer(i) => SqlValue::Integer(i),
        Json::Real(n) => SqlValue::Real(n),
        Json::Text(s) => SqlValue::Text(s),
        Json::Nested(v) => SqlValue::Text(json_text(&v)),
    }
}

/// The value to bind for a JSON value: a scalar as it is, an array or an object
/// as its JSON text.
pub fn json_value_to_sql(val: &serde_json::Value) -> (r: SqlValue)
    ensures
        r@ == sql_value(seen_as(*val)),
{
    classified_to_sql(classify(val))
}

/// The values under which JSON values are bound.
pub open spec fn sql_values(json: Seq<serde_json::Value>) -> Seq<SqlValueView> {
    json.map_values(|v: serde_json::Value| sql_value(seen_as(v)))
}

/// The values to bind for a list of JSON values.
pub fn json_values_to_sql(vals: &Vec<serde_json::Value>) -> (r: Vec<SqlValue>)
    ensures
        values(r@) == sql_values(vals@),
{
    let mut bound: Vec<SqlValue> = Vec::new();
    let mut i: usize = 0;
    while i < vals.len()
        invariant
            i <= vals.len(),
            bound.len() == i,
            forall|j: int|
                0 <= j < i ==> #[trigger] bound@[j]@ == sql_value(seen_as(vals@[j])),
        decreases vals.len() - i,
    {
        bound.push(json_value_to_sql(&vals[i]));
        i = i + 1;
    }
    assert(values(bound@) =~= sql_values(vals@));
    bound
}

// ---------------------------------------------------------------------------
// Commands
// ---------------------------------------------------------------------------
/// Something to execute.
#[derive(Debug, PartialEq)]
pub struct Command {
    /// The SQL text, with numbered placeholders.
    pub sql: String,
    /// The values of the placeholders, in order.
    pub params: Vec<SqlValue>,
    /// What comes before the database's own words where it refuses the command.
    pub failure: String,
}

/// What a [`Command`] is, over sequences.
#[verifier::ext_equal]
pub struct CommandView {
    pub sql: Seq<char>,
    pub params: Seq<SqlValueView>,
    pub failure: Seq<char>,
}

impl View for Command {
    type V = CommandView;

    open spec fn view(&self) -> CommandView {
        CommandView { sql: self.sql@, params: values(self.params@), failure: self.failure@ }
    }
}

/// A command without placeholders.
pub open spec fn plain_command(sql: Seq<char>, failure: Seq<char>) -> CommandView {
    CommandView { sql, params: Seq::empty(), failure }
}

/// The views of a list of commands.
pub open spec fn commands(list: Seq<Command>) -> Seq<CommandView> {
    list.map_values(|c: Command| c@)
}

impl Command {
    /// A command without placeholders.
    pub fn plain(sql: String, failure: String) -> (r: Self)
        ensures
            r@ == plain_command(sql@, failure@),
    {
        let r = Command { sql, params: Vec::new(), failure };
        assert(r@ =~= plain_command(sql@, failure@));
        r
    }

    /// The message of a refusal: `error` is what the database said.
    pub fn failed(&self, error: &str) -> (r: String)
        ensures
            r@ == self@.failure + error@,
    {
        join2(self.failure.as_str(), error)
    }
}

// ---------------------------------------------------------------------------
// Queries
// ---------------------------------------------------------------------------
/// A query for rows, with what a message starts with at each of its stages.
#[derive(Debug, PartialEq)]
pub struct Query {
    pub sql: String,
    pub params: Vec<SqlValue>,
    /// The query could not be prepared.
    pub prepare_failure: String,
    /// The prepared query could not be started.
    pub query_failure: String,
    /// A row could not be read.
    pub row_failure: String,
}

/// What a [`Query`] is, over sequences.
#[verifier::ext_equal]
pub struct QueryView {
    pub sql: Seq<char>,
    pub params: Seq<SqlValueView>,
    pub prepare_failure: Seq<char>,
    pub query_failure: Seq<char>,
    pub row_failure: Seq<char>,
}

impl View for Query {
    type V = QueryView;

    open spec fn view(&self) -> QueryView {
        QueryView {
            sql: self.sql@,
            params: values(self.params@),
            prepare_failure: self.prepare_failure@,
            query_failure: self.query_failure@,
            row_failure: self.row_failure@,
        }
    }
}

/// How a query went.
#[derive(Debug, PartialEq)]
pub enum QueryOutcome<T> {
    /// It was refused when it was prepared.
    PrepareFailed(String),
    /// It was refused when it was started.
    QueryFailed(String),
    /// The rows as they came, each read or refused; none comes after a refused
    /// one.
    Rows(Vec<Result<T, String>>),
}

/// The place of the first refused row, or the number of rows if none was.
pub open spec fn first_refused<T>(rows: Seq<Result<T, String>>) -> nat
    decreases rows.len(),
{
    if rows.len() == 0 || rows[0] is Err {
        0
    } else {
        1 + first_refused(rows.skip(1))
    }
}

/// `r` is what `outcome` of the query comes to: all rows if each was read,
/// else the message of the first refusal.
pub open spec fn query_result<T>(
    query: QueryView,
    outcome: QueryOutcome<T>,
    r: Result<Vec<T>, String>,
) -> bool {
    match outcome {
        QueryOutcome::PrepareFailed(e) => r is Err && r->Err_0@ == query.prepare_failure + e@,
        QueryOutcome::QueryFailed(e) => r is Err && r->Err_0@ == query.query_failure + e@,
        QueryOutcome::Rows(rows) => {
            let n = first_refused(rows@);
            if n < rows.len() {
                r is Err && r->Err_0@ == query.row_failure + rows@[n as int]->Err_0@
            } else {
                &&& r is Ok
                &&& r->Ok_0.len() == rows.len()
                &&& forall|i: int|
                    0 <= i < rows.len() ==> rows@[i] == Ok::<T, String>(#[trigger] r->Ok_0@[i])
            }
        },
    }
}

/// The rows before the first refused one were all read, and that one was not.
pub proof fn first_refused_is_first<T>(rows: Seq<Result<T, String>>, n: int)
    requires
        0 <= n <= rows.len(),
        forall|i: int| 0 <= i < n ==> #[trigger] rows[i] is Ok,
        n < rows.len() ==> rows[n] is Err,
    ensures
        first_refused(rows) == n,
    decreases rows.len(),
{
    if n > 0 {
        let rest = rows.skip(1);
        assert forall|i: int| 0 <= i < n - 1 implies #[trigger] rest[i] is Ok by {
            assert(rest[i] == rows[i + 1]);
        }
        if n < rows.len() {
            assert(rest[n - 1] == rows[n]);
        }
        first_refused_is_first(rest, n - 1);
    }
}

impl Query {
    /// The rows of a query, or the message of the first refusal.
    pub fn collect_rows<T>(&self, outcome: QueryOutcome<T>) -> (r: Result<Vec<T>, String>)
        ensures
            query_result(self@, outcome, r),
    {
        match outcome {
            QueryOutcome::PrepareFailed(e) => Err(join2(self.prepare_failure.as_str(), e.as_str())),
            QueryOutcome::QueryFailed(e) => Err(join2(self.query_failure.as_str(), e.as_str())),
            QueryOutcome::Rows(rows) => {
                let ghost all = rows@;
                let mut results: Vec<T> = Vec::new();
                for row in it: rows
                    invariant
                        it.seq() == all,
                        all == rows@,
                        outcome == QueryOutcome::Rows(rows),
                        results.len() == it.index(),
                        forall|i: int|
                            0 <= i < it.index() ==> all[i] == Ok::<T, String>(
                                #[trigger] results@[i],
                            ),
                {
                    match row {
                        Ok(value) => {
                            results.push(value);
                        },
                        Err(e) => {
                            proof {
                                assert forall|i: int| 0 <= i < it.index() implies #[trigger] all[i]
                                    is Ok by {
                                    assert(all[i] == Ok::<T, String>(results@[i]));
                                }
                                first_refused_is_first(all, it.index() as int);
                            }
                            return Err(join2(self.row_failure.as_str(), e.as_str()));
                        },
                    }
                }
                proof {
                    assert forall|i: int| 0 <= i < all.len() implies #[trigger] all[i] is Ok by {
                        assert(all[i] == Ok::<T, String>(results@[i]));
                    }
                    first_refused_is_first(all, all.len() as int);
                }
                Ok(results)
            },
        }
    }
}

} // verus!

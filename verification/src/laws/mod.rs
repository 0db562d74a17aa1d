//! What the library promises as a whole, said in terms of what goes in and what
//! comes out: texts, times, bound values, rows and the steps that were taken.

pub mod calls;
pub mod chains;
pub mod changes;
pub mod conflicts;
pub mod engines;
pub mod layout;
pub mod pulling;
pub mod pushing;
pub mod queries;
pub mod stream;
pub mod texts;
pub mod versions;

use crate::driver::{Step, Stored};
use crate::sql::{QueryView, SqlValueView};
use vstd::prelude::*;

verus! {

/// The first text comes before the second in the dictionary: it is a proper
/// beginning of it, or has the smaller character at the first place where they
/// differ.
pub open spec fn comes_first(a: Seq<char>, b: Seq<char>) -> bool {
    exists|k: int|
        {
            &&& 0 <= k <= a.len()
            &&& k < b.len()
            &&& #[trigger] a.take(k) == b.take(k)
            &&& k == a.len() || (a[k] as int) < (b[k] as int)
        }
}

/// The first time is later than the second: by seconds, then by nanoseconds,
/// where both are known; else the texts are compared. No text is earlier than an
/// empty one.
pub open spec fn is_later(
    a: Seq<char>,
    x: Option<(i64, u32)>,
    b: Seq<char>,
    y: Option<(i64, u32)>,
) -> bool {
    if a.len() == 0 {
        false
    } else if b.len() == 0 {
        true
    } else {
        match (x, y) {
            (Some(x), Some(y)) => y.0 < x.0 || (y.0 == x.0 && y.1 < x.1),
            _ => comes_first(b, a),
        }
    }
}

/// The step asks for data and changes none.
pub open spec fn is_reading(step: Step) -> bool {
    step is Prepared || step is Started || step is Fetched
}

/// One command was executed with these values. It changed so many rows, or was
/// refused; the message is the database's own, behind these words.
pub open spec fn executed(
    before: Seq<Step>,
    after: Seq<Step>,
    sql: Seq<char>,
    params: Seq<SqlValueView>,
    words: Seq<char>,
    r: Result<usize, Seq<char>>,
) -> bool {
    match r {
        Ok(n) => after == before.push(Step::Executed { sql, params, outcome: Ok(n) }),
        Err(message) => exists|e: Seq<char>|
            message == #[trigger] (words + e) && after == before.push(
                Step::Executed { sql, params, outcome: Err(e) },
            ),
    }
}

/// One command was executed with these values, of which only the success
/// matters.
pub open spec fn done(
    before: Seq<Step>,
    after: Seq<Step>,
    sql: Seq<char>,
    params: Seq<SqlValueView>,
    words: Seq<char>,
    r: Result<(), Seq<char>>,
) -> bool {
    match r {
        Ok(_) => {
            &&& after.len() == before.len() + 1
            &&& after.take(before.len() as int) == before
            &&& after.last() is Executed
            &&& after.last()->Executed_sql == sql
            &&& after.last()->Executed_params == params
            &&& after.last()->Executed_outcome is Ok
        },
        Err(message) => exists|e: Seq<char>|
            message == #[trigger] (words + e) && after == before.push(
                Step::Executed { sql, params, outcome: Err(e) },
            ),
    }
}

/// One row was inserted by a command with these values, and its id asked for.
pub open spec fn inserted(
    before: Seq<Step>,
    after: Seq<Step>,
    sql: Seq<char>,
    params: Seq<SqlValueView>,
    words: Seq<char>,
    r: Result<i64, Seq<char>>,
) -> bool {
    match r {
        Ok(id) => {
            &&& after.len() == before.len() + 2
            &&& after.take(before.len() as int) == before
            &&& after[before.len() as int] is Executed
            &&& after[before.len() as int]->Executed_sql == sql
            &&& after[before.len() as int]->Executed_params == params
            &&& after[before.len() as int]->Executed_outcome is Ok
            &&& after.last() == Step::InsertedId { id }
        },
        Err(message) => exists|e: Seq<char>|
            message == #[trigger] (words + e) && after == before.push(
                Step::Executed { sql, params, outcome: Err(e) },
            ),
    }
}

/// The steps of a query that handed out these rows, and then no more.
pub open spec fn whole_query(
    sql: Seq<char>,
    params: Seq<SqlValueView>,
    rows: Seq<Seq<Stored>>,
) -> Seq<Step> {
    seq![
        Step::Prepared { sql, outcome: Ok(()) },
        Step::Started { params, outcome: Ok(()) },
    ] + Seq::new(rows.len(), |i: int| Step::Fetched { outcome: Ok(Some(rows[i])) }) + seq![
        Step::Fetched { outcome: Ok(None) },
    ]
}

/// What a query came to. Each row that the database handed out is read, in its
/// order; the message of a failure is that of the first step that failed, or of
/// the row that cannot be read, behind the words for it.
pub open spec fn asked<T>(
    before: Seq<Step>,
    after: Seq<Step>,
    query: QueryView,
    r: Result<Seq<T>, Seq<char>>,
    reads: spec_fn(Seq<Stored>, T) -> bool,
    refuses: spec_fn(Seq<Stored>) -> Option<Seq<char>>,
) -> bool {
    match r {
        Ok(list) => exists|rows: Seq<Seq<Stored>>|
            {
                &&& after == before + #[trigger] whole_query(query.sql, query.params, rows)
                &&& list.len() == rows.len()
                &&& forall|i: int| 0 <= i < rows.len() ==> reads(rows[i], #[trigger] list[i])
            },
        Err(message) => {
            &&& before.len() < after.len()
            &&& after.take(before.len() as int) == before
            &&& after[before.len() as int] is Prepared
            &&& after[before.len() as int]->Prepared_sql == query.sql
            &&& match after.last() {
                Step::Prepared { sql, outcome: Err(e) } => message == query.prepare_failure + e,
                Step::Started { params, outcome: Err(e) } => params == query.params && message
                    == query.query_failure + e,
                Step::Fetched { outcome: Err(e) } => message == query.row_failure + e,
                Step::Fetched { outcome: Ok(Some(row)) } => {
                    &&& refuses(row) is Some
                    &&& message == query.row_failure + refuses(row)->0
                    &&& forall|value: T| !#[trigger] reads(row, value)
                },
                _ => false,
            }
        },
    }
}

/// How many of the first numbers have the property.
pub open spec fn how_many(n: nat, property: spec_fn(int) -> bool) -> nat
    decreases n,
{
    if n == 0 {
        0
    } else if property(n - 1) {
        how_many((n - 1) as nat, property) + 1
    } else {
        how_many((n - 1) as nat, property)
    }
}

/// The text that writes a document into a table, in place of the row of the same
/// key. The values are the key, the document and its time: the key, the document
/// and the time go to their columns as they are, the document is not deleted, and
/// the time of its creation stays what it was, or is its time.
pub open spec fn document_text(table: Seq<char>) -> Seq<char> {
    "INSERT OR REPLACE INTO ["@ + table + "] ("@ + ("_id"@ + ", "@ + "data"@ + ", "@ + "createdAt"@
        + ", "@ + "updatedAt"@ + ", "@ + "_deleted"@) + ") VALUES ("@ + ("?1"@ + ", "@ + "?2"@ + ", "@
        + ("COALESCE((SELECT createdAt FROM ["@ + table + "] WHERE _id = ?1), ?3)"@) + ", "@ + "?3"@
        + ", "@ + "0"@) + ")"@
}

/// The text that marks a document of a table as deleted.
pub open spec fn deletion_text(table: Seq<char>) -> Seq<char> {
    "UPDATE ["@ + table + "] SET _deleted = 1, updatedAt = ?1 WHERE _id = ?2"@
}

} // verus!

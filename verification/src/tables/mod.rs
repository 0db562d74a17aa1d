//! What the library's commands and queries mean for the tables that they speak
//! of, and what follows from it.
//!
//! The meaning of a command is that which SQL gives to its text, on a table that
//! has the columns and the key that the library gives it and no triggers, while
//! no one else writes to it. It is stated of successful steps, and of the texts
//! of this library only: what any other step does is left open.

pub mod catalog;
pub mod checkpoints;
pub mod documents;
pub mod pending;
pub mod transactions;

use crate::commands::json_of_cell;
use crate::driver::Stored;
use crate::json::{json_display, JsonView};
use crate::sql::{sql_value, SqlValueView};
use crate::rows::{cell_holds, Cell};
use crate::store::Selected;
use vstd::prelude::*;
use vstd::utf8::{encode_utf8, encode_utf8_decode_utf8};

verus! {

/// The text that a value is.
pub open spec fn text_in(value: SqlValueView) -> Seq<char> {
    match value {
        SqlValueView::Text(text) => text,
        _ => arbitrary(),
    }
}

/// How a bound value is stored in a column that takes it as it is. A number is
/// stored as it is where JSON holds it as a floating-point number; a whole number
/// beyond the range of 64-bit integers is rounded, and not covered here.
pub open spec fn stored_value(value: SqlValueView) -> Stored {
    match value {
        SqlValueView::Null => Stored::Null,
        SqlValueView::Bool(b) => Stored::Integer(if b {
            1
        } else {
            0
        }),
        SqlValueView::Integer(i) => Stored::Integer(i),
        SqlValueView::Real(n) => Stored::Real(Some(n)),
        SqlValueView::Text(text) => Stored::Text(encode_utf8(text)),
    }
}

/// The rows that a table holds were handed out in this order, all of them
/// unless no more were asked for.
pub open spec fn hands_out(answer: Selected, held: Seq<Seq<Stored>>) -> bool {
    match answer {
        Selected::Rows { rows, ending } => {
            &&& rows.is_prefix_of(held)
            &&& ending is Exhausted ==> rows == held
            &&& !(ending is Failed)
        },
        _ => false,
    }
}

/// A text that is stored as another is the same text.
pub proof fn text_is_what_was_stored(a: Seq<char>, b: Seq<char>)
    requires
        encode_utf8(a) == encode_utf8(b),
    ensures
        a == b,
{
    encode_utf8_decode_utf8(a);
    encode_utf8_decode_utf8(b);
}

/// What a bound JSON value comes back as.
pub open spec fn comes_back_as(json: JsonView) -> JsonView {
    match json {
        JsonView::Null => JsonView::Null,
        JsonView::Bool(b) => JsonView::Integer(if b {
            1
        } else {
            0
        }),
        JsonView::Integer(i) => JsonView::Integer(i),
        JsonView::Real(n) => JsonView::Real(n),
        JsonView::Text(text) => JsonView::Text(text),
        JsonView::Nested(v) => JsonView::Text(json_display(v)),
    }
}

/// A JSON value that was bound, stored as it is, and read into a cell comes
/// back: null, a text, and a number that is stored as it is, unchanged, a truth
/// value as 1 or 0, an array or an object as its JSON text.
pub proof fn bound_json_comes_back(json: JsonView, cell: Cell)
    requires
        cell_holds(stored_value(sql_value(json)), cell),
    ensures
        json_of_cell(cell) == comes_back_as(json),
{
    match (sql_value(json), cell) {
        (SqlValueView::Text(text), Cell::Text(read)) => {
            text_is_what_was_stored(text, read@);
        },
        _ => {},
    }
}

} // verus!

//! Reading the rows that the database hands out.

use crate::changelog::{record_in, ChangeRecord};
use crate::driver::{
    column_raw, holds_integer, holds_optional_text, holds_text, row_cells, RawCell, Stored,
};
use crate::text::{decimal, i64_text, join2, join4, join5, signed_decimal, u64_text};
use vstd::prelude::*;
use vstd::utf8::{encode_utf8, encode_utf8_valid_utf8, valid_utf8};

verus! {

// ---------------------------------------------------------------------------
// Cells
// ---------------------------------------------------------------------------
/// A value read from a column.
#[derive(Debug, PartialEq)]
pub enum Cell {
    Null,
    Integer(i64),
    Real(Option<serde_json::Number>),
    Text(String),
    Blob(Vec<u8>),
}

/// `cell` is what the column holds.
pub open spec fn cell_holds(stored: Stored, cell: Cell) -> bool {
    match cell {
        Cell::Null => stored is Null,
        Cell::Integer(n) => stored == Stored::Integer(n),
        Cell::Real(n) => stored == Stored::Real(n),
        Cell::Text(s) => stored == Stored::Text(encode_utf8(s@)),
        Cell::Blob(b) => stored == Stored::Blob(b@),
    }
}

/// The cells are what the first columns of the row hold, as many as asked for.
pub open spec fn cells_hold(width: nat, stored: Seq<Stored>, cells: Seq<Cell>) -> bool {
    &&& cells.len() == width
    &&& width <= stored.len()
    &&& forall|i: int| 0 <= i < width ==> cell_holds(stored[i], #[trigger] cells[i])
}

// ---------------------------------------------------------------------------
// Refusals
// ---------------------------------------------------------------------------
/// The name of the kind of a value.
pub open spec fn kind_name(stored: Stored) -> Seq<char> {
    match stored {
        Stored::Null => "Null"@,
        Stored::Integer(_) => "Integer"@,
        Stored::Real(_) => "Real"@,
        Stored::Text(_) => "Text"@,
        Stored::Blob(_) => "Blob"@,
    }
}

/// The message of a column that the row does not have.
pub open spec fn no_such_column(i: int) -> Seq<char> {
    "Invalid column index: "@ + decimal(i as nat)
}

/// The message of a column that holds a value of another kind.
pub open spec fn wrong_kind(stored: Stored, i: int, name: Seq<char>) -> Seq<char> {
    "Invalid column type "@ + kind_name(stored) + " at index: "@ + decimal(i as nat) + (", name: "@
        + name)
}

/// The message of a text that is not UTF-8.
pub open spec fn bad_text(bytes: Seq<u8>, i: int) -> Seq<char> {
    "Conversion error from type Text at index: "@ + decimal(i as nat) + ", "@ + utf8_refusal(bytes)
}

/// The message of an integer that does not fit.
pub open spec fn out_of_range(n: i64, i: int) -> Seq<char> {
    "Integer "@ + signed_decimal(n as int) + " out of range at index "@ + decimal(i as nat)
}

/// What is asked of a column.
pub enum Wanted {
    Integer,
    /// An integer that fits in 32 signed bits.
    SmallInteger,
    Text,
    /// A text or NULL.
    OptionalText,
}

/// Why a column cannot be read as a text, if it cannot.
pub open spec fn text_refusal(stored: Stored, i: int, name: Seq<char>) -> Option<Seq<char>> {
    match stored {
        Stored::Text(bytes) => if valid_utf8(bytes) {
            None
        } else {
            Some(bad_text(bytes, i))
        },
        _ => Some(wrong_kind(stored, i, name)),
    }
}

/// Why a column cannot be read as asked, if it cannot.
pub open spec fn refusal(cells: Seq<Stored>, i: int, name: Seq<char>, wanted: Wanted) -> Option<
    Seq<char>,
> {
    if i >= cells.len() {
        Some(no_such_column(i))
    } else {
        match (wanted, cells[i]) {
            (Wanted::Integer, Stored::Integer(n)) => None,
            (Wanted::SmallInteger, Stored::Integer(n)) => if i32::MIN <= n <= i32::MAX {
                None
            } else {
                Some(out_of_range(n, i))
            },
            (Wanted::OptionalText, Stored::Null) => None,
            (Wanted::Integer, stored) => Some(wrong_kind(stored, i, name)),
            (Wanted::SmallInteger, stored) => Some(wrong_kind(stored, i, name)),
            (_, stored) => text_refusal(stored, i, name),
        }
    }
}

/// Why a column cannot be read as a cell, if it cannot.
pub open spec fn cell_refusal(cells: Seq<Stored>, i: int) -> Option<Seq<char>> {
    if i >= cells.len() {
        Some(no_such_column(i))
    } else {
        match cells[i] {
            Stored::Text(bytes) => if valid_utf8(bytes) {
                None
            } else {
                Some(bad_text(bytes, i))
            },
            _ => None,
        }
    }
}

/// The first refusal of a list, if there is one.
pub open spec fn first_of(refusals: Seq<Option<Seq<char>>>) -> Option<Seq<char>>
    decreases refusals.len(),
{
    if refusals.len() == 0 {
        None
    } else if refusals[0] is Some {
        refusals[0]
    } else {
        first_of(refusals.skip(1))
    }
}

/// The refusal that comes first is the one that counts.
pub proof fn first_of_is_first(refusals: Seq<Option<Seq<char>>>, n: int)
    requires
        0 <= n <= refusals.len(),
        forall|i: int| 0 <= i < n ==> #[trigger] refusals[i] is None,
        n < refusals.len() ==> refusals[n] is Some,
    ensures
        first_of(refusals) == (if n < refusals.len() {
            refusals[n]
        } else {
            None
        }),
    decreases refusals.len(),
{
    if n > 0 {
        let rest = refusals.skip(1);
        assert forall|i: int| 0 <= i < n - 1 implies #[trigger] rest[i] is None by {
            assert(rest[i] == refusals[i + 1]);
        }
        if n < refusals.len() {
            assert(rest[n - 1] == refusals[n]);
        }
        first_of_is_first(rest, n - 1);
    }
}

// ---------------------------------------------------------------------------
// Columns
// ---------------------------------------------------------------------------
/// The message of bytes that are not UTF-8.
pub uninterp spec fn utf8_refusal(bytes: Seq<u8>) -> Seq<char>;

/// `String::from_utf8`: the text that the bytes encode, or an error where they
/// are not UTF-8. The message of the error depends on the bytes alone;
/// [`utf8_refusal`] names it.
#[verifier::external_body]
pub(crate) fn decode_text(bytes: Vec<u8>) -> (r: Result<String, String>)
    ensures
        match r {
            Ok(s) => encode_utf8(s@) == bytes@,
            Err(e) => !valid_utf8(bytes@) && e@ == utf8_refusal(bytes@),
        },
{
    String::from_utf8(bytes).map_err(|e| e.to_string())
}

fn index_text(i: usize) -> (r: String)
    ensures
        r@ == decimal(i as nat),
{
    u64_text(i as u64)
}

fn refuse_kind(kind: &str, i: usize, name: &str) -> (r: String)
    ensures
        r@ == "Invalid column type "@ + kind@ + " at index: "@ + decimal(i as nat) + (", name: "@
            + name@),
{
    let index = index_text(i);
    let end = join2(", name: ", name);
    join5("Invalid column type ", kind, " at index: ", index.as_str(), end.as_str())
}

fn kind_text(raw: &RawCell) -> (r: &'static str)
    ensures
        r@ == kind_name(raw.stored()),
{
    match raw {
        RawCell::Null => "Null",
        RawCell::Integer(_) => "Integer",
        RawCell::Real(_) => "Real",
        RawCell::Text(_) => "Text",
        RawCell::Blob(_) => "Blob",
    }
}

fn decode_column(bytes: Vec<u8>, i: usize) -> (r: Result<String, String>)
    ensures
        match r {
            Ok(s) => encode_utf8(s@) == bytes@ && valid_utf8(bytes@),
            Err(e) => !valid_utf8(bytes@) && e@ == bad_text(bytes@, i as int),
        },
{
    match decode_text(bytes) {
        Ok(s) => {
            proof {
                encode_utf8_valid_utf8(s@);
            }
            Ok(s)
        },
        Err(e) => {
            let index = index_text(i);
            Err(
                join4(
                    "Conversion error from type Text at index: ",
                    index.as_str(),
                    ", ",
                    e.as_str(),
                ),
            )
        },
    }
}

/// The 64-bit integer in a column.
fn read_i64(row: &rusqlite::Row<'_>, i: usize, name: &str) -> (r: Result<i64, String>)
    ensures
        match r {
            Ok(n) => holds_integer(row_cells(row), i as int, n as int) && refusal(
                row_cells(row),
                i as int,
                name@,
                Wanted::Integer,
            ) is None,
            Err(e) => refusal(row_cells(row), i as int, name@, Wanted::Integer) == Some(e@),
        },
{
    match column_raw(row, i) {
        Ok(RawCell::Integer(n)) => Ok(n),
        Ok(raw) => Err(refuse_kind(kind_text(&raw), i, name)),
        Err(e) => Err(e),
    }
}

/// The 32-bit integer in a column.
fn read_i32(row: &rusqlite::Row<'_>, i: usize, name: &str) -> (r: Result<i32, String>)
    ensures
        match r {
            Ok(n) => holds_integer(row_cells(row), i as int, n as int) && refusal(
                row_cells(row),
                i as int,
                name@,
                Wanted::SmallInteger,
            ) is None,
            Err(e) => refusal(row_cells(row), i as int, name@, Wanted::SmallInteger) == Some(e@),
        },
{
    match column_raw(row, i) {
        Ok(RawCell::Integer(n)) => if i32::MIN as i64 <= n && n <= i32::MAX as i64 {
            Ok(n as i32)
        } else {
            let number = i64_text(n);
            let index = index_text(i);
            Err(join4("Integer ", number.as_str(), " out of range at index ", index.as_str()))
        },
        Ok(raw) => Err(refuse_kind(kind_text(&raw), i, name)),
        Err(e) => Err(e),
    }
}

/// The text in a column.
pub(crate) fn read_text(row: &rusqlite::Row<'_>, i: usize, name: &str) -> (r: Result<
    String,
    String,
>)
    ensures
        match r {
            Ok(s) => holds_text(row_cells(row), i as int, s@) && refusal(
                row_cells(row),
                i as int,
                name@,
                Wanted::Text,
            ) is None,
            Err(e) => refusal(row_cells(row), i as int, name@, Wanted::Text) == Some(e@),
        },
{
    match column_raw(row, i) {
        Ok(RawCell::Text(bytes)) => decode_column(bytes, i),
        Ok(raw) => Err(refuse_kind(kind_text(&raw), i, name)),
        Err(e) => Err(e),
    }
}

/// The text in a column, or `None` where it holds NULL.
fn read_optional_text(row: &rusqlite::Row<'_>, i: usize, name: &str) -> (r: Result<
    Option<String>,
    String,
>)
    ensures
        match r {
            Ok(Some(s)) => holds_optional_text(row_cells(row), i as int, Some(s@)) && refusal(
                row_cells(row),
                i as int,
                name@,
                Wanted::OptionalText,
            ) is None,
            Ok(None) => holds_optional_text(row_cells(row), i as int, None) && refusal(
                row_cells(row),
                i as int,
                name@,
                Wanted::OptionalText,
            ) is None,
            Err(e) => refusal(row_cells(row), i as int, name@, Wanted::OptionalText) == Some(e@),
        },
{
    match column_raw(row, i) {
        Ok(RawCell::Null) => Ok(None),
        Ok(RawCell::Text(bytes)) => match decode_column(bytes, i) {
            Ok(s) => Ok(Some(s)),
            Err(e) => Err(e),
        },
        Ok(raw) => Err(refuse_kind(kind_text(&raw), i, name)),
        Err(e) => Err(e),
    }
}

/// The value in a column, whatever it is.
fn read_cell(row: &rusqlite::Row<'_>, i: usize) -> (r: Result<Cell, String>)
    ensures
        match r {
            Ok(cell) => i < row_cells(row).len() && cell_holds(row_cells(row)[i as int], cell)
                && cell_refusal(row_cells(row), i as int) is None,
            Err(e) => cell_refusal(row_cells(row), i as int) == Some(e@),
        },
{
    match column_raw(row, i) {
        Ok(RawCell::Null) => Ok(Cell::Null),
        Ok(RawCell::Integer(n)) => Ok(Cell::Integer(n)),
        Ok(RawCell::Real(n)) => Ok(Cell::Real(n)),
        Ok(RawCell::Text(bytes)) => match decode_column(bytes, i) {
            Ok(s) => Ok(Cell::Text(s)),
            Err(e) => Err(e),
        },
        Ok(RawCell::Blob(b)) => Ok(Cell::Blob(b)),
        Err(e) => Err(e),
    }
}

// ---------------------------------------------------------------------------
// Rows
// ---------------------------------------------------------------------------
/// A way to read a row.
pub trait RowReader<T> {
    /// The row holds this value.
    spec fn holds(&self, cells: Seq<Stored>, value: T) -> bool;

    /// Why the row cannot be read, if it cannot.
    spec fn refuses(&self, cells: Seq<Stored>) -> Option<Seq<char>>;

    /// Reads a row.
    fn read(&self, row: &rusqlite::Row<'_>) -> (r: Result<T, String>)
        ensures
            match r {
                Ok(value) => self.holds(row_cells(row), value) && self.refuses(
                    row_cells(row),
                ) is None,
                Err(e) => self.refuses(row_cells(row)) == Some(e@),
            },
    ;
}

/// Reads change records.
pub struct RecordReader;

/// Reads the cells of the first columns.
pub struct CellReader {
    /// The number of columns.
    pub width: usize,
}

/// Why each column of a change record cannot be read, if it cannot.
pub open spec fn record_refusals(cells: Seq<Stored>) -> Seq<Option<Seq<char>>> {
    seq![
        refusal(cells, 0, "id"@, Wanted::Integer),
        refusal(cells, 1, "table_name"@, Wanted::Text),
        refusal(cells, 2, "doc_id"@, Wanted::Text),
        refusal(cells, 3, "operation"@, Wanted::Text),
        refusal(cells, 4, "data"@, Wanted::OptionalText),
        refusal(cells, 5, "timestamp"@, Wanted::Text),
        refusal(cells, 6, "synced"@, Wanted::SmallInteger),
        refusal(cells, 7, "sync_error"@, Wanted::OptionalText),
    ]
}

/// Why each of the first columns cannot be read, if it cannot.
pub open spec fn cell_refusals(width: nat, cells: Seq<Stored>) -> Seq<Option<Seq<char>>> {
    Seq::new(width, |i: int| cell_refusal(cells, i))
}

impl RowReader<ChangeRecord> for RecordReader {
    open spec fn holds(&self, cells: Seq<Stored>, value: ChangeRecord) -> bool {
        record_in(cells, value)
    }

    open spec fn refuses(&self, cells: Seq<Stored>) -> Option<Seq<char>> {
        first_of(record_refusals(cells))
    }

    fn read(&self, row: &rusqlite::Row<'_>) -> (r: Result<ChangeRecord, String>) {
        let ghost refusals = record_refusals(row_cells(row));
        let id = match read_i64(row, 0, "id") {
            Ok(id) => id,
            Err(e) => {
                proof {
                    first_of_is_first(refusals, 0);
                }
                return Err(e);
            },
        };
        let table_name = match read_text(row, 1, "table_name") {
            Ok(text) => text,
            Err(e) => {
                proof {
                    first_of_is_first(refusals, 1);
                }
                return Err(e);
            },
        };
        let doc_id = match read_text(row, 2, "doc_id") {
            Ok(text) => text,
            Err(e) => {
                proof {
                    first_of_is_first(refusals, 2);
                }
                return Err(e);
            },
        };
        let operation = match read_text(row, 3, "operation") {
            Ok(text) => text,
            Err(e) => {
                proof {
                    first_of_is_first(refusals, 3);
                }
                return Err(e);
            },
        };
        let data = match read_optional_text(row, 4, "data") {
            Ok(text) => text,
            Err(e) => {
                proof {
                    first_of_is_first(refusals, 4);
                }
                return Err(e);
            },
        };
        let timestamp = match read_text(row, 5, "timestamp") {
            Ok(text) => text,
            Err(e) => {
                proof {
                    first_of_is_first(refusals, 5);
                }
                return Err(e);
            },
        };
        let synced = match read_i32(row, 6, "synced") {
            Ok(n) => n,
            Err(e) => {
                proof {
                    first_of_is_first(refusals, 6);
                }
                return Err(e);
            },
        };
        let sync_error = match read_optional_text(row, 7, "sync_error") {
            Ok(text) => text,
            Err(e) => {
                proof {
                    first_of_is_first(refusals, 7);
                }
                return Err(e);
            },
        };
        proof {
            first_of_is_first(refusals, 8);
        }
        Ok(
            ChangeRecord {
                id,
                table_name,
                doc_id,
                operation,
                data,
                timestamp,
                synced,
                sync_error,
            },
        )
    }
}

impl RowReader<Vec<Cell>> for CellReader {
    open spec fn holds(&self, cells: Seq<Stored>, value: Vec<Cell>) -> bool {
        cells_hold(self.width as nat, cells, value@)
    }

    open spec fn refuses(&self, cells: Seq<Stored>) -> Option<Seq<char>> {
        first_of(cell_refusals(self.width as nat, cells))
    }

    fn read(&self, row: &rusqlite::Row<'_>) -> (r: Result<Vec<Cell>, String>) {
        let ghost refusals = cell_refusals(self.width as nat, row_cells(row));
        let mut cells: Vec<Cell> = Vec::new();
        let mut i: usize = 0;
        while i < self.width
            invariant
                i <= self.width,
                i <= row_cells(row).len(),
                cells.len() == i,
                refusals == cell_refusals(self.width as nat, row_cells(row)),
                forall|j: int| 0 <= j < i ==> cell_holds(row_cells(row)[j], #[trigger] cells@[j]),
                forall|j: int| 0 <= j < i ==> #[trigger] refusals[j] is None,
            decreases self.width - i,
        {
            match read_cell(row, i) {
                Ok(cell) => {
                    cells.push(cell);
                },
                Err(e) => {
                    proof {
                        first_of_is_first(refusals, i as int);
                    }
                    return Err(e);
                },
            }
            i = i + 1;
        }
        proof {
            first_of_is_first(refusals, i as int);
        }
        Ok(cells)
    }
}

// ---------------------------------------------------------------------------
// Laws
// ---------------------------------------------------------------------------
/// A row that holds a change record is not refused.
pub proof fn row_with_a_record_is_read(cells: Seq<Stored>, record: ChangeRecord)
    requires
        record_in(cells, record),
    ensures
        RecordReader.refuses(cells) is None,
{
    encode_utf8_valid_utf8(record.table_name@);
    encode_utf8_valid_utf8(record.doc_id@);
    encode_utf8_valid_utf8(record.operation@);
    encode_utf8_valid_utf8(record.timestamp@);
    if record.data is Some {
        encode_utf8_valid_utf8(record.data->0@);
    }
    if record.sync_error is Some {
        encode_utf8_valid_utf8(record.sync_error->0@);
    }
    first_of_is_first(record_refusals(cells), 8);
}

/// A row that holds cells in its first columns is not refused.
pub proof fn row_with_cells_is_read(width: usize, stored: Seq<Stored>, cells: Seq<Cell>)
    requires
        cells_hold(width as nat, stored, cells),
    ensures
        (CellReader { width }).refuses(stored) is None,
{
    let refusals = cell_refusals(width as nat, stored);
    assert forall|i: int| 0 <= i < width implies #[trigger] refusals[i] is None by {
        assert(cell_holds(stored[i], cells[i]));
        if let Cell::Text(s) = cells[i] {
            encode_utf8_valid_utf8(s@);
        }
    }
    first_of_is_first(refusals, width as int);
}

} // verus!

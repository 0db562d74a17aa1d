//! Writing the server's version of a document into a local table.

use crate::json::{json_display, json_text};
use crate::schema::table_columns;
use crate::sql::{text_value, Command, CommandView, SqlValue, SqlValueView};
use crate::text::{join3, join5, join_list, joined, texts};
use vstd::prelude::*;

verus! {

/// The columns that are written with a document. The time of creation is among
/// them because a business table gives it no default; so a table without that
/// column takes no documents, and a default that a table gives it is not used.
pub open spec fn upsert_columns() -> Seq<Seq<char>> {
    seq!["_id"@, "data"@, "createdAt"@, "updatedAt"@, "_deleted"@]
}

/// The time of creation of a document: that of the local version, where there
/// is one, else the time of the server's version.
pub open spec fn created_at_value(table: Seq<char>) -> Seq<char> {
    "COALESCE((SELECT createdAt FROM ["@ + table + "] WHERE _id = ?1), ?3)"@
}

/// What is written to these columns.
pub open spec fn upsert_values(table: Seq<char>) -> Seq<Seq<char>> {
    seq!["?1"@, "?2"@, created_at_value(table), "?3"@, "0"@]
}

/// The text that replaces a document of a table, or adds it.
pub open spec fn upsert_sql(table: Seq<char>) -> Seq<char> {
    "INSERT OR REPLACE INTO ["@ + table + "] ("@ + joined(upsert_columns(), ", "@) + ") VALUES ("@
        + joined(upsert_values(table), ", "@) + ")"@
}

/// A document can be written into every business table: each column is given a
/// value, and no column that a row must name is left out.
pub proof fn upsert_fills_every_required_column(table: Seq<char>, i: int)
    requires
        0 <= i < table_columns().len(),
        table_columns()[i].constraint is Required,
    ensures
        upsert_columns().contains(table_columns()[i].name),
        upsert_columns().len() == upsert_values(table).len(),
{
    let columns = table_columns();
    assert(i == 4 || i == 5 || i == 9) by {
        assert(!(columns[0].constraint is Required));
        assert(!(columns[1].constraint is Required));
        assert(!(columns[2].constraint is Required));
        assert(!(columns[3].constraint is Required));
        assert(!(columns[6].constraint is Required));
        assert(!(columns[7].constraint is Required));
        assert(!(columns[8].constraint is Required));
    }
    assert(upsert_columns()[1] == columns[9].name);
    assert(upsert_columns()[2] == columns[4].name);
    assert(upsert_columns()[3] == columns[5].name);
}

/// A document is written into columns that every business table has, and into
/// none twice.
pub proof fn upsert_names_columns_of_the_table(j: int, k: int)
    requires
        0 <= j < upsert_columns().len(),
        0 <= k < upsert_columns().len(),
    ensures
        exists|i: int|
            0 <= i < table_columns().len() && #[trigger] table_columns()[i].name
                == upsert_columns()[j],
        upsert_columns()[j] == upsert_columns()[k] ==> j == k,
{
    reveal_strlit("_id");
    reveal_strlit("data");
    reveal_strlit("createdAt");
    reveal_strlit("updatedAt");
    reveal_strlit("_deleted");
    let names = upsert_columns();
    assert(names[0].len() == 3 && names[1].len() == 4 && names[4].len() == 8);
    assert(names[2][0] == 'c' && names[3][0] == 'u');
    assert(names[2].len() == 9 && names[3].len() == 9);
    let i: int = if j == 0 {
        0
    } else if j == 1 {
        9
    } else if j == 2 {
        4
    } else if j == 3 {
        5
    } else {
        6
    };
    assert(table_columns()[i].name == names[j]);
}

/// The command that puts the server's version of a document in place of the
/// local one, undeleted.
pub open spec fn upsert_command(
    table: Seq<char>,
    doc_id: Seq<char>,
    data: serde_json::Value,
    updated_at: Seq<char>,
    failure: Seq<char>,
) -> CommandView {
    CommandView {
        sql: upsert_sql(table),
        params: seq![
            SqlValueView::Text(doc_id),
            SqlValueView::Text(json_display(data)),
            SqlValueView::Text(updated_at),
        ],
        failure,
    }
}

fn upsert_text(table: &str) -> (r: String)
    ensures
        r@ == upsert_sql(table@),
{
    let mut columns: Vec<String> = Vec::new();
    columns.push("_id".to_owned());
    columns.push("data".to_owned());
    columns.push("createdAt".to_owned());
    columns.push("updatedAt".to_owned());
    columns.push("_deleted".to_owned());
    assert(texts(columns@) =~= upsert_columns());
    let mut written: Vec<String> = Vec::new();
    written.push("?1".to_owned());
    written.push("?2".to_owned());
    written.push(
        join3("COALESCE((SELECT createdAt FROM [", table, "] WHERE _id = ?1), ?3)"),
    );
    written.push("?3".to_owned());
    written.push("0".to_owned());
    assert(texts(written@) =~= upsert_values(table@));
    let names = join_list(&columns, ", ");
    let list = join_list(&written, ", ");
    let mut sql = join5("INSERT OR REPLACE INTO [", table, "] (", names.as_str(), ") VALUES (");
    sql.append(list.as_str());
    sql.append(")");
    sql
}

/// The command that puts the server's version of a document in place of the
/// local one.
pub fn upsert_of(
    table: &str,
    doc_id: &str,
    data: &serde_json::Value,
    updated_at: &str,
    failure: String,
) -> (r: Command)
    ensures
        r@ == upsert_command(table@, doc_id@, *data, updated_at@, failure@),
{
    let sql = upsert_text(table);
    let mut params: Vec<SqlValue> = Vec::new();
    params.push(text_value(doc_id));
    params.push(SqlValue::Text(json_text(data)));
    params.push(text_value(updated_at));
    let r = Command { sql, params, failure };
    assert(r@ =~= upsert_command(table@, doc_id@, *data, updated_at@, failure@));
    r
}

} // verus!

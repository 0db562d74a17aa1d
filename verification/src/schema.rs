//! Tables for documents, their indexes, and the change-log table.

use crate::driver::outcome_of;
use crate::request::{run_script, script_ran, script_steps, scripts_compose};
use crate::sql::{commands, plain_command, Command, CommandView};
use crate::store::Store;
use crate::text::{join2, join3, join5, join_list, joined, texts};
use vstd::prelude::*;

verus! {

/// Describes an additional JSON-extract index on the `data` column.
#[derive(Debug, Clone)]
pub struct JsonIndex {
    /// Index suffix name (used in `idx_{table}_{name}`).
    pub name: String,
    /// JSON path inside the `data` column, e.g. `"properties.area"`.
    pub json_path: String,
}

/// Schema definition for a single business table.
///
/// The table is created with its standard indexes, optional `json_extract`
/// indexes, and the shared `_change_log` table (once per database).
#[derive(Debug, Clone)]
pub struct TableSchema {
    /// Table name (must be a valid SQLite identifier).
    pub name: String,
    /// Optional extra indexes on `json_extract(data, '$.{json_path}')`.
    pub json_indexes: Vec<JsonIndex>,
}

// ---------------------------------------------------------------------------
// The commands of a schema
// ---------------------------------------------------------------------------
/// What every command that creates a table starts with.
pub const CREATE_TABLE: &'static str = "CREATE TABLE IF NOT EXISTS ";

/// What every command that creates an index starts with.
pub const CREATE_INDEX: &'static str = "CREATE INDEX IF NOT EXISTS ";

/// What becomes of a column that a new row does not name.
#[derive(Debug, Clone, Copy)]
pub enum Constraint {
    /// It holds the key by which the row is found.
    PrimaryKey,
    /// It is left empty.
    Optional,
    /// The row is refused.
    Required,
    /// It takes this value.
    Default(&'static str),
}

/// A column of a table.
#[derive(Debug, Clone, Copy)]
pub struct Column {
    pub name: &'static str,
    /// The type of its values.
    pub affinity: &'static str,
    pub constraint: Constraint,
}

/// What a [`Constraint`] is, over sequences.
#[verifier::ext_equal]
pub enum ConstraintView {
    PrimaryKey,
    Optional,
    Required,
    Default(Seq<char>),
}

/// What a [`Column`] is, over sequences.
#[verifier::ext_equal]
pub struct ColumnView {
    pub name: Seq<char>,
    pub affinity: Seq<char>,
    pub constraint: ConstraintView,
}

impl View for Constraint {
    type V = ConstraintView;

    open spec fn view(&self) -> ConstraintView {
        match self {
            Constraint::PrimaryKey => ConstraintView::PrimaryKey,
            Constraint::Optional => ConstraintView::Optional,
            Constraint::Required => ConstraintView::Required,
            Constraint::Default(value) => ConstraintView::Default(value@),
        }
    }
}

impl View for Column {
    type V = ColumnView;

    open spec fn view(&self) -> ColumnView {
        ColumnView {
            name: self.name@,
            affinity: self.affinity@,
            constraint: self.constraint@,
        }
    }
}

/// A column by its parts.
pub open spec fn column(
    name: Seq<char>,
    affinity: Seq<char>,
    constraint: ConstraintView,
) -> ColumnView {
    ColumnView { name, affinity, constraint }
}

/// The columns of a business table.
pub open spec fn table_columns() -> Seq<ColumnView> {
    seq![
        column("_id"@, "TEXT"@, ConstraintView::PrimaryKey),
        column("uid"@, "INTEGER"@, ConstraintView::Optional),
        column("companyId"@, "INTEGER"@, ConstraintView::Optional),
        column("p_id"@, "TEXT"@, ConstraintView::Optional),
        column("createdAt"@, "TEXT"@, ConstraintView::Required),
        column("updatedAt"@, "TEXT"@, ConstraintView::Required),
        column("_deleted"@, "INTEGER"@, ConstraintView::Default("0"@)),
        column("_version"@, "INTEGER"@, ConstraintView::Default("1"@)),
        column("_status"@, "TEXT"@, ConstraintView::Default("'synced'"@)),
        column("data"@, "TEXT"@, ConstraintView::Required),
    ]
}

/// How a constraint is written behind its column.
pub open spec fn constraint_text(constraint: ConstraintView) -> Seq<char> {
    match constraint {
        ConstraintView::PrimaryKey => " PRIMARY KEY"@,
        ConstraintView::Optional => Seq::empty(),
        ConstraintView::Required => " NOT NULL"@,
        ConstraintView::Default(value) => " DEFAULT "@ + value,
    }
}

/// How a column is written.
pub open spec fn column_text(column: ColumnView) -> Seq<char> {
    column.name + " "@ + column.affinity + constraint_text(column.constraint)
}

/// How the columns of a table are written.
pub open spec fn columns_text(columns: Seq<ColumnView>) -> Seq<char> {
    joined(columns.map_values(|c: ColumnView| column_text(c)), ", "@)
}

/// The `_change_log` table and its index.
pub const CHANGE_LOG_TABLE: &'static str = "_change_log (
            id          INTEGER PRIMARY KEY AUTOINCREMENT,
            table_name  TEXT NOT NULL,
            doc_id      TEXT NOT NULL,
            operation   TEXT NOT NULL,
            data        TEXT,
            timestamp   TEXT NOT NULL,
            synced      INTEGER DEFAULT 0,
            sync_error  TEXT
        );
        CREATE INDEX IF NOT EXISTS idx_change_log_synced ON _change_log(synced, timestamp);";

/// Creates a business table with its fixed metadata columns.
pub open spec fn table_command(table: Seq<char>) -> CommandView {
    plain_command(
        CREATE_TABLE@ + "["@ + table + "] ("@ + columns_text(table_columns()) + ")"@,
        "Failed to create table '"@ + table + "': "@,
    )
}

/// Creates an index on a column.
pub open spec fn column_index_command(
    table: Seq<char>,
    suffix: Seq<char>,
    column: Seq<char>,
) -> CommandView {
    plain_command(
        CREATE_INDEX@ + "[idx_"@ + table + "_"@ + suffix + "] ON ["@ + table + "]("@ + column
            + ")"@,
        "Failed to create index idx_"@ + table + "_"@ + suffix + ": "@,
    )
}

/// Creates an index on a path inside the documents.
pub open spec fn json_index_command(table: Seq<char>, index: JsonIndex) -> CommandView {
    plain_command(
        CREATE_INDEX@ + "[idx_"@ + table + "_"@ + index.name@ + "] ON ["@ + table
            + "](json_extract(data, '$."@ + index.json_path@ + "'))"@,
        "Failed to create json index idx_"@ + table + "_"@ + index.name@ + ": "@,
    )
}

/// Creates the `_change_log` table and its index.
pub open spec fn change_log_command() -> CommandView {
    plain_command(CREATE_TABLE@ + CHANGE_LOG_TABLE@, "Failed to create _change_log table: "@)
}

/// The indexes that every business table has.
pub open spec fn standard_indexes(table: Seq<char>) -> Seq<CommandView> {
    seq![
        column_index_command(table, "uid"@, "uid"@),
        column_index_command(table, "companyId"@, "companyId"@),
        column_index_command(table, "p_id"@, "p_id"@),
        column_index_command(table, "updatedAt"@, "updatedAt"@),
        column_index_command(table, "deleted"@, "_deleted"@),
        column_index_command(table, "status"@, "_status"@),
    ]
}

/// The indexes that a schema adds.
pub open spec fn extra_indexes(schema: TableSchema) -> Seq<CommandView> {
    schema.json_indexes@.map_values(|index: JsonIndex| json_index_command(schema.name@, index))
}

/// All commands that create a table, in order.
pub open spec fn table_script(schema: TableSchema) -> Seq<CommandView> {
    seq![table_command(schema.name@)] + standard_indexes(schema.name@) + extra_indexes(schema)
        + seq![change_log_command()]
}

/// All commands that create several tables, in order.
pub open spec fn tables_script(schemas: Seq<TableSchema>) -> Seq<CommandView>
    decreases schemas.len(),
{
    if schemas.len() == 0 {
        Seq::empty()
    } else {
        tables_script(schemas.drop_last()) + table_script(schemas.last())
    }
}

fn text_of_column(column: &Column) -> (r: String)
    ensures
        r@ == column_text(column@),
{
    let mut text = join3(column.name, " ", column.affinity);
    match column.constraint {
        Constraint::PrimaryKey => {
            text.append(" PRIMARY KEY");
        },
        Constraint::Optional => {},
        Constraint::Required => {
            text.append(" NOT NULL");
        },
        Constraint::Default(value) => {
            text.append(" DEFAULT ");
            text.append(value);
        },
    }
    assert(text@ =~= column_text(column@));
    text
}

/// The columns of a business table, in order.
pub fn business_columns() -> (r: Vec<Column>)
    ensures
        r@.map_values(|c: Column| c@) == table_columns(),
{
    let mut list: Vec<Column> = Vec::new();
    list.push(Column { name: "_id", affinity: "TEXT", constraint: Constraint::PrimaryKey });
    list.push(Column { name: "uid", affinity: "INTEGER", constraint: Constraint::Optional });
    list.push(Column { name: "companyId", affinity: "INTEGER", constraint: Constraint::Optional });
    list.push(Column { name: "p_id", affinity: "TEXT", constraint: Constraint::Optional });
    list.push(Column { name: "createdAt", affinity: "TEXT", constraint: Constraint::Required });
    list.push(Column { name: "updatedAt", affinity: "TEXT", constraint: Constraint::Required });
    list.push(
        Column { name: "_deleted", affinity: "INTEGER", constraint: Constraint::Default("0") },
    );
    list.push(
        Column { name: "_version", affinity: "INTEGER", constraint: Constraint::Default("1") },
    );
    list.push(
        Column { name: "_status", affinity: "TEXT", constraint: Constraint::Default("'synced'") },
    );
    list.push(Column { name: "data", affinity: "TEXT", constraint: Constraint::Required });
    assert(list@.map_values(|c: Column| c@) =~= table_columns());
    list
}

fn text_of_columns(columns: &Vec<Column>) -> (r: String)
    ensures
        r@ == columns_text(columns@.map_values(|c: Column| c@)),
{
    let mut list: Vec<String> = Vec::new();
    let mut i: usize = 0;
    while i < columns.len()
        invariant
            i <= columns.len(),
            list.len() == i,
            forall|j: int| 0 <= j < i ==> #[trigger] list@[j]@ == column_text(columns@[j]@),
        decreases columns.len() - i,
    {
        list.push(text_of_column(&columns[i]));
        i = i + 1;
    }
    assert(texts(list@) =~= columns@.map_values(|c: Column| c@).map_values(
        |c: ColumnView| column_text(c),
    ));
    join_list(&list, ", ")
}

fn create_table_of(table: &str) -> (r: Command)
    ensures
        r@ == table_command(table@),
{
    let columns = business_columns();
    let list = text_of_columns(&columns);
    let mut sql = CREATE_TABLE.to_owned();
    sql.append("[");
    sql.append(table);
    sql.append("] (");
    sql.append(list.as_str());
    sql.append(")");
    Command::plain(sql, join3("Failed to create table '", table, "': "))
}

fn create_column_index_of(table: &str, suffix: &str, column: &str) -> (r: Command)
    ensures
        r@ == column_index_command(table@, suffix@, column@),
{
    let mut sql = CREATE_INDEX.to_owned();
    sql.append("[idx_");
    sql.append(table);
    sql.append("_");
    sql.append(suffix);
    sql.append("] ON [");
    sql.append(table);
    sql.append("](");
    sql.append(column);
    sql.append(")");
    Command::plain(sql, join5("Failed to create index idx_", table, "_", suffix, ": "))
}

fn create_json_index_of(table: &str, index: &JsonIndex) -> (r: Command)
    ensures
        r@ == json_index_command(table@, *index),
{
    let mut sql = CREATE_INDEX.to_owned();
    sql.append("[idx_");
    sql.append(table);
    sql.append("_");
    sql.append(index.name.as_str());
    sql.append("] ON [");
    sql.append(table);
    sql.append("](json_extract(data, '$.");
    sql.append(index.json_path.as_str());
    sql.append("'))");
    Command::plain(
        sql,
        join5("Failed to create json index idx_", table, "_", index.name.as_str(), ": "),
    )
}

/// The commands that create a table, in order.
pub fn table_commands(schema: &TableSchema) -> (r: Vec<Command>)
    ensures
        commands(r@) == table_script(*schema),
{
    let table = schema.name.as_str();
    let mut list: Vec<Command> = Vec::new();
    list.push(create_table_of(table));
    list.push(create_column_index_of(table, "uid", "uid"));
    list.push(create_column_index_of(table, "companyId", "companyId"));
    list.push(create_column_index_of(table, "p_id", "p_id"));
    list.push(create_column_index_of(table, "updatedAt", "updatedAt"));
    list.push(create_column_index_of(table, "deleted", "_deleted"));
    list.push(create_column_index_of(table, "status", "_status"));
    let ghost fixed = seq![table_command(table@)] + standard_indexes(table@);
    assert(commands(list@) =~= fixed);
    let mut i: usize = 0;
    while i < schema.json_indexes.len()
        invariant
            i <= schema.json_indexes.len(),
            table@ == schema.name@,
            fixed == seq![table_command(table@)] + standard_indexes(table@),
            commands(list@) == fixed + extra_indexes(*schema).take(i as int),
        decreases schema.json_indexes.len() - i,
    {
        let command = create_json_index_of(table, &schema.json_indexes[i]);
        proof {
            let extra = extra_indexes(*schema);
            assert(extra[i as int] == command@);
            assert(extra.take(i + 1) =~= extra.take(i as int).push(command@));
            assert(commands(list@.push(command)) =~= commands(list@).push(command@));
        }
        list.push(command);
        i = i + 1;
    }
    assert(extra_indexes(*schema).take(i as int) =~= extra_indexes(*schema));
    list.push(create_change_log_of());
    assert(commands(list@) =~= table_script(*schema));
    list
}

fn create_change_log_of() -> (r: Command)
    ensures
        r@ == change_log_command(),
{
    Command::plain(
        join2(CREATE_TABLE, CHANGE_LOG_TABLE),
        "Failed to create _change_log table: ".to_owned(),
    )
}

// ---------------------------------------------------------------------------
// Operations
// ---------------------------------------------------------------------------
/// Creates a business table together with its standard indexes and any extra
/// `json_extract` indexes, and ensures that the `_change_log` table exists.
pub fn create_table(store: &mut Store, schema: &TableSchema) -> (r: Result<(), String>)
    ensures
        final(store).conn() == old(store).conn(),
        script_ran(table_script(*schema), old(store).log(), final(store).log(), outcome_of(r)),
{
    let list = table_commands(schema);
    run_script(store, &list)
}

/// Creates several tables, up to the first command that is refused.
pub fn create_tables(store: &mut Store, schemas: &[TableSchema]) -> (r: Result<(), String>)
    ensures
        final(store).conn() == old(store).conn(),
        script_ran(tables_script(schemas@), old(store).log(), final(store).log(), outcome_of(r)),
{
    let ghost before = store.log();
    let mut i: usize = 0;
    assert(before =~= before + script_steps(tables_script(schemas@.take(0))));
    while i < schemas.len()
        invariant
            i <= schemas.len(),
            before == old(store).log(),
            store.conn() == old(store).conn(),
            script_ran(tables_script(schemas@.take(i as int)), before, store.log(), Ok(())),
        decreases schemas.len() - i,
    {
        let ghost middle = store.log();
        let r = create_table(store, &schemas[i]);
        proof {
            let done = schemas@.take(i as int);
            let now = schemas@.take(i + 1);
            assert(now.drop_last() =~= done);
            scripts_compose(
                tables_script(done),
                table_script(schemas@[i as int]),
                before,
                middle,
                store.log(),
                Ok(()),
                outcome_of(r),
            );
            if r is Err {
                tables_script_extends(schemas@, i + 1);
                let rest = choose|rest: Seq<CommandView>|
                    tables_script(schemas@) == #[trigger] (tables_script(now) + rest);
                scripts_compose(
                    tables_script(now),
                    rest,
                    before,
                    store.log(),
                    store.log(),
                    outcome_of(r),
                    outcome_of(r),
                );
            }
        }
        match r {
            Ok(_) => {},
            Err(e) => {
                return Err(e);
            },
        }
        i = i + 1;
    }
    assert(schemas@.take(i as int) =~= schemas@);
    Ok(())
}

proof fn tables_script_extends(schemas: Seq<TableSchema>, n: int)
    requires
        0 <= n <= schemas.len(),
    ensures
        exists|rest: Seq<CommandView>|
            tables_script(schemas) == #[trigger] (tables_script(schemas.take(n)) + rest),
    decreases schemas.len(),
{
    if n == schemas.len() {
        assert(schemas.take(n) =~= schemas);
        assert(tables_script(schemas) =~= tables_script(schemas.take(n)) + Seq::empty());
    } else {
        let shorter = schemas.drop_last();
        tables_script_extends(shorter, n);
        assert(shorter.take(n) =~= schemas.take(n));
        let rest = choose|rest: Seq<CommandView>|
            tables_script(shorter) == #[trigger] (tables_script(shorter.take(n)) + rest);
        let longer = rest + table_script(schemas.last());
        assert(tables_script(schemas) =~= tables_script(schemas.take(n)) + longer);
    }
}

// ---------------------------------------------------------------------------
// Laws
// ---------------------------------------------------------------------------
/// A text starts with another.
pub open spec fn starts_with(text: Seq<char>, prefix: Seq<char>) -> bool {
    exists|rest: Seq<char>| text == #[trigger] (prefix + rest)
}

/// A command that leaves a table or an index alone that exists already.
pub open spec fn tolerates_existing(command: CommandView) -> bool {
    starts_with(command.sql, CREATE_TABLE@) || starts_with(command.sql, CREATE_INDEX@)
}

/// Creating tables is idempotent as far as the commands go: each of them
/// creates only what does not exist yet.
pub proof fn tables_script_tolerates_existing(schemas: Seq<TableSchema>)
    ensures
        forall|i: int|
            0 <= i < tables_script(schemas).len() ==> tolerates_existing(
                #[trigger] tables_script(schemas)[i],
            ),
    decreases schemas.len(),
{
    if schemas.len() > 0 {
        tables_script_tolerates_existing(schemas.drop_last());
        let earlier = tables_script(schemas.drop_last());
        let last = table_script(schemas.last());
        assert forall|i: int| 0 <= i < tables_script(schemas).len() implies tolerates_existing(
            #[trigger] tables_script(schemas)[i],
        ) by {
            if i < earlier.len() {
                assert(tables_script(schemas)[i] == earlier[i]);
            } else {
                assert(tables_script(schemas)[i] == last[i - earlier.len()]);
                table_script_tolerates_existing(schemas.last(), i - earlier.len());
            }
        }
    }
}

proof fn starts_with_goes_on(text: Seq<char>, prefix: Seq<char>, more: Seq<char>)
    requires
        starts_with(text, prefix),
    ensures
        starts_with(text + more, prefix),
{
    let rest = choose|rest: Seq<char>| text == #[trigger] (prefix + rest);
    assert(text + more =~= prefix + (rest + more));
}

proof fn column_index_tolerates_existing(table: Seq<char>, suffix: Seq<char>, column: Seq<char>)
    ensures
        tolerates_existing(column_index_command(table, suffix, column)),
{
    let s1 = CREATE_INDEX@ + "[idx_"@;
    let s2 = s1 + table;
    let s3 = s2 + "_"@;
    let s4 = s3 + suffix;
    let s5 = s4 + "] ON ["@;
    let s6 = s5 + table;
    let s7 = s6 + "]("@;
    let s8 = s7 + column;
    starts_with_goes_on(s1, CREATE_INDEX@, table);
    starts_with_goes_on(s2, CREATE_INDEX@, "_"@);
    starts_with_goes_on(s3, CREATE_INDEX@, suffix);
    starts_with_goes_on(s4, CREATE_INDEX@, "] ON ["@);
    starts_with_goes_on(s5, CREATE_INDEX@, table);
    starts_with_goes_on(s6, CREATE_INDEX@, "]("@);
    starts_with_goes_on(s7, CREATE_INDEX@, column);
    starts_with_goes_on(s8, CREATE_INDEX@, ")"@);
}

proof fn json_index_tolerates_existing(table: Seq<char>, index: JsonIndex)
    ensures
        tolerates_existing(json_index_command(table, index)),
{
    let s1 = CREATE_INDEX@ + "[idx_"@;
    let s2 = s1 + table;
    let s3 = s2 + "_"@;
    let s4 = s3 + index.name@;
    let s5 = s4 + "] ON ["@;
    let s6 = s5 + table;
    let s7 = s6 + "](json_extract(data, '$."@;
    let s8 = s7 + index.json_path@;
    starts_with_goes_on(s1, CREATE_INDEX@, table);
    starts_with_goes_on(s2, CREATE_INDEX@, "_"@);
    starts_with_goes_on(s3, CREATE_INDEX@, index.name@);
    starts_with_goes_on(s4, CREATE_INDEX@, "] ON ["@);
    starts_with_goes_on(s5, CREATE_INDEX@, table);
    starts_with_goes_on(s6, CREATE_INDEX@, "](json_extract(data, '$."@);
    starts_with_goes_on(s7, CREATE_INDEX@, index.json_path@);
    starts_with_goes_on(s8, CREATE_INDEX@, "'))"@);
}

proof fn table_script_tolerates_existing(schema: TableSchema, i: int)
    requires
        0 <= i < table_script(schema).len(),
    ensures
        tolerates_existing(table_script(schema)[i]),
{
    let table = schema.name@;
    if i == 0 {
        let start = CREATE_TABLE@ + "["@;
        starts_with_goes_on(start, CREATE_TABLE@, table);
        let named = start + table + "] ("@;
        let listed = named + columns_text(table_columns());
        starts_with_goes_on(start + table, CREATE_TABLE@, "] ("@);
        starts_with_goes_on(named, CREATE_TABLE@, columns_text(table_columns()));
        starts_with_goes_on(listed, CREATE_TABLE@, ")"@);
    } else if i < 7 {
        column_index_tolerates_existing(table, "uid"@, "uid"@);
        column_index_tolerates_existing(table, "companyId"@, "companyId"@);
        column_index_tolerates_existing(table, "p_id"@, "p_id"@);
        column_index_tolerates_existing(table, "updatedAt"@, "updatedAt"@);
        column_index_tolerates_existing(table, "deleted"@, "_deleted"@);
        column_index_tolerates_existing(table, "status"@, "_status"@);
        assert(table_script(schema)[i] == standard_indexes(table)[i - 1]);
    } else if i < 7 + schema.json_indexes.len() {
        json_index_tolerates_existing(table, schema.json_indexes@[i - 7]);
        assert(table_script(schema)[i] == extra_indexes(schema)[i - 7]);
    } else {
        assert(table_script(schema)[i] == change_log_command());
    }
}

/// Whatever tables are created, the `_change_log` table is ensured last.
pub proof fn tables_script_ensures_change_log(schemas: Seq<TableSchema>)
    requires
        schemas.len() > 0,
    ensures
        tables_script(schemas).len() > 0,
        tables_script(schemas).last() == change_log_command(),
{
}

} // verus!

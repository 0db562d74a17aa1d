//! What a database is set up with: its settings, tables and indexes.

use crate::database::{
    connection_set_up, global_store, global_tables_command, journal_step, keeps_global,
    project_file_name, project_store, timeout_step, GLOBAL, GLOBAL_FILE,
};
use crate::driver::Step;
use crate::request::{script_ran, script_step, script_steps};
use crate::schema::{
    change_log_command, column_text, extra_indexes, json_index_command, standard_indexes,
    table_columns, table_command, table_script, tables_script, ColumnView, JsonIndex, TableSchema,
};
use crate::sql::{CommandView, SqlValueView};
use crate::store::Store;
use crate::text::joined;
use vstd::prelude::*;

verus! {

/// How the columns of a business table are written: the key, the owners, the
/// times of creation and change, the marks, and the document itself.
pub open spec fn business_column_texts() -> Seq<Seq<char>> {
    seq![
        "_id"@ + " "@ + "TEXT"@ + " PRIMARY KEY"@,
        "uid"@ + " "@ + "INTEGER"@,
        "companyId"@ + " "@ + "INTEGER"@,
        "p_id"@ + " "@ + "TEXT"@,
        "createdAt"@ + " "@ + "TEXT"@ + " NOT NULL"@,
        "updatedAt"@ + " "@ + "TEXT"@ + " NOT NULL"@,
        "_deleted"@ + " "@ + "INTEGER"@ + (" DEFAULT "@ + "0"@),
        "_version"@ + " "@ + "INTEGER"@ + (" DEFAULT "@ + "1"@),
        "_status"@ + " "@ + "TEXT"@ + (" DEFAULT "@ + "'synced'"@),
        "data"@ + " "@ + "TEXT"@ + " NOT NULL"@,
    ]
}

/// A business table is created with its columns, unless it exists.
pub proof fn business_table_has_its_columns(table: Seq<char>)
    ensures
        table_command(table).sql == "CREATE TABLE IF NOT EXISTS "@ + "["@ + table + "] ("@ + joined(
            business_column_texts(),
            ", "@,
        ) + ")"@,
        table_command(table).params.len() == 0,
        table_command(table).failure == "Failed to create table '"@ + table + "': "@,
{
    let columns = table_columns();
    let written = columns.map_values(|c: ColumnView| column_text(c));
    let expected = business_column_texts();
    assert(written.len() == expected.len());
    assert(written[1] =~= expected[1]);
    assert(written[2] =~= expected[2]);
    assert(written[3] =~= expected[3]);
    assert(written =~= expected);
}

/// The command that creates an index of a table on a column, unless it exists.
pub open spec fn indexes(
    command: CommandView,
    table: Seq<char>,
    name: Seq<char>,
    column: Seq<char>,
) -> bool {
    &&& command.sql == "CREATE INDEX IF NOT EXISTS "@ + "[idx_"@ + table + "_"@ + name + "] ON ["@
        + table + "]("@ + column + ")"@
    &&& command.params.len() == 0
    &&& command.failure == "Failed to create index idx_"@ + table + "_"@ + name + ": "@
}

/// The command that creates an index of a table on a path inside the documents,
/// unless it exists.
pub open spec fn indexes_path(command: CommandView, table: Seq<char>, index: JsonIndex) -> bool {
    &&& command.sql == "CREATE INDEX IF NOT EXISTS "@ + "[idx_"@ + table + "_"@ + index.name@
        + "] ON ["@ + table + "](json_extract(data, '$."@ + index.json_path@ + "'))"@
    &&& command.params.len() == 0
    &&& command.failure == "Failed to create json index idx_"@ + table + "_"@ + index.name@ + ": "@
}

/// A schema creates its table, the six standard indexes, an index for each path
/// that it names, in their order, and the change log with its index.
pub proof fn schema_creates_all_of_it(schema: TableSchema)
    ensures
        ({
            let script = table_script(schema);
            let table = schema.name@;
            let n = schema.json_indexes@.len() as int;
            &&& script.len() == n + 8
            &&& script[0] == table_command(table)
            &&& indexes(script[1], table, "uid"@, "uid"@)
            &&& indexes(script[2], table, "companyId"@, "companyId"@)
            &&& indexes(script[3], table, "p_id"@, "p_id"@)
            &&& indexes(script[4], table, "updatedAt"@, "updatedAt"@)
            &&& indexes(script[5], table, "deleted"@, "_deleted"@)
            &&& indexes(script[6], table, "status"@, "_status"@)
            &&& forall|i: int|
                0 <= i < n ==> indexes_path(
                    script[7 + i],
                    table,
                    #[trigger] schema.json_indexes@[i],
                )
            &&& script[n + 7].sql == "CREATE TABLE IF NOT EXISTS "@ + "_change_log (
            id          INTEGER PRIMARY KEY AUTOINCREMENT,
            table_name  TEXT NOT NULL,
            doc_id      TEXT NOT NULL,
            operation   TEXT NOT NULL,
            data        TEXT,
            timestamp   TEXT NOT NULL,
            synced      INTEGER DEFAULT 0,
            sync_error  TEXT
        );
        CREATE INDEX IF NOT EXISTS idx_change_log_synced ON _change_log(synced, timestamp);"@
            &&& script[n + 7].failure == "Failed to create _change_log table: "@
        }),
{
    let script = table_script(schema);
    let table = schema.name@;
    let n = schema.json_indexes@.len() as int;
    let standard = standard_indexes(table);
    let extra = extra_indexes(schema);
    assert(script[1] == standard[0]);
    assert(script[2] == standard[1]);
    assert(script[3] == standard[2]);
    assert(script[4] == standard[3]);
    assert(script[5] == standard[4]);
    assert(script[6] == standard[5]);
    assert forall|i: int| 0 <= i < n implies indexes_path(
        script[7 + i],
        table,
        #[trigger] schema.json_indexes@[i],
    ) by {
        assert(script[7 + i] == extra[i]);
        assert(extra[i] == json_index_command(table, schema.json_indexes@[i]));
    }
    assert(script[n + 7] == change_log_command());
}

/// Schemas are created one after the other.
pub proof fn schemas_are_created_in_order(schemas: Seq<TableSchema>, next: TableSchema)
    ensures
        tables_script(Seq::empty()) == Seq::<CommandView>::empty(),
        tables_script(schemas.push(next)) == tables_script(schemas) + table_script(next),
{
    assert(schemas.push(next).drop_last() =~= schemas);
}

/// A script runs command by command, in order, up to the first that is refused;
/// the message is the database's own, behind that command's words.
pub proof fn script_runs_in_order(
    list: Seq<CommandView>,
    before: Seq<Step>,
    after: Seq<Step>,
    r: Result<(), Seq<char>>,
)
    requires
        script_ran(list, before, after, r),
    ensures
        before.len() <= after.len() <= before.len() + list.len(),
        after.take(before.len() as int) == before,
        r is Ok ==> after.len() == before.len() + list.len() && forall|i: int|
            0 <= i < list.len() ==> after[before.len() + i] == (Step::Scripted {
                sql: (#[trigger] list[i]).sql,
                outcome: Ok(()),
            }),
        r matches Err(message) ==> {
            let n = after.len() - before.len() - 1;
            &&& 0 <= n < list.len()
            &&& after.last() is Scripted
            &&& after.last()->Scripted_sql == list[n].sql
            &&& after.last()->Scripted_outcome is Err
            &&& message == list[n].failure + after.last()->Scripted_outcome->Err_0
            &&& forall|i: int|
                0 <= i < n ==> after[before.len() + i] == (Step::Scripted {
                    sql: (#[trigger] list[i]).sql,
                    outcome: Ok(()),
                })
        },
{
    assert(after.take(before.len() as int) =~= before);
    match r {
        Ok(_) => {
            assert forall|i: int| 0 <= i < list.len() implies after[before.len() + i] == (
            Step::Scripted { sql: (#[trigger] list[i]).sql, outcome: Ok(()) }) by {
                assert(after[before.len() + i] == script_steps(list)[i]);
            }
        },
        Err(message) => {
            let (n, e) = choose|n: int, e: Seq<char>|
                0 <= n < list.len() && message == list[n].failure + e && after == before
                    + script_steps(list.take(n)) + seq![#[trigger] script_step(list[n], Err(e))];
            assert(after.last() == script_step(list[n], Err(e)));
            assert(after.len() == before.len() + n + 1);
            assert forall|i: int| 0 <= i < n implies after[before.len() + i] == (Step::Scripted {
                sql: (#[trigger] list[i]).sql,
                outcome: Ok(()),
            }) by {
                assert(after[before.len() + i] == script_steps(list.take(n))[i]);
                assert(list.take(n)[i] == list[i]);
            }
        },
    }
}

/// A connection is set up with a write-ahead log and a lock timeout of five
/// seconds, in that order; where the first is refused the second is not made.
pub proof fn connection_has_its_settings(
    before: Seq<Step>,
    after: Seq<Step>,
    r: Result<(), Seq<char>>,
)
    requires
        connection_set_up(before, after, r),
    ensures
        before.len() < after.len(),
        after.take(before.len() as int) == before,
        after[before.len() as int] is Configured,
        after[before.len() as int]->Configured_name == "journal_mode"@,
        after[before.len() as int]->Configured_value == SqlValueView::Text("WAL"@),
        match after[before.len() as int]->Configured_outcome {
            Err(e) => after.len() == before.len() + 1 && r == Err::<(), Seq<char>>(
                "Failed to enable WAL mode: "@ + e,
            ),
            Ok(_) => {
                &&& after.len() == before.len() + 2
                &&& after.last() is Configured
                &&& after.last()->Configured_name == "busy_timeout"@
                &&& after.last()->Configured_value == SqlValueView::Integer(5000)
                &&& match after.last()->Configured_outcome {
                    Ok(_) => r is Ok,
                    Err(e) => r == Err::<(), Seq<char>>("Failed to set busy_timeout: "@ + e),
                }
            },
        },
{
    let journal = choose|journal: Result<(), Seq<char>>|
        {
            let first = before.push(#[trigger] journal_step(journal));
            match journal {
                Err(e) => after == first && r == Err::<(), Seq<char>>(
                    "Failed to enable WAL mode: "@ + e,
                ),
                Ok(_) => exists|timeout: Result<(), Seq<char>>|
                    after == first.push(#[trigger] timeout_step(timeout)) && match timeout {
                        Err(e) => r == Err::<(), Seq<char>>("Failed to set busy_timeout: "@ + e),
                        Ok(_) => r is Ok,
                    },
            }
        };
    let first = before.push(journal_step(journal));
    if journal is Ok {
        let timeout = choose|timeout: Result<(), Seq<char>>|
            after == first.push(#[trigger] timeout_step(timeout)) && match timeout {
                Err(e) => r == Err::<(), Seq<char>>("Failed to set busy_timeout: "@ + e),
                Ok(_) => r is Ok,
            };
        assert(after[before.len() as int] == journal_step(journal));
        assert(after.last() == timeout_step(timeout));
    }
    assert(after.take(before.len() as int) =~= before);
}

/// The step made a setting, with success.
pub open spec fn is_set(step: Step, name: Seq<char>, value: SqlValueView) -> bool {
    &&& step is Configured
    &&& step->Configured_name == name
    &&& step->Configured_value == value
    &&& step->Configured_outcome is Ok
}

/// A project's database is kept on the connection that was handed in, with its
/// two settings made and nothing else asked of it.
pub proof fn project_database_is_set_up(conn: rusqlite::Connection, store: Store)
    requires
        project_store(conn, store),
    ensures
        store.conn() == conn,
        store.log().len() == 2,
        is_set(store.log()[0], "journal_mode"@, SqlValueView::Text("WAL"@)),
        is_set(store.log()[1], "busy_timeout"@, SqlValueView::Integer(5000)),
{
    connection_has_its_settings(Seq::empty(), store.log(), Ok(()));
}

/// The global database is kept on the connection that was handed in, with its
/// settings made and its three tables created.
pub proof fn global_database_is_set_up(conn: rusqlite::Connection, store: Store)
    requires
        global_store(conn, store),
    ensures
        store.conn() == conn,
        store.log().len() == 3,
        is_set(store.log()[0], "journal_mode"@, SqlValueView::Text("WAL"@)),
        is_set(store.log()[1], "busy_timeout"@, SqlValueView::Integer(5000)),
        store.log()[2] == (Step::Scripted {
            sql: "
        CREATE TABLE IF NOT EXISTS project_meta (
            _id         TEXT PRIMARY KEY,
            name        TEXT NOT NULL,
            projectType TEXT,
            status      INTEGER DEFAULT 0,
            area        REAL DEFAULT 0,
            updatedAt   TEXT NOT NULL,
            db_path     TEXT NOT NULL
        );

        CREATE TABLE IF NOT EXISTS _migration_history (
            id           INTEGER PRIMARY KEY AUTOINCREMENT,
            from_version TEXT NOT NULL,
            to_version   TEXT NOT NULL,
            migrated_at  TEXT NOT NULL,
            result       TEXT NOT NULL,
            detail       TEXT
        );

        CREATE TABLE IF NOT EXISTS _sync_checkpoint (
            table_name   TEXT NOT NULL,
            sync_mode    TEXT NOT NULL,
            filter_key   TEXT NOT NULL,
            last_sync_at TEXT NOT NULL,
            PRIMARY KEY (table_name, sync_mode, filter_key)
        );
        "@,
            outcome: Ok(()),
        }),
{
    let list = seq![global_tables_command()];
    let middle = choose|middle: Seq<Step>| #[trigger]
        connection_set_up(Seq::empty(), middle, Ok(())) && script_ran(
            list,
            middle,
            store.log(),
            Ok(()),
        );
    connection_has_its_settings(Seq::empty(), middle, Ok(()));
    script_runs_in_order(list, middle, store.log(), Ok(()));
    assert(store.log()[0] == store.log().take(2)[0]);
    assert(store.log()[1] == store.log().take(2)[1]);
    assert(store.log()[middle.len() as int + 0] == (Step::Scripted { sql: list[0].sql, outcome: Ok(()) }));
}

/// The tables of the global database are created by one script.
pub proof fn global_tables_have_their_words()
    ensures
        global_tables_command().failure == "Failed to create global tables: "@,
        global_tables_command().params.len() == 0,
{
}

/// The global database has its own name and file; a project's file is named by
/// the project.
pub proof fn files_are_named(project_id: Seq<char>)
    ensures
        GLOBAL@ == "global"@,
        GLOBAL_FILE@ == "global.db"@,
        project_file_name(project_id) == project_id + ".db"@,
{
}

/// The global database stays where it is: the same store is there before and
/// after.
pub proof fn global_database_stays(before: Map<Seq<char>, Store>, after: Map<Seq<char>, Store>)
    requires
        keeps_global(before, after),
    ensures
        after.contains_key("global"@),
        after["global"@] == before["global"@],
{
}

} // verus!

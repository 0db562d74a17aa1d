//! Calls that set up databases.

use crate::database::{
    create_global_tables, file_to_open, global_tables_command, opens_project, set_up_connection,
    DatabaseManager,
};
use crate::driver::{Step, Trace};
use crate::laws::calls::changes::words_of;
use crate::laws::layout::{
    business_column_texts, business_table_has_its_columns, connection_has_its_settings,
    global_database_is_set_up, indexes, indexes_path, is_set, project_database_is_set_up,
    schema_creates_all_of_it, script_runs_in_order,
};
use crate::request::script_ran;
use crate::schema::{create_table, create_tables, table_commands, table_script, tables_script, TableSchema};
use crate::sql::{commands, Command, CommandView, SqlValueView};
use crate::store::Store;
use crate::text::joined;
use vstd::prelude::*;

verus! {

/// The commands were run one after the other, up to the first that was refused.
pub open spec fn ran_in_order(
    list: Seq<CommandView>,
    before: Seq<Step>,
    after: Seq<Step>,
    r: Result<(), Seq<char>>,
) -> bool {
    let n = after.len() - before.len();
    &&& 0 <= n <= list.len()
    &&& after.take(before.len() as int) == before
    &&& match r {
        Ok(_) => n == list.len() && forall|i: int|
            0 <= i < list.len() ==> after[before.len() + i] == (Step::Scripted {
                sql: (#[trigger] list[i]).sql,
                outcome: Ok(()),
            }),
        Err(message) => {
            &&& n > 0
            &&& after.last() is Scripted
            &&& after.last()->Scripted_sql == list[n - 1].sql
            &&& after.last()->Scripted_outcome is Err
            &&& message == list[n - 1].failure + after.last()->Scripted_outcome->Err_0
            &&& forall|i: int|
                0 <= i < n - 1 ==> after[before.len() + i] == (Step::Scripted {
                    sql: (#[trigger] list[i]).sql,
                    outcome: Ok(()),
                })
        },
    }
}

/// The commands create the table of the schema with its columns, its standard
/// indexes, those on its paths, and the change log.
pub open spec fn creates(schema: TableSchema, list: Seq<CommandView>) -> bool {
    let table = schema.name@;
    let n = schema.json_indexes@.len() as int;
    &&& list.len() == n + 8
    &&& list[0].sql == "CREATE TABLE IF NOT EXISTS "@ + "["@ + table + "] ("@ + joined(
        business_column_texts(),
        ", "@,
    ) + ")"@
    &&& list[0].failure == "Failed to create table '"@ + table + "': "@
    &&& indexes(list[1], table, "uid"@, "uid"@)
    &&& indexes(list[2], table, "companyId"@, "companyId"@)
    &&& indexes(list[3], table, "p_id"@, "p_id"@)
    &&& indexes(list[4], table, "updatedAt"@, "updatedAt"@)
    &&& indexes(list[5], table, "deleted"@, "_deleted"@)
    &&& indexes(list[6], table, "status"@, "_status"@)
    &&& forall|i: int|
        0 <= i < n ==> indexes_path(list[7 + i], table, #[trigger] schema.json_indexes@[i])
    &&& list[n + 7].sql == "CREATE TABLE IF NOT EXISTS "@ + "_change_log (
            id          INTEGER PRIMARY KEY AUTOINCREMENT,
            table_name  TEXT NOT NULL,
            doc_id      TEXT NOT NULL,
            operation   TEXT NOT NULL,
            data        TEXT,
            timestamp   TEXT NOT NULL,
            synced      INTEGER DEFAULT 0,
            sync_error  TEXT
        );
        CREATE INDEX IF NOT EXISTS idx_change_log_synced ON _change_log(synced, timestamp);"@
    &&& list[n + 7].failure == "Failed to create _change_log table: "@
}

proof fn script_creates(schema: TableSchema)
    ensures
        creates(schema, table_script(schema)),
{
    schema_creates_all_of_it(schema);
    business_table_has_its_columns(schema.name@);
}

/// `table_commands` creates the table of the schema, and no command has values.
pub proof fn table_commands_comes_to(schema: &TableSchema, r: Vec<Command>)
    requires
        call_ensures(table_commands, (schema,), r),
    ensures
        r@.len() == schema.json_indexes@.len() + 8,
        creates(*schema, Seq::new(r@.len(), |i: int| r@[i]@)),
{
    script_creates(*schema);
    assert(commands(r@) =~= Seq::new(r@.len(), |i: int| r@[i]@));
}

/// `create_table` runs the commands that create the table, in order, up to the
/// first that is refused.
pub proof fn create_table_comes_to(store: &mut Store, schema: &TableSchema, r: Result<(), String>)
    requires
        call_ensures(create_table, (store, schema), r),
    ensures
        final(store).conn() == old(store).conn(),
        exists|list: Seq<CommandView>| #[trigger]
            creates(*schema, list) && ran_in_order(
                list,
                old(store).log(),
                final(store).log(),
                words_of(r),
            ),
{
    script_creates(*schema);
    script_runs_in_order(
        table_script(*schema),
        old(store).log(),
        final(store).log(),
        words_of(r),
    );
    assert(ran_in_order(
        table_script(*schema),
        old(store).log(),
        final(store).log(),
        words_of(r),
    ));
}

/// The commands create the tables of all schemas, one after the other.
pub open spec fn creates_all(schemas: Seq<TableSchema>, list: Seq<CommandView>) -> bool
    decreases schemas.len(),
{
    if schemas.len() == 0 {
        list.len() == 0
    } else {
        let n = list.len() - schemas.last().json_indexes@.len() - 8;
        &&& n >= 0
        &&& creates(schemas.last(), list.skip(n))
        &&& creates_all(schemas.drop_last(), list.take(n))
    }
}

proof fn scripts_create_all(schemas: Seq<TableSchema>)
    ensures
        creates_all(schemas, tables_script(schemas)),
    decreases schemas.len(),
{
    if schemas.len() > 0 {
        let front = tables_script(schemas.drop_last());
        let last = table_script(schemas.last());
        let list = tables_script(schemas);
        let n = list.len() - schemas.last().json_indexes@.len() - 8;
        scripts_create_all(schemas.drop_last());
        script_creates(schemas.last());
        assert(list == front + last);
        assert(n == front.len());
        assert(list.skip(n) =~= last);
        assert(list.take(n) =~= front);
    }
}

/// `create_tables` runs the commands that create all tables, in order, up to the
/// first that is refused.
pub proof fn create_tables_comes_to(
    store: &mut Store,
    schemas: &[TableSchema],
    r: Result<(), String>,
)
    requires
        call_ensures(create_tables, (store, schemas), r),
    ensures
        final(store).conn() == old(store).conn(),
        exists|list: Seq<CommandView>| #[trigger]
            creates_all(schemas@, list) && ran_in_order(
                list,
                old(store).log(),
                final(store).log(),
                words_of(r),
            ),
{
    scripts_create_all(schemas@);
    script_runs_in_order(
        tables_script(schemas@),
        old(store).log(),
        final(store).log(),
        words_of(r),
    );
    assert(ran_in_order(
        tables_script(schemas@),
        old(store).log(),
        final(store).log(),
        words_of(r),
    ));
}

/// `set_up_connection` makes the journal a write-ahead log and the lock timeout
/// five seconds.
pub proof fn set_up_connection_comes_to(store: &mut Store, r: Result<(), String>)
    requires
        call_ensures(set_up_connection, (store,), r),
    ensures
        final(store).conn() == old(store).conn(),
        ({
            let at = old(store).log().len() as int;
            let after = final(store).log();
            &&& after.len() > at
            &&& after.take(at) == old(store).log()
            &&& after[at] is Configured
            &&& after[at]->Configured_name == "journal_mode"@
            &&& after[at]->Configured_value == SqlValueView::Text("WAL"@)
            &&& match after[at]->Configured_outcome {
                Err(e) => after.len() == at + 1 && r is Err && r->Err_0@
                    == "Failed to enable WAL mode: "@ + e,
                Ok(_) => {
                    &&& after.len() == at + 2
                    &&& after[at + 1] is Configured
                    &&& after[at + 1]->Configured_name == "busy_timeout"@
                    &&& after[at + 1]->Configured_value == SqlValueView::Integer(5000)
                    &&& match after[at + 1]->Configured_outcome {
                        Ok(_) => r is Ok,
                        Err(e) => r is Err && r->Err_0@ == "Failed to set busy_timeout: "@ + e,
                    }
                },
            }
        }),
{
    connection_has_its_settings(old(store).log(), final(store).log(), words_of(r));
}

/// `create_global_tables` creates the tables of the global database by one script.
pub proof fn create_global_tables_comes_to(store: &mut Store, r: Result<(), String>)
    requires
        call_ensures(create_global_tables, (store,), r),
    ensures
        final(store).conn() == old(store).conn(),
        final(store).log().len() == old(store).log().len() + 1,
        final(store).log().take(old(store).log().len() as int) == old(store).log(),
        final(store).log().last() is Scripted,
        final(store).log().last()->Scripted_sql == crate::database::GLOBAL_TABLES@,
        match final(store).log().last()->Scripted_outcome {
            Ok(_) => r is Ok,
            Err(e) => r is Err && r->Err_0@ == "Failed to create global tables: "@ + e,
        },
{
    let list = seq![global_tables_command()];
    script_runs_in_order(list, old(store).log(), final(store).log(), words_of(r));
    if r is Ok {
        assert(final(store).log()[old(store).log().len() as int + 0] == (Step::Scripted {
            sql: list[0].sql,
            outcome: Ok(()),
        }));
    }
}

/// `opens_project` holds of every name but that of the global database.
pub proof fn opens_project_comes_to(project_id: &str, r: bool)
    requires
        call_ensures(opens_project, (project_id,), r),
    ensures
        r <==> project_id@ != "global"@,
{
}

/// `file_to_open` names the file by the project; the global database is not one.
pub proof fn file_to_open_comes_to(project_id: &str, r: Result<String, String>)
    requires
        call_ensures(file_to_open, (project_id,), r),
    ensures
        if project_id@ == "global"@ {
            r is Err && r->Err_0@ == "Use open_global_db() for the global database"@
        } else {
            r is Ok && r->Ok_0@ == project_id@ + ".db"@
        },
{
}

/// The setting was refused, and the message says which.
pub open spec fn setting_is_refused(
    conn: rusqlite::Connection,
    trace: Option<Trace>,
    message: Seq<char>,
) -> bool {
    &&& trace is Some
    &&& trace->0.of() == conn
    &&& trace->0@.len() > 0
    &&& trace->0@.last() is Configured
    &&& trace->0@.last()->Configured_outcome is Err
    &&& trace->0@.len() == 1 ==> message == "Failed to enable WAL mode: "@
        + trace->0@.last()->Configured_outcome->Err_0
    &&& trace->0@.len() > 1 ==> trace->0@.len() == 2 && message == "Failed to set busy_timeout: "@
        + trace->0@.last()->Configured_outcome->Err_0
}

/// The tables of the global database were refused.
pub open spec fn tables_are_refused(
    conn: rusqlite::Connection,
    trace: Option<Trace>,
    message: Seq<char>,
) -> bool {
    &&& trace is Some
    &&& trace->0.of() == conn
    &&& trace->0@.len() == 3
    &&& is_set(trace->0@[0], "journal_mode"@, SqlValueView::Text("WAL"@))
    &&& is_set(trace->0@[1], "busy_timeout"@, SqlValueView::Integer(5000))
    &&& trace->0@[2] is Scripted
    &&& trace->0@[2]->Scripted_outcome is Err
    &&& message == "Failed to create global tables: "@ + trace->0@[2]->Scripted_outcome->Err_0
}

proof fn refused_setting_is_named(
    conn: rusqlite::Connection,
    trace: Option<Trace>,
    message: Seq<char>,
)
    requires
        crate::database::setup_refused(conn, trace, message),
    ensures
        setting_is_refused(conn, trace, message),
{
    connection_has_its_settings(Seq::empty(), trace->0@, Err(message));
}

proof fn refused_tables_are_named(
    conn: rusqlite::Connection,
    trace: Option<Trace>,
    message: Seq<char>,
)
    requires
        crate::database::tables_refused(conn, trace, message),
    ensures
        tables_are_refused(conn, trace, message),
{
    let list = seq![global_tables_command()];
    let middle = choose|middle: Seq<Step>| #[trigger]
        crate::database::connection_set_up(Seq::empty(), middle, Ok(())) && script_ran(
            list,
            middle,
            trace->0@,
            Err(message),
        );
    connection_has_its_settings(Seq::empty(), middle, Ok(()));
    script_runs_in_order(list, middle, trace->0@, Err(message));
    assert(trace->0@[0] == trace->0@.take(2)[0]);
    assert(trace->0@[1] == trace->0@.take(2)[1]);
}

/// `DatabaseManager::open_global_db` keeps the connection under the global name,
/// set up and with its tables; the others stay. Where anything is refused, none
/// changes.
pub proof fn open_global_db_comes_to(
    manager: &mut DatabaseManager,
    conn: rusqlite::Connection,
    r: Result<(), String>,
)
    requires
        call_ensures(DatabaseManager::open_global_db, (manager, conn), r),
    ensures
        match r {
            Ok(_) => {
                let store = final(manager)@["global"@];
                &&& final(manager)@.contains_key("global"@)
                &&& final(manager)@.remove("global"@) == old(manager)@.remove("global"@)
                &&& store.conn() == conn
                &&& store.log().len() == 3
                &&& is_set(store.log()[0], "journal_mode"@, SqlValueView::Text("WAL"@))
                &&& is_set(store.log()[1], "busy_timeout"@, SqlValueView::Integer(5000))
                &&& store.log()[2] is Scripted && store.log()[2]->Scripted_outcome is Ok
            },
            Err(e) => {
                &&& final(manager)@ == old(manager)@
                &&& setting_is_refused(conn, final(manager).last_refused(), e@)
                    || tables_are_refused(conn, final(manager).last_refused(), e@)
            },
        },
{
    match r {
        Ok(_) => {
            assert(final(manager)@.dom().contains("global"@));
            global_database_is_set_up(conn, final(manager)@["global"@]);
        },
        Err(e) => {
            if crate::database::setup_refused(conn, final(manager).last_refused(), e@) {
                refused_setting_is_named(conn, final(manager).last_refused(), e@);
            } else {
                refused_tables_are_named(conn, final(manager).last_refused(), e@);
            }
        },
    }
}

/// `DatabaseManager::open_project_db` keeps the connection under the project's
/// name, set up; the others stay. Where it is refused, or the name is the global
/// one, none changes.
pub proof fn open_project_db_comes_to(
    manager: &mut DatabaseManager,
    project_id: &str,
    conn: rusqlite::Connection,
    r: Result<(), String>,
)
    requires
        call_ensures(DatabaseManager::open_project_db, (manager, project_id, conn), r),
    ensures
        match r {
            Ok(_) => {
                let store = final(manager)@[project_id@];
                &&& project_id@ != "global"@
                &&& final(manager)@.contains_key(project_id@)
                &&& final(manager)@.remove(project_id@) == old(manager)@.remove(project_id@)
                &&& store.conn() == conn
                &&& store.log().len() == 2
                &&& is_set(store.log()[0], "journal_mode"@, SqlValueView::Text("WAL"@))
                &&& is_set(store.log()[1], "busy_timeout"@, SqlValueView::Integer(5000))
            },
            Err(e) => {
                &&& final(manager)@ == old(manager)@
                &&& if project_id@ == "global"@ {
                    e@ == "Use open_global_db() for the global database"@
                } else {
                    setting_is_refused(conn, final(manager).last_refused(), e@)
                }
            },
        },
{
    match r {
        Ok(_) => {
            assert(final(manager)@.dom().contains(project_id@));
            project_database_is_set_up(conn, final(manager)@[project_id@]);
        },
        Err(e) => {
            if project_id@ != "global"@ {
                refused_setting_is_named(conn, final(manager).last_refused(), e@);
            }
        },
    }
}

/// `DatabaseManager::close_project_db` drops the project's connection, and keeps
/// the others; the global database cannot be closed.
pub proof fn close_project_db_comes_to(
    manager: &mut DatabaseManager,
    project_id: &str,
    r: Result<(), String>,
)
    requires
        call_ensures(DatabaseManager::close_project_db, (manager, project_id), r),
    ensures
        if project_id@ == "global"@ {
            final(manager)@ == old(manager)@ && r is Err && r->Err_0@
                == "Cannot close the global database"@
        } else {
            final(manager)@ == old(manager)@.remove(project_id@) && r is Ok
        },
{
}

/// `DatabaseManager::delete_project_db` drops the project's connection, keeps the
/// others, and names the file to delete; the global database cannot be deleted.
pub proof fn delete_project_db_comes_to(
    manager: &mut DatabaseManager,
    project_id: &str,
    r: Result<String, String>,
)
    requires
        call_ensures(DatabaseManager::delete_project_db, (manager, project_id), r),
    ensures
        if project_id@ == "global"@ {
            final(manager)@ == old(manager)@ && r is Err && r->Err_0@
                == "Cannot delete the global database"@
        } else {
            final(manager)@ == old(manager)@.remove(project_id@) && r is Ok && r->Ok_0@
                == project_id@ + ".db"@
        },
{
}

/// `DatabaseManager::new` has nothing open.
pub proof fn manager_new_comes_to(r: DatabaseManager)
    requires
        call_ensures(DatabaseManager::new, (), r),
    ensures
        r@ == Map::<Seq<char>, Store>::empty(),
{
}

/// `DatabaseManager::with_connection` hands the open database of that name to the
/// function, once, and keeps what it leaves; the others stay. Where none is open,
/// the function is not called.
pub proof fn with_connection_comes_to<T, F: FnOnce(&mut Store) -> Result<T, String>>(
    manager: &mut DatabaseManager,
    project_id: &str,
    f: F,
    r: Result<T, String>,
)
    requires
        call_ensures(
            DatabaseManager::with_connection::<F, T>,
            (manager, project_id, f),
            r,
        ),
    ensures
        if old(manager)@.contains_key(project_id@) {
            exists|store: &mut Store|
                {
                    &&& *store == old(manager)@[project_id@]
                    &&& #[trigger] call_ensures(f, (store,), r)
                    &&& final(manager)@ == old(manager)@.insert(project_id@, *final(store))
                }
        } else {
            &&& final(manager)@ == old(manager)@
            &&& r is Err
            &&& r->Err_0@ == "Database '"@ + project_id@ + "' is not open"@
        },
{
}

} // verus!

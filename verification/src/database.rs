//! The open databases: the global one and those of the projects.

use crate::driver::{outcome_of, Step, Trace};
use crate::registry::Registry;
use crate::request::{run_script, script_ran};
use crate::sql::{commands, plain_command, text_value, Command, CommandView, SqlValue, SqlValueView};
use crate::store::Store;
use crate::text::{join2, join3, same_text};
use vstd::prelude::*;

verus! {

// ---------------------------------------------------------------------------
// Settings and tables of a new connection
// ---------------------------------------------------------------------------
/// The name under which the global database is open.
pub const GLOBAL: &'static str = "global";

/// The file of the global database.
pub const GLOBAL_FILE: &'static str = "global.db";

/// The tables of the global database.
pub const GLOBAL_TABLES: &'static str = "
        CREATE TABLE IF NOT EXISTS project_meta (
            _id         TEXT PRIMARY KEY,
            name        TEXT NOT NULL,
            projectType TEXT,
            status      INTEGER DEFAULT 0,
            area        REAL DEFAULT 0,
            updatedAt   TEXT NOT NULL,
            db_path     TEXT NOT NULL
        );

        CREATE TABLE IF NOT EXISTS _migration_history (
            id           INTEGER PRIMARY KEY AUTOINCREMENT,
            from_version TEXT NOT NULL,
            to_version   TEXT NOT NULL,
            migrated_at  TEXT NOT NULL,
            result       TEXT NOT NULL,
            detail       TEXT
        );

        CREATE TABLE IF NOT EXISTS _sync_checkpoint (
            table_name   TEXT NOT NULL,
            sync_mode    TEXT NOT NULL,
            filter_key   TEXT NOT NULL,
            last_sync_at TEXT NOT NULL,
            PRIMARY KEY (table_name, sync_mode, filter_key)
        );
        ";

/// The step of making the journal a write-ahead log.
pub open spec fn journal_step(outcome: Result<(), Seq<char>>) -> Step {
    Step::Configured { name: "journal_mode"@, value: SqlValueView::Text("WAL"@), outcome }
}

/// The step of setting how long to wait for a lock, in milliseconds.
pub open spec fn timeout_step(outcome: Result<(), Seq<char>>) -> Step {
    Step::Configured { name: "busy_timeout"@, value: SqlValueView::Integer(5000), outcome }
}

/// A connection was set up; the second setting is made only where the first
/// was.
pub open spec fn connection_set_up(
    before: Seq<Step>,
    after: Seq<Step>,
    r: Result<(), Seq<char>>,
) -> bool {
    exists|journal: Result<(), Seq<char>>|
        {
            let first = before.push(#[trigger] journal_step(journal));
            match journal {
                Err(e) => after == first && r == Err::<(), Seq<char>>(
                    "Failed to enable WAL mode: "@ + e,
                ),
                Ok(_) => exists|timeout: Result<(), Seq<char>>|
                    after == first.push(#[trigger] timeout_step(timeout)) && match timeout {
                        Err(e) => r == Err::<(), Seq<char>>("Failed to set busy_timeout: "@ + e),
                        Ok(_) => r is Ok,
                    },
            }
        }
}

/// Sets up an open connection: write-ahead log and a lock timeout of five
/// seconds.
pub fn set_up_connection(store: &mut Store) -> (r: Result<(), String>)
    ensures
        final(store).conn() == old(store).conn(),
        connection_set_up(old(store).log(), final(store).log(), outcome_of(r)),
{
    let ghost before = store.log();
    let journal = store.pragma_update("journal_mode", &text_value("WAL"));
    assert(store.log() == before.push(journal_step(outcome_of(journal))));
    match journal {
        Ok(_) => {},
        Err(e) => {
            return Err(join2("Failed to enable WAL mode: ", e.as_str()));
        },
    }
    let ghost first = store.log();
    let timeout = store.pragma_update("busy_timeout", &SqlValue::Integer(5000));
    assert(store.log() == first.push(timeout_step(outcome_of(timeout))));
    match timeout {
        Ok(_) => Ok(()),
        Err(e) => Err(join2("Failed to set busy_timeout: ", e.as_str())),
    }
}

/// The command that creates the tables of the global database.
pub open spec fn global_tables_command() -> CommandView {
    plain_command(GLOBAL_TABLES@, "Failed to create global tables: "@)
}

/// Creates the tables of the global database: `project_meta`,
/// `_migration_history` and `_sync_checkpoint`.
pub fn create_global_tables(store: &mut Store) -> (r: Result<(), String>)
    ensures
        final(store).conn() == old(store).conn(),
        script_ran(
            seq![global_tables_command()],
            old(store).log(),
            final(store).log(),
            outcome_of(r),
        ),
{
    let mut list: Vec<Command> = Vec::new();
    list.push(
        Command::plain(GLOBAL_TABLES.to_owned(), "Failed to create global tables: ".to_owned()),
    );
    assert(commands(list@) =~= seq![global_tables_command()]);
    run_script(store, &list)
}

/// A store over a connection that was set up.
pub open spec fn project_store(conn: rusqlite::Connection, store: Store) -> bool {
    &&& store.conn() == conn
    &&& connection_set_up(Seq::empty(), store.log(), Ok(()))
}

/// A store over a connection that was set up and given the global tables.
pub open spec fn global_store(conn: rusqlite::Connection, store: Store) -> bool {
    &&& store.conn() == conn
    &&& exists|middle: Seq<Step>| #[trigger]
        connection_set_up(Seq::empty(), middle, Ok(())) && script_ran(
            seq![global_tables_command()],
            middle,
            store.log(),
            Ok(()),
        )
}

/// The connection could not be set up, with this message.
pub open spec fn setup_refused(
    conn: rusqlite::Connection,
    trace: Option<Trace>,
    message: Seq<char>,
) -> bool {
    &&& trace is Some
    &&& trace->Some_0.of() == conn
    &&& connection_set_up(Seq::empty(), trace->Some_0@, Err(message))
}

/// The connection was set up, but the global tables could not be created, with
/// this message.
pub open spec fn tables_refused(
    conn: rusqlite::Connection,
    trace: Option<Trace>,
    message: Seq<char>,
) -> bool {
    &&& trace is Some
    &&& trace->Some_0.of() == conn
    &&& exists|middle: Seq<Step>| #[trigger]
        connection_set_up(Seq::empty(), middle, Ok(())) && script_ran(
            seq![global_tables_command()],
            middle,
            trace->Some_0@,
            Err(message),
        )
}

// ---------------------------------------------------------------------------
// The manager
// ---------------------------------------------------------------------------
/// Manages several open databases: the global one and those of the projects.
pub struct DatabaseManager {
    connections: Registry<Store>,
    refused: Option<Trace>,
}

impl View for DatabaseManager {
    type V = Map<Seq<char>, Store>;

    closed spec fn view(&self) -> Map<Seq<char>, Store> {
        self.connections@
    }
}

/// The global database stays open, on the same connection.
pub open spec fn keeps_global(before: Map<Seq<char>, Store>, after: Map<Seq<char>, Store>) -> bool {
    after.contains_key(GLOBAL@) && after[GLOBAL@] == before[GLOBAL@]
}

/// The file of a project's database.
pub open spec fn project_file_name(project_id: Seq<char>) -> Seq<char> {
    project_id + ".db"@
}

/// Whether the front-end's request to open a database asks for that of a
/// project. The global one is open from the start.
pub fn opens_project(project_id: &str) -> (r: bool)
    ensures
        r == (project_id@ != GLOBAL@),
{
    !same_text(project_id, GLOBAL)
}

/// The file of the database of a project that is to be opened.
pub fn file_to_open(project_id: &str) -> (r: Result<String, String>)
    ensures
        if project_id@ == GLOBAL@ {
            r is Err && r->Err_0@ == "Use open_global_db() for the global database"@
        } else {
            r is Ok && r->Ok_0@ == project_file_name(project_id@)
        },
{
    if same_text(project_id, GLOBAL) {
        return Err("Use open_global_db() for the global database".to_owned());
    }
    Ok(join2(project_id, ".db"))
}

impl DatabaseManager {
    /// What was asked of the last connection that could not be opened.
    pub closed spec fn last_refused(self) -> Option<Trace> {
        self.refused
    }

    /// A manager without open databases.
    pub fn new() -> (r: Self)
        ensures
            r@ == Map::<Seq<char>, Store>::empty(),
            r.last_refused() is None,
    {
        DatabaseManager { connections: Registry::new(), refused: None }
    }

    /// Takes over a new connection to the global database: sets it up, creates
    /// the required tables, and keeps it.
    pub fn open_global_db(&mut self, conn: rusqlite::Connection) -> (r: Result<(), String>)
        ensures
            match r {
                Ok(_) => {
                    &&& final(self)@.dom() == old(self)@.dom().insert(GLOBAL@)
                    &&& final(self)@.remove(GLOBAL@) == old(self)@.remove(GLOBAL@)
                    &&& global_store(conn, final(self)@[GLOBAL@])
                    &&& final(self).last_refused() == old(self).last_refused()
                },
                Err(e) => {
                    &&& final(self)@ == old(self)@
                    &&& setup_refused(conn, final(self).last_refused(), e@) || tables_refused(
                        conn,
                        final(self).last_refused(),
                        e@,
                    )
                },
            },
    {
        let mut store = Store::new(conn);
        match set_up_connection(&mut store) {
            Ok(_) => {},
            Err(e) => {
                self.refused = Some(store.close());
                return Err(e);
            },
        }
        let ghost middle = store.log();
        assert(connection_set_up(Seq::empty(), middle, Ok(())));
        match create_global_tables(&mut store) {
            Ok(_) => {},
            Err(e) => {
                self.refused = Some(store.close());
                return Err(e);
            },
        }
        assert(script_ran(seq![global_tables_command()], middle, store.log(), Ok(())));
        assert(global_store(conn, store));
        let _ = self.connections.insert(GLOBAL.to_owned(), store);
        proof {
            assert(self@.dom() =~= old(self)@.dom().insert(GLOBAL@));
            assert(self@.remove(GLOBAL@) =~= old(self)@.remove(GLOBAL@));
        }
        Ok(())
    }

    /// Takes over a new connection to the database of a project: sets it up and
    /// keeps it. A connection that the project has already is dropped.
    pub fn open_project_db(&mut self, project_id: &str, conn: rusqlite::Connection) -> (r: Result<
        (),
        String,
    >)
        ensures
            match r {
                Ok(_) => {
                    &&& project_id@ != GLOBAL@
                    &&& final(self)@.dom() == old(self)@.dom().insert(project_id@)
                    &&& final(self)@.remove(project_id@) == old(self)@.remove(project_id@)
                    &&& project_store(conn, final(self)@[project_id@])
                    &&& final(self).last_refused() == old(self).last_refused()
                },
                Err(e) => {
                    &&& final(self)@ == old(self)@
                    &&& if project_id@ == GLOBAL@ {
                        &&& e@ == "Use open_global_db() for the global database"@
                        &&& final(self).last_refused() == old(self).last_refused()
                    } else {
                        setup_refused(conn, final(self).last_refused(), e@)
                    }
                },
            },
            old(self)@.contains_key(GLOBAL@) ==> keeps_global(old(self)@, final(self)@),
    {
        match file_to_open(project_id) {
            Ok(_) => {},
            Err(e) => {
                return Err(e);
            },
        }
        let mut store = Store::new(conn);
        match set_up_connection(&mut store) {
            Ok(_) => {},
            Err(e) => {
                self.refused = Some(store.close());
                return Err(e);
            },
        }
        assert(project_store(conn, store));
        let _ = self.connections.insert(project_id.to_owned(), store);
        proof {
            assert(self@.dom() =~= old(self)@.dom().insert(project_id@));
            assert(self@.remove(project_id@) =~= old(self)@.remove(project_id@));
        }
        Ok(())
    }

    /// Closes the database of a project by dropping its connection, if it has
    /// one.
    pub fn close_project_db(&mut self, project_id: &str) -> (r: Result<(), String>)
        ensures
            final(self).last_refused() == old(self).last_refused(),
            if project_id@ == GLOBAL@ {
                &&& final(self)@ == old(self)@
                &&& r is Err
                &&& r->Err_0@ == "Cannot close the global database"@
            } else {
                &&& final(self)@ == old(self)@.remove(project_id@)
                &&& r is Ok
            },
            old(self)@.contains_key(GLOBAL@) ==> keeps_global(old(self)@, final(self)@),
    {
        if same_text(project_id, GLOBAL) {
            return Err("Cannot close the global database".to_owned());
        }
        let _ = self.connections.remove(project_id);
        Ok(())
    }

    /// Drops the connection to the database of a project, if it has one, and
    /// returns the file that is to be deleted.
    pub fn delete_project_db(&mut self, project_id: &str) -> (r: Result<String, String>)
        ensures
            final(self).last_refused() == old(self).last_refused(),
            if project_id@ == GLOBAL@ {
                &&& final(self)@ == old(self)@
                &&& r is Err
                &&& r->Err_0@ == "Cannot delete the global database"@
            } else {
                &&& final(self)@ == old(self)@.remove(project_id@)
                &&& r is Ok
                &&& r->Ok_0@ == project_file_name(project_id@)
            },
            old(self)@.contains_key(GLOBAL@) ==> keeps_global(old(self)@, final(self)@),
    {
        if same_text(project_id, GLOBAL) {
            return Err("Cannot delete the global database".to_owned());
        }
        let _ = self.connections.remove(project_id);
        Ok(join2(project_id, ".db"))
    }

    /// Hands the open database of a project, or the global one, to `f`.
    pub fn with_connection<F, T>(&mut self, project_id: &str, f: F) -> (r: Result<T, String>) where
        F: FnOnce(&mut Store) -> Result<T, String>,

        requires
            old(self)@.contains_key(project_id@) ==> forall|store: &mut Store|
                *store == old(self)@[project_id@] ==> #[trigger] call_requires(f, (store,)),
        ensures
            final(self).last_refused() == old(self).last_refused(),
            if old(self)@.contains_key(project_id@) {
                exists|store: &mut Store|
                    {
                        &&& *store == old(self)@[project_id@]
                        &&& #[trigger] call_ensures(f, (store,), r)
                        &&& final(self)@ == old(self)@.insert(project_id@, *final(store))
                    }
            } else {
                &&& final(self)@ == old(self)@
                &&& r is Err
                &&& r->Err_0@ == "Database '"@ + project_id@ + "' is not open"@
            },
    {
        match self.connections.remove(project_id) {
            Some(store) => {
                let mut store = store;
                let r = f(&mut store);
                let _ = self.connections.insert(project_id.to_owned(), store);
                proof {
                    let others = old(self)@.remove(project_id@);
                    assert(others.insert(project_id@, store) =~= old(self)@.insert(
                        project_id@,
                        store,
                    ));
                }
                r
            },
            None => {
                assert(old(self)@.remove(project_id@) =~= old(self)@);
                Err(join3("Database '", project_id, "' is not open"))
            },
        }
    }
}

} // verus!

use offlite::commands::db_execute;
use offlite::database::{
    create_global_tables, file_to_open, opens_project, set_up_connection, DatabaseManager,
};
use offlite::store::Store;
use rusqlite::Connection;

fn memory() -> Connection {
    Connection::open_in_memory().unwrap()
}

#[test]
fn test_cannot_close_global() {
    let mut mgr = DatabaseManager::new();
    assert!(mgr.close_project_db("global").is_err());
}

#[test]
fn test_cannot_delete_global() {
    let mut mgr = DatabaseManager::new();
    assert!(mgr.delete_project_db("global").is_err());
}

#[test]
fn the_global_database_has_its_tables() {
    let mut mgr = DatabaseManager::new();
    mgr.open_global_db(memory()).unwrap();

    mgr.with_connection("global", |store| {
        let mut stmt = store
            .connection()
            .prepare("SELECT name FROM sqlite_master WHERE type='table' ORDER BY name")
            .map_err(|e| e.to_string())?;
        let tables: Vec<String> = stmt
            .query_map([], |row| row.get(0))
            .map_err(|e| e.to_string())?
            .filter_map(|r| r.ok())
            .collect();
        assert!(tables.contains(&"project_meta".to_string()));
        assert!(tables.contains(&"_migration_history".to_string()));
        assert!(tables.contains(&"_sync_checkpoint".to_string()));
        Ok(())
    })
    .unwrap();
}

#[test]
fn a_project_is_opened_used_and_closed() {
    let mut mgr = DatabaseManager::new();
    mgr.open_project_db("proj_001", memory()).unwrap();

    // The connection can be used, and keeps what was done with it.
    mgr.with_connection("proj_001", |store| {
        store.execute_batch("CREATE TABLE IF NOT EXISTS test (id TEXT)")
    })
    .unwrap();
    let rows = mgr
        .with_connection("proj_001", |store| {
            db_execute(store, "INSERT INTO test VALUES ('a')", &vec![])
        })
        .unwrap();
    assert_eq!(rows, 1);

    mgr.close_project_db("proj_001").unwrap();

    // Connection should no longer be available
    assert_eq!(
        mgr.with_connection("proj_001", |_| Ok(())).unwrap_err(),
        "Database 'proj_001' is not open"
    );
    // Closing once more does no harm.
    mgr.close_project_db("proj_001").unwrap();
}

#[test]
fn a_deleted_project_hands_out_its_file() {
    let mut mgr = DatabaseManager::new();
    mgr.open_project_db("proj_del", memory()).unwrap();
    mgr.open_project_db("other", memory()).unwrap();
    assert_eq!(mgr.delete_project_db("proj_del").unwrap(), "proj_del.db");
    assert!(mgr.with_connection("proj_del", |_| Ok(())).is_err());
    assert!(mgr.with_connection("other", |_| Ok(())).is_ok());
    assert_eq!(mgr.delete_project_db("never").unwrap(), "never.db");
}

#[test]
fn the_global_database_is_no_project() {
    let mut mgr = DatabaseManager::new();
    mgr.open_global_db(memory()).unwrap();
    assert_eq!(
        mgr.open_project_db("global", memory()).unwrap_err(),
        "Use open_global_db() for the global database"
    );
    assert_eq!(mgr.close_project_db("global").unwrap_err(), "Cannot close the global database");
    assert_eq!(mgr.delete_project_db("global").unwrap_err(), "Cannot delete the global database");
    assert!(mgr.with_connection("global", |_| Ok(())).is_ok());
    assert!(!opens_project("global"));
    assert!(opens_project("p"));
    assert_eq!(file_to_open("p").unwrap(), "p.db");
    assert_eq!(
        file_to_open("global").unwrap_err(),
        "Use open_global_db() for the global database"
    );
}

#[test]
fn a_project_that_is_opened_again_has_the_new_connection() {
    let mut mgr = DatabaseManager::new();
    mgr.open_project_db("p", memory()).unwrap();
    mgr.with_connection("p", |store| store.execute_batch("CREATE TABLE x (a)")).unwrap();
    mgr.open_project_db("p", memory()).unwrap();
    assert!(mgr
        .with_connection("p", |store| store.execute_batch("INSERT INTO x VALUES (1)"))
        .is_err());
}

#[test]
fn a_connection_is_set_up() {
    let mut store = Store::new(memory());
    set_up_connection(&mut store).unwrap();
    let timeout: i64 = store
        .connection()
        .pragma_query_value(None, "busy_timeout", |row| row.get(0))
        .unwrap();
    assert_eq!(timeout, 5000);
    create_global_tables(&mut store).unwrap();
    create_global_tables(&mut store).unwrap();
}

#[test]
fn a_refused_global_table_is_named() {
    let conn = memory();
    conn.execute_batch("PRAGMA query_only = 1;").unwrap();
    let mut mgr = DatabaseManager::new();
    let message = mgr.open_global_db(conn).unwrap_err();
    assert!(message.starts_with("Failed to create global tables: "), "{}", message);
    assert!(mgr.with_connection("global", |_| Ok(())).is_err());
}

#[test]
fn an_error_of_the_caller_of_a_database_comes_back() {
    let mut mgr = DatabaseManager::new();
    mgr.open_project_db("p", memory()).unwrap();
    let result: Result<(), String> = mgr.with_connection("p", |_| Err("no".to_string()));
    assert_eq!(result.unwrap_err(), "no");
    assert!(mgr.with_connection("p", |_| Ok(())).is_ok());
}

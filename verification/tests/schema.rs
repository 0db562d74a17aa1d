use offlite::schema::{create_table, create_tables, table_commands, JsonIndex, TableSchema};
use offlite::store::Store;
use rusqlite::Connection;

fn memory_conn() -> Store {
    Store::new(Connection::open_in_memory().unwrap())
}

fn names(store: &Store, sql: &str) -> Vec<String> {
    store
        .connection()
        .prepare(sql)
        .unwrap()
        .query_map([], |row| row.get(0))
        .unwrap()
        .filter_map(|r| r.ok())
        .collect()
}

#[test]
fn test_create_table_basic() {
    let mut conn = memory_conn();
    let schema = TableSchema {
        name: "planning".to_string(),
        json_indexes: vec![],
    };
    create_table(&mut conn, &schema).unwrap();

    // Verify table exists
    let tables =
        names(&conn, "SELECT name FROM sqlite_master WHERE type='table' AND name='planning'");
    assert_eq!(tables, vec!["planning"]);

    // Verify standard indexes exist
    let indexes =
        names(&conn, "SELECT name FROM sqlite_master WHERE type='index' AND tbl_name='planning'");
    assert!(indexes.contains(&"idx_planning_uid".to_string()));
    assert!(indexes.contains(&"idx_planning_companyId".to_string()));
    assert!(indexes.contains(&"idx_planning_p_id".to_string()));
    assert!(indexes.contains(&"idx_planning_updatedAt".to_string()));
    assert!(indexes.contains(&"idx_planning_deleted".to_string()));
}

#[test]
fn test_create_table_with_json_indexes() {
    let mut conn = memory_conn();
    let schema = TableSchema {
        name: "planning".to_string(),
        json_indexes: vec![
            JsonIndex {
                name: "dilei".to_string(),
                json_path: "properties.地类".to_string(),
            },
            JsonIndex {
                name: "shuzhong".to_string(),
                json_path: "properties.树种".to_string(),
            },
        ],
    };
    create_table(&mut conn, &schema).unwrap();

    let indexes =
        names(&conn, "SELECT name FROM sqlite_master WHERE type='index' AND tbl_name='planning'");
    assert!(indexes.contains(&"idx_planning_dilei".to_string()));
    assert!(indexes.contains(&"idx_planning_shuzhong".to_string()));
}

#[test]
fn test_change_log_table_created() {
    let mut conn = memory_conn();
    let schema = TableSchema {
        name: "sample".to_string(),
        json_indexes: vec![],
    };
    create_table(&mut conn, &schema).unwrap();

    let tables =
        names(&conn, "SELECT name FROM sqlite_master WHERE type='table' AND name='_change_log'");
    assert_eq!(tables, vec!["_change_log"]);

    let indexes =
        names(&conn, "SELECT name FROM sqlite_master WHERE type='index' AND tbl_name='_change_log'");
    assert!(indexes.contains(&"idx_change_log_synced".to_string()));
}

#[test]
fn test_create_tables_batch() {
    let mut conn = memory_conn();
    let schemas = vec![
        TableSchema {
            name: "project".to_string(),
            json_indexes: vec![],
        },
        TableSchema {
            name: "planning".to_string(),
            json_indexes: vec![JsonIndex {
                name: "dilei".to_string(),
                json_path: "properties.地类".to_string(),
            }],
        },
        TableSchema {
            name: "sample".to_string(),
            json_indexes: vec![],
        },
    ];
    create_tables(&mut conn, &schemas).unwrap();

    let tables = names(&conn, "SELECT name FROM sqlite_master WHERE type='table' ORDER BY name");
    assert!(tables.contains(&"project".to_string()));
    assert!(tables.contains(&"planning".to_string()));
    assert!(tables.contains(&"sample".to_string()));
    assert!(tables.contains(&"_change_log".to_string()));
}

#[test]
fn test_idempotent_creation() {
    let mut conn = memory_conn();
    let schema = TableSchema {
        name: "planning".to_string(),
        json_indexes: vec![],
    };
    // Creating twice should not error
    create_table(&mut conn, &schema).unwrap();
    create_table(&mut conn, &schema).unwrap();
}

#[test]
fn test_crud_on_created_table() {
    let mut store = memory_conn();
    let schema = TableSchema {
        name: "planning".to_string(),
        json_indexes: vec![],
    };
    create_table(&mut store, &schema).unwrap();
    let conn = store.connection();

    // INSERT
    conn.execute(
        "INSERT INTO planning (_id, uid, companyId, p_id, createdAt, updatedAt, data) VALUES (?1, ?2, ?3, ?4, ?5, ?6, ?7)",
        ("doc_1", 1, 100, "p_001", "2025-01-01T00:00:00Z", "2025-01-01T00:00:00Z", r#"{"name":"test"}"#),
    ).unwrap();

    // SELECT
    let data: String = conn
        .query_row("SELECT data FROM planning WHERE _id = ?1", ["doc_1"], |row| row.get(0))
        .unwrap();
    assert_eq!(data, r#"{"name":"test"}"#);

    // UPDATE
    conn.execute(
        "UPDATE planning SET data = ?1, updatedAt = ?2 WHERE _id = ?3",
        (r#"{"name":"updated"}"#, "2025-01-02T00:00:00Z", "doc_1"),
    )
    .unwrap();

    let data: String = conn
        .query_row("SELECT data FROM planning WHERE _id = ?1", ["doc_1"], |row| row.get(0))
        .unwrap();
    assert_eq!(data, r#"{"name":"updated"}"#);

    // DELETE (soft)
    conn.execute("UPDATE planning SET _deleted = 1 WHERE _id = ?1", ["doc_1"]).unwrap();
    let deleted: i32 = conn
        .query_row("SELECT _deleted FROM planning WHERE _id = ?1", ["doc_1"], |row| row.get(0))
        .unwrap();
    assert_eq!(deleted, 1);
}

#[test]
fn commands_of_a_schema_are_exact() {
    let schema = TableSchema {
        name: "t".to_string(),
        json_indexes: vec![JsonIndex { name: "n".to_string(), json_path: "a.b".to_string() }],
    };
    let list = table_commands(&schema);
    assert_eq!(list.len(), 9);
    assert_eq!(
        list[0].sql,
        "CREATE TABLE IF NOT EXISTS [t] (_id TEXT PRIMARY KEY, uid INTEGER, companyId INTEGER, \
         p_id TEXT, createdAt TEXT NOT NULL, updatedAt TEXT NOT NULL, _deleted INTEGER DEFAULT 0, \
         _version INTEGER DEFAULT 1, _status TEXT DEFAULT 'synced', data TEXT NOT NULL)"
    );
    assert_eq!(list[0].failure, "Failed to create table 't': ");
    assert_eq!(list[1].sql, "CREATE INDEX IF NOT EXISTS [idx_t_uid] ON [t](uid)");
    assert_eq!(list[5].sql, "CREATE INDEX IF NOT EXISTS [idx_t_deleted] ON [t](_deleted)");
    assert_eq!(list[6].sql, "CREATE INDEX IF NOT EXISTS [idx_t_status] ON [t](_status)");
    assert_eq!(list[6].failure, "Failed to create index idx_t_status: ");
    assert_eq!(
        list[7].sql,
        "CREATE INDEX IF NOT EXISTS [idx_t_n] ON [t](json_extract(data, '$.a.b'))"
    );
    assert_eq!(list[7].failure, "Failed to create json index idx_t_n: ");
    assert!(list[8].sql.starts_with("CREATE TABLE IF NOT EXISTS _change_log ("));
    for command in &list {
        assert!(command.params.is_empty());
    }
}

#[test]
fn creation_stops_at_the_first_refusal() {
    let mut conn = memory_conn();
    let schemas = vec![
        TableSchema { name: "a".to_string(), json_indexes: vec![] },
        TableSchema { name: "b]".to_string(), json_indexes: vec![] },
        TableSchema { name: "c".to_string(), json_indexes: vec![] },
    ];
    let message = create_tables(&mut conn, &schemas).unwrap_err();
    assert!(message.starts_with("Failed to create table 'b]': "), "{}", message);
    let tables = names(&conn, "SELECT name FROM sqlite_master WHERE type='table' ORDER BY name");
    assert!(tables.contains(&"a".to_string()));
    assert!(!tables.contains(&"c".to_string()));
}

#[test]
fn creating_again_changes_nothing() {
    let mut conn = memory_conn();
    let schema = TableSchema {
        name: "planning".to_string(),
        json_indexes: vec![JsonIndex { name: "n".to_string(), json_path: "a.b".to_string() }],
    };
    create_table(&mut conn, &schema).unwrap();
    conn.connection()
        .execute_batch(
            "INSERT INTO planning (_id, createdAt, updatedAt, data) VALUES ('d', '', '', '{}');
             INSERT INTO _change_log (table_name, doc_id, operation, timestamp) VALUES ('planning', 'd', 'DELETE', '');",
        )
        .unwrap();
    let before = names(&conn, "SELECT sql FROM sqlite_master ORDER BY name");
    create_table(&mut conn, &schema).unwrap();
    assert_eq!(names(&conn, "SELECT sql FROM sqlite_master ORDER BY name"), before);
    assert_eq!(names(&conn, "SELECT _id FROM planning"), vec!["d"]);
    assert_eq!(names(&conn, "SELECT doc_id FROM _change_log"), vec!["d"]);
}

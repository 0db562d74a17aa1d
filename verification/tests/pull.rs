use offlite::schema::{create_table, TableSchema};
use offlite::store::Store;
use offlite::sync::http::{is_success, Failure};
use offlite::sync::pull::{
    apply_pull_changes, get_checkpoint, pull_failure, pull_request_for, update_checkpoint,
    PullChange, PullResponse, PullSession,
};
use rusqlite::Connection;
use serde_json::Value;

/// Create an in-memory database with a business table and _change_log.
fn setup_project_db() -> Store {
    let conn = Connection::open_in_memory().unwrap();
    conn.execute_batch(
        "CREATE TABLE IF NOT EXISTS planning (
            _id         TEXT PRIMARY KEY,
            uid         INTEGER,
            companyId   INTEGER,
            p_id        TEXT,
            createdAt   TEXT NOT NULL DEFAULT '',
            updatedAt   TEXT NOT NULL DEFAULT '',
            _deleted    INTEGER DEFAULT 0,
            _version    INTEGER DEFAULT 1,
            data        TEXT NOT NULL DEFAULT '{}'
        );
        CREATE TABLE IF NOT EXISTS _change_log (
            id          INTEGER PRIMARY KEY AUTOINCREMENT,
            table_name  TEXT NOT NULL,
            doc_id      TEXT NOT NULL,
            operation   TEXT NOT NULL,
            data        TEXT,
            timestamp   TEXT NOT NULL,
            synced      INTEGER DEFAULT 0,
            sync_error  TEXT
        );",
    )
    .unwrap();
    Store::new(conn)
}

/// Create an in-memory database with the _sync_checkpoint table.
fn setup_global_db() -> Store {
    let conn = Connection::open_in_memory().unwrap();
    conn.execute_batch(
        "CREATE TABLE IF NOT EXISTS _sync_checkpoint (
            table_name   TEXT NOT NULL,
            sync_mode    TEXT NOT NULL,
            filter_key   TEXT NOT NULL,
            last_sync_at TEXT NOT NULL,
            PRIMARY KEY (table_name, sync_mode, filter_key)
        );",
    )
    .unwrap();
    Store::new(conn)
}

fn json(text: &str) -> Value {
    serde_json::from_str(text).unwrap()
}

fn change(doc_id: &str, data: &str, updated_at: &str, deleted: bool) -> PullChange {
    PullChange {
        doc_id: doc_id.to_string(),
        data: json(data),
        updated_at: updated_at.to_string(),
        deleted,
    }
}

fn text(store: &Store, column: &str, doc_id: &str) -> String {
    store
        .connection()
        .query_row(
            &format!("SELECT {} FROM planning WHERE _id = ?1", column),
            [doc_id],
            |row| row.get(0),
        )
        .unwrap()
}

fn deleted_flag(store: &Store, doc_id: &str) -> i32 {
    store
        .connection()
        .query_row("SELECT _deleted FROM planning WHERE _id = ?1", [doc_id], |row| row.get(0))
        .unwrap()
}

fn insert_doc(store: &Store, doc_id: &str, data: &str, time: &str) {
    store
        .connection()
        .execute(
            "INSERT INTO planning (_id, data, updatedAt, createdAt) VALUES (?1, ?2, ?3, ?4)",
            [doc_id, data, time, time],
        )
        .unwrap();
}

#[test]
fn test_apply_pull_changes_insert_new() {
    let mut conn = setup_project_db();

    let changes = vec![change(
        "doc_new",
        r#"{"name": "新文档", "area": 100.5}"#,
        "2025-07-01T00:00:00Z",
        false,
    )];

    let (applied, deleted) = apply_pull_changes(&mut conn, "planning", &changes).unwrap();
    assert_eq!(applied, 1);
    assert_eq!(deleted, 0);

    // Verify the row was inserted
    let parsed = json(&text(&conn, "data", "doc_new"));
    assert_eq!(parsed["name"], "新文档");
    assert_eq!(parsed["area"], 100.5);

    assert_eq!(text(&conn, "updatedAt", "doc_new"), "2025-07-01T00:00:00Z");
    assert_eq!(deleted_flag(&conn, "doc_new"), 0);
}

#[test]
fn test_apply_pull_changes_update_existing() {
    let mut conn = setup_project_db();

    // Insert an existing document
    insert_doc(&conn, "doc_exist", r#"{"name":"old"}"#, "2025-01-01T00:00:00Z");

    // Pull an update for the same doc
    let changes =
        vec![change("doc_exist", r#"{"name": "updated"}"#, "2025-07-01T12:00:00Z", false)];

    let (applied, deleted) = apply_pull_changes(&mut conn, "planning", &changes).unwrap();
    assert_eq!(applied, 1);
    assert_eq!(deleted, 0);

    // Verify the data was updated
    assert_eq!(json(&text(&conn, "data", "doc_exist"))["name"], "updated");
}

#[test]
fn test_apply_pull_changes_soft_delete() {
    let mut conn = setup_project_db();

    // Insert an existing document
    insert_doc(&conn, "doc_del", r#"{"name":"to_delete"}"#, "2025-01-01T00:00:00Z");

    // Pull a delete for the same doc
    let changes = vec![change("doc_del", "{}", "2025-07-01T00:00:00Z", true)];

    let (applied, deleted) = apply_pull_changes(&mut conn, "planning", &changes).unwrap();
    assert_eq!(applied, 0);
    assert_eq!(deleted, 1);

    // Verify the row is soft-deleted
    assert_eq!(deleted_flag(&conn, "doc_del"), 1);

    // updatedAt should be updated
    assert_eq!(text(&conn, "updatedAt", "doc_del"), "2025-07-01T00:00:00Z");
}

#[test]
fn test_apply_pull_changes_delete_nonexistent_is_noop() {
    let mut conn = setup_project_db();

    // Try to soft-delete a doc that doesn't exist
    let changes = vec![change("doc_ghost", "{}", "2025-07-01T00:00:00Z", true)];

    let (applied, deleted) = apply_pull_changes(&mut conn, "planning", &changes).unwrap();
    assert_eq!(applied, 0);
    assert_eq!(deleted, 0);
}

#[test]
fn test_apply_pull_changes_mixed_batch() {
    let mut conn = setup_project_db();

    // Pre-insert a doc that will be deleted
    insert_doc(&conn, "doc_b", r#"{"v":1}"#, "2025-01-01T00:00:00Z");

    let changes = vec![
        change("doc_a", r#"{"new": true}"#, "2025-07-01T00:00:00Z", false),
        change("doc_b", "{}", "2025-07-01T00:00:00Z", true),
        change("doc_c", r#"{"name": "c"}"#, "2025-07-01T00:00:00Z", false),
    ];

    let (applied, deleted) = apply_pull_changes(&mut conn, "planning", &changes).unwrap();
    assert_eq!(applied, 2);
    assert_eq!(deleted, 1);
}

#[test]
fn test_apply_pull_changes_does_not_write_change_log() {
    let mut conn = setup_project_db();

    let changes = vec![change("doc_pull", r#"{"from": "server"}"#, "2025-07-01T00:00:00Z", false)];

    apply_pull_changes(&mut conn, "planning", &changes).unwrap();

    // Verify _change_log is empty: pulled changes should NOT be logged
    let count: i64 = conn
        .connection()
        .query_row("SELECT COUNT(*) FROM _change_log", [], |row| row.get(0))
        .unwrap();
    assert_eq!(count, 0);
}

#[test]
fn test_get_checkpoint_none() {
    let mut conn = setup_global_db();
    let result = get_checkpoint(&mut conn, "planning", "project", "p_001").unwrap();
    assert!(result.is_none());
}

#[test]
fn test_update_and_get_checkpoint() {
    let mut conn = setup_global_db();

    update_checkpoint(&mut conn, "planning", "project", "p_001", "2025-07-01T00:00:00Z").unwrap();

    let result = get_checkpoint(&mut conn, "planning", "project", "p_001").unwrap();
    assert_eq!(result, Some("2025-07-01T00:00:00Z".to_string()));
}

#[test]
fn test_update_checkpoint_overwrites() {
    let mut conn = setup_global_db();

    update_checkpoint(&mut conn, "planning", "project", "p_001", "2025-01-01T00:00:00Z").unwrap();
    update_checkpoint(&mut conn, "planning", "project", "p_001", "2025-07-01T00:00:00Z").unwrap();

    let result = get_checkpoint(&mut conn, "planning", "project", "p_001").unwrap();
    assert_eq!(result, Some("2025-07-01T00:00:00Z".to_string()));
}

#[test]
fn test_checkpoint_isolation_by_table() {
    let mut conn = setup_global_db();

    update_checkpoint(&mut conn, "planning", "project", "p_001", "2025-01-01T00:00:00Z").unwrap();
    update_checkpoint(&mut conn, "sample", "project", "p_001", "2025-06-01T00:00:00Z").unwrap();

    let planning = get_checkpoint(&mut conn, "planning", "project", "p_001").unwrap();
    let sample = get_checkpoint(&mut conn, "sample", "project", "p_001").unwrap();

    assert_eq!(planning, Some("2025-01-01T00:00:00Z".to_string()));
    assert_eq!(sample, Some("2025-06-01T00:00:00Z".to_string()));
}

#[test]
fn test_checkpoint_isolation_by_mode() {
    let mut conn = setup_global_db();

    update_checkpoint(&mut conn, "planning", "user", "uid_1", "2025-01-01T00:00:00Z").unwrap();
    update_checkpoint(&mut conn, "planning", "company", "cid_1", "2025-06-01T00:00:00Z").unwrap();

    let user = get_checkpoint(&mut conn, "planning", "user", "uid_1").unwrap();
    let company = get_checkpoint(&mut conn, "planning", "company", "cid_1").unwrap();

    assert_eq!(user, Some("2025-01-01T00:00:00Z".to_string()));
    assert_eq!(company, Some("2025-06-01T00:00:00Z".to_string()));
}

#[test]
fn test_checkpoint_isolation_by_filter_key() {
    let mut conn = setup_global_db();

    update_checkpoint(&mut conn, "planning", "project", "p_001", "2025-01-01T00:00:00Z").unwrap();
    update_checkpoint(&mut conn, "planning", "project", "p_002", "2025-06-01T00:00:00Z").unwrap();

    let p1 = get_checkpoint(&mut conn, "planning", "project", "p_001").unwrap();
    let p2 = get_checkpoint(&mut conn, "planning", "project", "p_002").unwrap();

    assert_eq!(p1, Some("2025-01-01T00:00:00Z".to_string()));
    assert_eq!(p2, Some("2025-06-01T00:00:00Z".to_string()));
}

#[test]
fn a_refused_change_ends_the_page() {
    let mut conn = setup_project_db();
    let changes = vec![change("d", "{}", "2025", false)];
    assert_eq!(
        apply_pull_changes(&mut conn, "missing", &changes).unwrap_err(),
        "Failed to upsert doc 'd' in 'missing': no such table: missing"
    );
    let changes = vec![change("d", "{}", "2025", true)];
    assert_eq!(
        apply_pull_changes(&mut conn, "missing", &changes).unwrap_err(),
        "Failed to soft-delete doc 'd' in 'missing': no such table: missing"
    );
}

#[test]
fn checkpoint_failures_are_named() {
    let mut conn = setup_project_db();
    assert!(get_checkpoint(&mut conn, "t", "m", "k")
        .unwrap_err()
        .starts_with("Failed to read checkpoint: no such table: _sync_checkpoint"));
    assert!(update_checkpoint(&mut conn, "t", "m", "k", "2025")
        .unwrap_err()
        .starts_with("Failed to update checkpoint: no such table: _sync_checkpoint"));
    assert!(PullSession::start(&mut conn, "t", "m", "k").is_err());

    let mut conn = setup_global_db();
    conn.connection()
        .execute(
            "INSERT INTO _sync_checkpoint VALUES ('t', 'm', 'k', x'ff')",
            [],
        )
        .unwrap();
    assert!(get_checkpoint(&mut conn, "t", "m", "k")
        .unwrap_err()
        .starts_with("Failed to read checkpoint: "));
}

#[test]
fn the_request_for_a_page_is_exact() {
    let request = pull_request_for("https://h//", "tok", "planning", "2025", "project", "p 1");
    assert_eq!(request.url, "https://h/offlite/sync/planning/pull");
    let query: Vec<(&str, &str)> =
        request.query.iter().map(|(n, v)| (n.as_str(), v.as_str())).collect();
    assert_eq!(query, vec![("since", "2025"), ("mode", "project"), ("filter_key", "p 1")]);
    let headers: Vec<(&str, &str)> =
        request.headers.iter().map(|(n, v)| (n.as_str(), v.as_str())).collect();
    assert_eq!(headers, vec![("Accept", "application/sjs"), ("Authorization", "Bearer tok")]);
}

#[test]
fn failures_of_a_pull_are_named() {
    let e = || "e".to_string();
    assert_eq!(pull_failure(&Failure::Send(e())), "Pull request failed: e");
    assert_eq!(pull_failure(&Failure::Status(e())), "Pull endpoint returned status e");
    assert_eq!(pull_failure(&Failure::Body(e())), "Failed to read pull response body: e");
    assert_eq!(
        pull_failure(&Failure::Decode(e())),
        "Failed to decode pull response MessagePack: e"
    );
    assert!(!is_success(199) && is_success(200) && is_success(299) && !is_success(300));
}

#[test]
fn a_pull_goes_page_by_page() {
    let mut global = setup_global_db();
    let mut project = setup_project_db();
    insert_doc(&project, "old", "{}", "2024");

    let mut session = PullSession::start(&mut global, "planning", "project", "p").unwrap();
    let request = session.next_request("https://h", "tok");
    assert_eq!(request.query[0].1, "");

    let first = PullResponse {
        changes: vec![change("a", "1", "2025-01", false), change("old", "{}", "2025-01", true)],
        server_time: "2025-01".to_string(),
        has_more: true,
    };
    assert!(session.has_room(&first));
    assert!(session.take_page(&mut project, first).unwrap());
    assert_eq!(session.next_request("https://h", "tok").query[0].1, "2025-01");

    let second = PullResponse {
        changes: vec![change("b", "2", "2025-02", false), change("ghost", "{}", "2025-02", true)],
        server_time: "2025-02".to_string(),
        has_more: false,
    };
    assert!(session.has_room(&second));
    assert!(!session.take_page(&mut project, second).unwrap());

    let summary = session.finish(&mut global).unwrap();
    assert_eq!(summary.pulled, 3);
    assert_eq!(summary.applied, 2);
    assert_eq!(summary.deleted, 1);
    assert_eq!(summary.pages, 2);
    assert_eq!(
        get_checkpoint(&mut global, "planning", "project", "p").unwrap(),
        Some("2025-02".to_string())
    );
    // The next pull goes on where this one ended.
    let session = PullSession::start(&mut global, "planning", "project", "p").unwrap();
    assert_eq!(session.next_request("https://h", "tok").query[0].1, "2025-02");
}

#[test]
fn without_a_server_time_the_checkpoint_stays() {
    let mut global = setup_global_db();
    let mut project = setup_project_db();
    let mut session = PullSession::start(&mut global, "planning", "project", "p").unwrap();
    let page = PullResponse { changes: vec![], server_time: String::new(), has_more: false };
    assert!(!session.take_page(&mut project, page).unwrap());
    let summary = session.finish(&mut global).unwrap();
    assert_eq!((summary.pulled, summary.pages), (0, 1));
    assert_eq!(get_checkpoint(&mut global, "planning", "project", "p").unwrap(), None);
}

#[test]
fn a_pull_stands_where_it_stood_after_a_refusal() {
    let mut global = setup_global_db();
    let mut project = Store::new(Connection::open_in_memory().unwrap());
    let mut session = PullSession::start(&mut global, "planning", "project", "p").unwrap();
    let page = PullResponse {
        changes: vec![change("a", "1", "2025-01", false)],
        server_time: "2025-01".to_string(),
        has_more: true,
    };
    assert!(session.take_page(&mut project, page).is_err());
    assert_eq!(session.next_request("https://h", "tok").query[0].1, "");
}

/// A database with a table of the schema.
fn setup_schema_db() -> Store {
    let mut store = Store::new(Connection::open_in_memory().unwrap());
    let schema = TableSchema { name: "planning".to_string(), json_indexes: vec![] };
    create_table(&mut store, &schema).unwrap();
    store
}

/// All rows of the table, in the order of their keys.
fn all_rows(store: &Store) -> Vec<Vec<rusqlite::types::Value>> {
    let mut statement = store.connection().prepare("SELECT * FROM planning ORDER BY _id").unwrap();
    let width = statement.column_count();
    let rows = statement
        .query_map([], |row| (0..width).map(|i| row.get(i)).collect::<Result<Vec<_>, _>>())
        .unwrap();
    rows.map(|row| row.unwrap()).collect()
}

#[test]
fn changes_are_pulled_into_a_table_of_the_schema() {
    let mut store = setup_schema_db();
    let page = [change("d1", r#"{"v":1}"#, "2025-07-01T00:00:00Z", false)];
    assert_eq!(apply_pull_changes(&mut store, "planning", &page).unwrap(), (1, 0));
    assert_eq!(text(&store, "data", "d1"), r#"{"v":1}"#);
    assert_eq!(text(&store, "updatedAt", "d1"), "2025-07-01T00:00:00Z");
    assert_eq!(text(&store, "createdAt", "d1"), "2025-07-01T00:00:00Z");
    assert_eq!(text(&store, "_status", "d1"), "synced");
    assert_eq!(deleted_flag(&store, "d1"), 0);

    let page = [change("d1", r#"{"v":2}"#, "2025-08-01T00:00:00Z", false)];
    assert_eq!(apply_pull_changes(&mut store, "planning", &page).unwrap(), (1, 0));
    assert_eq!(text(&store, "data", "d1"), r#"{"v":2}"#);
    assert_eq!(text(&store, "updatedAt", "d1"), "2025-08-01T00:00:00Z");
    assert_eq!(text(&store, "createdAt", "d1"), "2025-07-01T00:00:00Z");
}

#[test]
fn the_same_changes_pulled_twice_alter_nothing() {
    let mut store = setup_schema_db();
    insert_doc(&store, "kept", "{}", "2025-01");
    insert_doc(&store, "gone", "{}", "2025-01");
    let page = [
        change("a", "1", "2025-02", false),
        change("a", "2", "2025-03", false),
        change("b", "1", "2025-02", false),
        change("b", "null", "2025-03", true),
        change("c", "null", "2025-02", true),
        change("c", "1", "2025-03", false),
        change("gone", "null", "2025-04", true),
        change("never", "null", "2025-04", true),
    ];
    assert_eq!(apply_pull_changes(&mut store, "planning", &page).unwrap(), (4, 2));
    let once = all_rows(&store);
    assert_eq!(once.len(), 5);
    assert_eq!(text(&store, "createdAt", "a"), "2025-02");
    assert_eq!(deleted_flag(&store, "b"), 1);
    assert_eq!(deleted_flag(&store, "c"), 0);
    assert_eq!(deleted_flag(&store, "gone"), 1);
    apply_pull_changes(&mut store, "planning", &page).unwrap();
    assert_eq!(all_rows(&store), once);
}

#[test]
fn an_unreadable_checkpoint_is_named() {
    let mut store = setup_global_db();
    store
        .connection()
        .execute_batch("INSERT INTO _sync_checkpoint VALUES ('t', 'm', 'k', x'00');")
        .unwrap();
    assert_eq!(
        get_checkpoint(&mut store, "t", "m", "k").unwrap_err(),
        "Failed to read checkpoint: Invalid column type Blob at index: 0, name: last_sync_at"
    );
}

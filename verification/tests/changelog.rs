use offlite::changelog::{
    get_all_pending_changes, get_pending_changes, mark_sync_error, mark_synced, record_change,
    record_change_at, ChangeRecord,
};
use offlite::sql::QueryOutcome;
use offlite::store::Store;
use rusqlite::Connection;

/// Create an in-memory database with the `_change_log` table.
fn setup_conn() -> Store {
    let conn = Connection::open_in_memory().unwrap();
    conn.execute_batch(
        "CREATE TABLE IF NOT EXISTS _change_log (
            id          INTEGER PRIMARY KEY AUTOINCREMENT,
            table_name  TEXT NOT NULL,
            doc_id      TEXT NOT NULL,
            operation   TEXT NOT NULL,
            data        TEXT,
            timestamp   TEXT NOT NULL,
            synced      INTEGER DEFAULT 0,
            sync_error  TEXT
        );
        CREATE INDEX IF NOT EXISTS idx_change_log_synced ON _change_log(synced, timestamp);",
    )
    .unwrap();
    Store::new(conn)
}

fn read_record(store: &Store, id: i64) -> ChangeRecord {
    store
        .connection()
        .query_row(
            "SELECT id, table_name, doc_id, operation, data, timestamp, synced, sync_error FROM _change_log WHERE id = ?1",
            [id],
            |row| {
                Ok(ChangeRecord {
                    id: row.get(0)?,
                    table_name: row.get(1)?,
                    doc_id: row.get(2)?,
                    operation: row.get(3)?,
                    data: row.get(4)?,
                    timestamp: row.get(5)?,
                    synced: row.get(6)?,
                    sync_error: row.get(7)?,
                })
            },
        )
        .unwrap()
}

#[test]
fn test_record_insert_change() {
    let mut conn = setup_conn();
    let id =
        record_change(&mut conn, "planning", "doc_1", "INSERT", Some(r#"{"name":"test"}"#)).unwrap();
    assert!(id > 0);

    let rec = read_record(&conn, id);

    assert_eq!(rec.table_name, "planning");
    assert_eq!(rec.doc_id, "doc_1");
    assert_eq!(rec.operation, "INSERT");
    assert_eq!(rec.data.as_deref(), Some(r#"{"name":"test"}"#));
    assert_eq!(rec.synced, 0);
    assert!(rec.sync_error.is_none());
    // Timestamp should be a valid ISO 8601 string
    assert!(rec.timestamp.contains('T'));
    assert!(rec.timestamp.ends_with("+00:00"));
}

#[test]
fn test_record_update_change() {
    let mut conn = setup_conn();
    let id = record_change(&mut conn, "sample", "doc_2", "UPDATE", Some(r#"{"v":2}"#)).unwrap();

    let rec = read_record(&conn, id);

    assert_eq!(rec.operation, "UPDATE");
    assert_eq!(rec.data.as_deref(), Some(r#"{"v":2}"#));
}

#[test]
fn test_record_delete_change() {
    let mut conn = setup_conn();
    let id = record_change(&mut conn, "planning", "doc_3", "DELETE", None).unwrap();

    let rec = read_record(&conn, id);

    assert_eq!(rec.operation, "DELETE");
    assert!(rec.data.is_none());
}

#[test]
fn test_get_pending_changes_filtered_by_table() {
    let mut conn = setup_conn();
    record_change(&mut conn, "planning", "d1", "INSERT", Some("{}")).unwrap();
    record_change(&mut conn, "sample", "d2", "INSERT", Some("{}")).unwrap();
    record_change(&mut conn, "planning", "d3", "UPDATE", Some("{}")).unwrap();

    let pending = get_pending_changes(&mut conn, "planning").unwrap();
    assert_eq!(pending.len(), 2);
    assert!(pending.iter().all(|r| r.table_name == "planning"));
}

#[test]
fn test_get_all_pending_changes() {
    let mut conn = setup_conn();
    record_change(&mut conn, "planning", "d1", "INSERT", Some("{}")).unwrap();
    record_change(&mut conn, "sample", "d2", "INSERT", Some("{}")).unwrap();
    record_change(&mut conn, "planning", "d3", "DELETE", None).unwrap();

    let pending = get_all_pending_changes(&mut conn).unwrap();
    assert_eq!(pending.len(), 3);
}

#[test]
fn test_mark_synced() {
    let mut conn = setup_conn();
    let id1 = record_change(&mut conn, "planning", "d1", "INSERT", Some("{}")).unwrap();
    let id2 = record_change(&mut conn, "planning", "d2", "UPDATE", Some("{}")).unwrap();
    let _id3 = record_change(&mut conn, "planning", "d3", "DELETE", None).unwrap();

    let affected = mark_synced(&mut conn, &[id1, id2]).unwrap();
    assert_eq!(affected, 2);

    // Only d3 should remain pending
    let pending = get_all_pending_changes(&mut conn).unwrap();
    assert_eq!(pending.len(), 1);
    assert_eq!(pending[0].doc_id, "d3");

    // Verify synced records have synced=1
    assert_eq!(read_record(&conn, id1).synced, 1);
}

#[test]
fn test_mark_synced_empty_ids() {
    let mut conn = setup_conn();
    let affected = mark_synced(&mut conn, &[]).unwrap();
    assert_eq!(affected, 0);
}

#[test]
fn test_mark_sync_error() {
    let mut conn = setup_conn();
    let id = record_change(&mut conn, "planning", "d1", "INSERT", Some("{}")).unwrap();

    mark_sync_error(&mut conn, id, "network timeout").unwrap();

    let rec = read_record(&conn, id);
    assert_eq!(rec.sync_error.as_deref(), Some("network timeout"));

    // The record should still be pending (synced=0)
    assert_eq!(rec.synced, 0);
}

#[test]
fn test_pending_changes_ordered_by_timestamp() {
    let mut conn = setup_conn();
    // Insert with explicit timestamps to verify ordering
    let insert = "INSERT INTO _change_log (table_name, doc_id, operation, data, timestamp) VALUES (?1, ?2, ?3, ?4, ?5)";
    conn.connection()
        .execute(insert, ["t", "d2", "INSERT", "{}", "2025-01-02T00:00:00Z"])
        .unwrap();
    conn.connection()
        .execute(insert, ["t", "d1", "INSERT", "{}", "2025-01-01T00:00:00Z"])
        .unwrap();
    conn.connection()
        .execute(insert, ["t", "d3", "INSERT", "{}", "2025-01-03T00:00:00Z"])
        .unwrap();

    let pending = get_pending_changes(&mut conn, "t").unwrap();
    assert_eq!(pending.len(), 3);
    assert_eq!(pending[0].doc_id, "d1");
    assert_eq!(pending[1].doc_id, "d2");
    assert_eq!(pending[2].doc_id, "d3");
}

#[test]
fn every_column_of_a_pending_record_is_read() {
    let mut conn = setup_conn();
    let id = record_change_at(&mut conn, "t", "d", "UPDATE", None, "2025-01-02T00:00:00Z").unwrap();
    mark_sync_error(&mut conn, id, "later").unwrap();
    let pending = get_all_pending_changes(&mut conn).unwrap();
    assert_eq!(pending.len(), 1);
    let record = pending[0].clone();
    assert_eq!(record.id, id);
    assert_eq!(record.table_name, "t");
    assert_eq!(record.doc_id, "d");
    assert_eq!(record.operation, "UPDATE");
    assert_eq!(record.data, None);
    assert_eq!(record.timestamp, "2025-01-02T00:00:00Z");
    assert_eq!(record.synced, 0);
    assert_eq!(record.sync_error.as_deref(), Some("later"));
}

#[test]
fn a_row_that_is_no_record_is_refused() {
    let conn = setup_conn();
    conn.connection()
        .execute(
            "INSERT INTO _change_log (table_name, doc_id, operation, data, timestamp) VALUES ('t', 'd', 'INSERT', x'00ff', '2025')",
            [],
        )
        .unwrap();
    let mut conn = conn;
    let message = get_pending_changes(&mut conn, "t").unwrap_err();
    assert!(message.starts_with("Failed to read change record row: "), "{}", message);
}

#[test]
fn messages_name_what_was_refused() {
    let mut conn = Store::new(Connection::open_in_memory().unwrap());
    assert_eq!(
        record_change(&mut conn, "t", "d", "INSERT", None).unwrap_err(),
        "Failed to record change: no such table: _change_log"
    );
    assert!(get_pending_changes(&mut conn, "t")
        .unwrap_err()
        .starts_with("Failed to prepare get_pending_changes: no such table: _change_log"));
    assert!(get_all_pending_changes(&mut conn)
        .unwrap_err()
        .starts_with("Failed to prepare get_all_pending_changes: no such table: _change_log"));
    assert_eq!(
        mark_synced(&mut conn, &[7]).unwrap_err(),
        "Failed to mark changes as synced: no such table: _change_log"
    );
    assert_eq!(
        mark_sync_error(&mut conn, 7, "x").unwrap_err(),
        "Failed to mark sync error: no such table: _change_log"
    );
}

#[test]
fn all_pending_changes_are_those_of_the_tables() {
    let mut conn = setup_conn();
    let mut ids = Vec::new();
    for (table, time) in [("b", "3"), ("a", "2"), ("c", "5"), ("a", "4"), ("b", "1")] {
        ids.push(record_change_at(&mut conn, table, "d", "DELETE", None, time).unwrap());
    }
    mark_synced(&mut conn, &ids[2..3]).unwrap();
    let all: Vec<(i64, String)> = get_all_pending_changes(&mut conn)
        .unwrap()
        .into_iter()
        .map(|record| (record.id, record.table_name))
        .collect();
    let order: Vec<i64> = all.iter().map(|entry| entry.0).collect();
    assert_eq!(order, vec![ids[4], ids[1], ids[0], ids[3]]);
    for table in ["a", "b", "c"] {
        let own: Vec<i64> = get_pending_changes(&mut conn, table)
            .unwrap()
            .into_iter()
            .map(|record| record.id)
            .collect();
        let part: Vec<i64> =
            all.iter().filter(|entry| entry.1 == table).map(|entry| entry.0).collect();
        assert_eq!(own, part);
    }
}

#[test]
fn unreadable_records_are_refused_in_the_words_of_the_driver() {
    let cases = [
        ("x'00'", "'a'", "'d'", "'op'", "NULL", "'time'", "0", "NULL"),
        ("1", "x'00'", "'d'", "'op'", "NULL", "'time'", "0", "NULL"),
        ("1", "'a'", "NULL", "'op'", "NULL", "'time'", "0", "NULL"),
        ("1", "'a'", "'d'", "2", "NULL", "'time'", "0", "NULL"),
        ("1", "'a'", "'d'", "'op'", "1.5", "'time'", "0", "NULL"),
        ("1", "'a'", "'d'", "'op'", "NULL", "CAST(x'74ff' AS TEXT)", "0", "NULL"),
        ("1", "'a'", "'d'", "'op'", "NULL", "'time'", "4294967296", "NULL"),
        ("1", "'a'", "'d'", "'op'", "NULL", "'time'", "-2147483649", "NULL"),
        ("1", "'a'", "'d'", "'op'", "NULL", "'time'", "0", "x''"),
        ("'id'", "1", "2", "3", "4", "5", "'s'", "7"),
    ];
    for (id, table, doc, op, data, time, synced, error) in cases {
        let sql = format!(
            "SELECT {} AS id, {} AS table_name, {} AS doc_id, {} AS operation, {} AS data, {} AS timestamp, {} AS synced, {} AS sync_error",
            id, table, doc, op, data, time, synced, error
        );
        let mut conn = setup_conn();
        let expected = conn
            .connection()
            .query_row(&sql, [], |row| {
                row.get::<_, i64>(0)?;
                for i in [1, 2, 3] {
                    row.get::<_, String>(i)?;
                }
                row.get::<_, Option<String>>(4)?;
                row.get::<_, String>(5)?;
                row.get::<_, i32>(6)?;
                row.get::<_, Option<String>>(7)
            })
            .unwrap_err()
            .to_string();
        match conn.select_changes(&sql, &vec![]) {
            QueryOutcome::Rows(rows) => {
                assert_eq!(rows.len(), 1);
                assert_eq!(rows[0].as_ref().err(), Some(&expected));
            }
            _ => panic!("the query runs"),
        }
    }
    let mut conn = setup_conn();
    match conn.select_changes("SELECT 1, 'a'", &vec![]) {
        QueryOutcome::Rows(rows) => {
            assert_eq!(rows[0].as_ref().err(), Some(&"Invalid column index: 2".to_string()));
        }
        _ => panic!("the query runs"),
    }
}

#[test]
fn an_unreadable_record_is_named_by_the_query() {
    let mut conn = setup_conn();
    conn.connection()
        .execute_batch(
            "INSERT INTO _change_log (table_name, doc_id, operation, timestamp) VALUES ('a', x'00', 'DELETE', '1');",
        )
        .unwrap();
    let message =
        "Failed to read change record row: Invalid column type Blob at index: 2, name: doc_id";
    assert_eq!(get_pending_changes(&mut conn, "a").unwrap_err(), message);
    assert_eq!(get_all_pending_changes(&mut conn).unwrap_err(), message);
}

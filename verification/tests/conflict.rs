use offlite::clock::compare_timestamps;
use offlite::schema::{create_table, TableSchema};
use offlite::store::Store;
use offlite::sync::conflict::{
    decide, decide_by, ensure_conflict_log_table, log_conflict, log_conflicts, resolve_conflict,
    resolve_conflict_at, resolve_conflicts, scan_and_resolve_all, ConflictResolution,
    ConflictWinner,
};
use offlite::sync::push::ConflictInfo;
use rusqlite::Connection;
use serde_json::Value;

/// Create an in-memory database with a business table for testing.
fn setup_project_db() -> Store {
    let conn = Connection::open_in_memory().unwrap();
    conn.execute_batch(
        "CREATE TABLE IF NOT EXISTS planning (
            _id         TEXT PRIMARY KEY,
            uid         INTEGER,
            companyId   INTEGER,
            p_id        TEXT,
            createdAt   TEXT NOT NULL DEFAULT '',
            updatedAt   TEXT NOT NULL DEFAULT '',
            _deleted    INTEGER DEFAULT 0,
            _version    INTEGER DEFAULT 1,
            data        TEXT NOT NULL DEFAULT '{}'
        );",
    )
    .unwrap();
    Store::new(conn)
}

/// Insert a local document with a specific updatedAt timestamp.
fn insert_local_doc(store: &Store, doc_id: &str, data: &str, updated_at: &str) {
    store
        .connection()
        .execute(
            "INSERT INTO planning (_id, data, updatedAt, createdAt) VALUES (?1, ?2, ?3, ?3)",
            [doc_id, data, updated_at],
        )
        .unwrap();
}

fn json(text: &str) -> Value {
    serde_json::from_str(text).unwrap()
}

fn make_conflict(doc_id: &str, server_data: Value, server_updated_at: &str) -> ConflictInfo {
    ConflictInfo {
        doc_id: doc_id.to_string(),
        server_data,
        server_updated_at: server_updated_at.to_string(),
    }
}

fn local_data(store: &Store, doc_id: &str) -> Value {
    let data: String = store
        .connection()
        .query_row("SELECT data FROM planning WHERE _id = ?1", [doc_id], |row| row.get(0))
        .unwrap();
    json(&data)
}

#[test]
fn test_lww_server_newer_wins() {
    let mut conn = setup_project_db();
    insert_local_doc(&conn, "doc_1", r#"{"v":"local"}"#, "2025-01-01T00:00:00Z");

    let conflict = make_conflict("doc_1", json(r#"{"v": "server"}"#), "2025-07-01T00:00:00Z");

    let resolution = resolve_conflict(&mut conn, "planning", &conflict).unwrap();

    assert_eq!(resolution.doc_id, "doc_1");
    assert_eq!(resolution.local_updated_at, "2025-01-01T00:00:00Z");
    assert_eq!(resolution.server_updated_at, "2025-07-01T00:00:00Z");
    assert_eq!(resolution.winner, ConflictWinner::Server);

    // Verify local doc was updated with server data
    assert_eq!(local_data(&conn, "doc_1")["v"], "server");
}

#[test]
fn test_lww_local_newer_wins() {
    let mut conn = setup_project_db();
    insert_local_doc(&conn, "doc_2", r#"{"v":"local"}"#, "2025-07-01T00:00:00Z");

    let conflict = make_conflict("doc_2", json(r#"{"v": "server"}"#), "2025-01-01T00:00:00Z");

    let resolution = resolve_conflict(&mut conn, "planning", &conflict).unwrap();

    assert_eq!(resolution.winner, ConflictWinner::Local);

    // Verify local doc was NOT changed
    assert_eq!(local_data(&conn, "doc_2")["v"], "local");
}

#[test]
fn test_lww_same_timestamp_server_wins() {
    let mut conn = setup_project_db();
    let ts = "2025-06-15T12:00:00Z";
    insert_local_doc(&conn, "doc_3", r#"{"v":"local"}"#, ts);

    let conflict = make_conflict("doc_3", json(r#"{"v": "server"}"#), ts);

    let resolution = resolve_conflict(&mut conn, "planning", &conflict).unwrap();

    assert_eq!(resolution.winner, ConflictWinner::Server);

    // Verify server data was applied
    assert_eq!(local_data(&conn, "doc_3")["v"], "server");
}

#[test]
fn test_lww_no_local_doc_server_wins() {
    let mut conn = setup_project_db();

    let conflict =
        make_conflict("doc_new", json(r#"{"v": "server_new"}"#), "2025-07-01T00:00:00Z");

    let resolution = resolve_conflict(&mut conn, "planning", &conflict).unwrap();

    assert_eq!(resolution.winner, ConflictWinner::Server);
    assert!(resolution.local_updated_at.is_empty());

    // Verify server doc was inserted
    assert_eq!(local_data(&conn, "doc_new")["v"], "server_new");
}

#[test]
fn test_resolve_conflicts_batch() {
    let mut conn = setup_project_db();
    insert_local_doc(&conn, "d1", r#"{"v":"local1"}"#, "2025-01-01T00:00:00Z");
    insert_local_doc(&conn, "d2", r#"{"v":"local2"}"#, "2025-07-01T00:00:00Z");
    insert_local_doc(&conn, "d3", r#"{"v":"local3"}"#, "2025-06-01T00:00:00Z");

    let conflicts = vec![
        make_conflict("d1", json(r#"{"v": "s1"}"#), "2025-06-01T00:00:00Z"), // server newer
        make_conflict("d2", json(r#"{"v": "s2"}"#), "2025-01-01T00:00:00Z"), // local newer
        make_conflict("d3", json(r#"{"v": "s3"}"#), "2025-06-01T00:00:00Z"), // same time
    ];

    let resolutions = resolve_conflicts(&mut conn, "planning", &conflicts).unwrap();

    assert_eq!(resolutions.len(), 3);
    assert_eq!(resolutions[0].winner, ConflictWinner::Server);
    assert_eq!(resolutions[1].winner, ConflictWinner::Local);
    assert_eq!(resolutions[2].winner, ConflictWinner::Server);
}

#[test]
fn test_log_conflict() {
    let mut conn = setup_project_db();

    let resolution = ConflictResolution {
        doc_id: "doc_log".to_string(),
        local_updated_at: "2025-01-01T00:00:00Z".to_string(),
        server_updated_at: "2025-07-01T00:00:00Z".to_string(),
        winner: ConflictWinner::Server,
        resolved_at: "2025-07-01T12:00:00Z".to_string(),
    };

    let id = log_conflict(&mut conn, "planning", &resolution).unwrap();
    assert!(id > 0);

    // Verify the log entry
    let (doc_id, table, winner): (String, String, String) = conn
        .connection()
        .query_row(
            "SELECT doc_id, table_name, winner FROM _conflict_log WHERE id = ?1",
            [id],
            |row| Ok((row.get(0)?, row.get(1)?, row.get(2)?)),
        )
        .unwrap();

    assert_eq!(doc_id, "doc_log");
    assert_eq!(table, "planning");
    assert_eq!(winner, "server");
}

#[test]
fn test_log_conflicts_batch() {
    let mut conn = setup_project_db();

    let resolutions = vec![
        ConflictResolution {
            doc_id: "d1".to_string(),
            local_updated_at: "2025-01-01T00:00:00Z".to_string(),
            server_updated_at: "2025-07-01T00:00:00Z".to_string(),
            winner: ConflictWinner::Server,
            resolved_at: "2025-07-01T12:00:00Z".to_string(),
        },
        ConflictResolution {
            doc_id: "d2".to_string(),
            local_updated_at: "2025-07-01T00:00:00Z".to_string(),
            server_updated_at: "2025-01-01T00:00:00Z".to_string(),
            winner: ConflictWinner::Local,
            resolved_at: "2025-07-01T12:00:00Z".to_string(),
        },
    ];

    let ids = log_conflicts(&mut conn, "planning", &resolutions).unwrap();
    assert_eq!(ids.len(), 2);

    // Verify count
    let count: i64 = conn
        .connection()
        .query_row("SELECT COUNT(*) FROM _conflict_log", [], |row| row.get(0))
        .unwrap();
    assert_eq!(count, 2);
}

#[test]
fn test_scan_and_resolve_all_returns_empty() {
    let conn = setup_project_db();
    let result = scan_and_resolve_all(&conn, "planning").unwrap();
    assert!(result.is_empty());
}

#[test]
fn test_conflict_winner_display() {
    assert_eq!(ConflictWinner::Local.to_string(), "local");
    assert_eq!(ConflictWinner::Server.to_string(), "server");
}

#[test]
fn the_last_write_wins() {
    assert_eq!(decide("", ""), ConflictWinner::Server);
    assert_eq!(decide("", "2025"), ConflictWinner::Server);
    assert_eq!(decide("2025", ""), ConflictWinner::Local);
    assert_eq!(decide("2025", "2024"), ConflictWinner::Local);
    assert_eq!(decide("2024", "2025"), ConflictWinner::Server);
    assert_eq!(decide("2025", "2025"), ConflictWinner::Server);
    assert_eq!(decide("2025-01", "2025"), ConflictWinner::Local);
    assert_eq!(decide("z", "é"), ConflictWinner::Server);
    assert_eq!(decide("\u{10000}", "\u{ffff}"), ConflictWinner::Local);
}

#[test]
fn resolving_again_keeps_the_resolution() {
    let mut conn = setup_project_db();
    insert_local_doc(&conn, "d", r#"{"v":"local"}"#, "2025-01-01");
    let conflict = make_conflict("d", json(r#"{"v":"server"}"#), "2025-02-01");
    let first =
        resolve_conflict_at(&mut conn, "planning", &conflict, "2025-03-01".to_string()).unwrap();
    assert_eq!(first.winner, ConflictWinner::Server);
    assert_eq!(first.resolved_at, "2025-03-01");
    let again =
        resolve_conflict_at(&mut conn, "planning", &conflict, "2025-03-02".to_string()).unwrap();
    assert_eq!(again.winner, ConflictWinner::Server);
    assert_eq!(again.local_updated_at, "2025-02-01");
    assert_eq!(local_data(&conn, "d")["v"], "server");
}

#[test]
fn the_order_of_arrival_does_not_matter() {
    let versions = ["2025-01-01", "2025-02-01"];
    for order in [[0, 1], [1, 0]] {
        let mut conn = setup_project_db();
        for i in order {
            let conflict = make_conflict("d", json(&format!(r#"{{"v":{}}}"#, i)), versions[i]);
            resolve_conflict(&mut conn, "planning", &conflict).unwrap();
        }
        assert_eq!(local_data(&conn, "d")["v"], 1);
    }
}

#[test]
fn a_refused_conflict_ends_the_batch() {
    let mut conn = setup_project_db();
    conn.connection()
        .execute_batch(
            "CREATE TRIGGER no_d2 BEFORE INSERT ON planning WHEN NEW._id = 'd2' BEGIN SELECT RAISE(ABORT, 'refused'); END;",
        )
        .unwrap();
    let conflicts = vec![
        make_conflict("d1", json("1"), "2025"),
        make_conflict("d2", json("2"), "2025"),
        make_conflict("d3", json("3"), "2025"),
    ];
    let message = resolve_conflicts(&mut conn, "planning", &conflicts).unwrap_err();
    assert_eq!(message, "Failed to apply server version for doc 'd2': refused");
    let count: i64 = conn
        .connection()
        .query_row("SELECT COUNT(*) FROM planning", [], |row| row.get(0))
        .unwrap();
    assert_eq!(count, 1);
}

#[test]
fn refusals_of_the_conflict_log_are_named() {
    let mut conn = setup_project_db();
    ensure_conflict_log_table(&mut conn).unwrap();
    ensure_conflict_log_table(&mut conn).unwrap();
    conn.connection()
        .execute_batch(
            "CREATE TRIGGER no_log BEFORE INSERT ON _conflict_log BEGIN SELECT RAISE(ABORT, 'refused'); END;",
        )
        .unwrap();
    let resolution = ConflictResolution {
        doc_id: "d".to_string(),
        local_updated_at: String::new(),
        server_updated_at: String::new(),
        winner: ConflictWinner::Local,
        resolved_at: String::new(),
    };
    assert_eq!(
        log_conflict(&mut conn, "planning", &resolution).unwrap_err(),
        "Failed to log conflict resolution: refused"
    );
    assert_eq!(
        log_conflicts(&mut conn, "planning", &[resolution.clone()]).unwrap_err(),
        "Failed to log conflict resolution: refused"
    );
    let view = Connection::open_in_memory().unwrap();
    view.execute_batch("CREATE INDEX x ON y(z);").unwrap_err();
    let mut readonly = Store::new(view);
    readonly.connection().execute_batch("PRAGMA query_only = 1;").unwrap();
    assert!(ensure_conflict_log_table(&mut readonly)
        .unwrap_err()
        .starts_with("Failed to create _conflict_log table: "));
    assert!(log_conflict(&mut readonly, "planning", &resolution)
        .unwrap_err()
        .starts_with("Failed to create _conflict_log table: "));
}

#[test]
fn the_newer_instant_wins() {
    let cases = [
        ("2025-07-01T00:00:00.500Z", "2025-07-01T00:00:00Z", ConflictWinner::Local),
        ("2025-07-01T00:00:00Z", "2025-07-01T00:00:00.500Z", ConflictWinner::Server),
        ("2025-07-01T00:00:00+00:00", "2025-07-01T00:00:00Z", ConflictWinner::Server),
        ("2025-07-01T00:00:00Z", "2025-07-01T00:00:00+00:00", ConflictWinner::Server),
        ("2025-07-01T01:00:00Z", "2025-07-01T02:00:00+02:00", ConflictWinner::Local),
        ("2025-07-01T02:00:00+02:00", "2025-07-01T01:00:00Z", ConflictWinner::Server),
        ("2025-07-01T00:00:00.000000002Z", "2025-07-01T00:00:00.000000001Z", ConflictWinner::Local),
        ("1969-12-31T23:59:59Z", "1970-01-01T00:00:00Z", ConflictWinner::Server),
        ("2025-07-01T00:00:00Z", "2025-07-01 00:00", ConflictWinner::Local),
        ("2025-07-01 00:00", "2025-07-01T00:00:00Z", ConflictWinner::Server),
    ];
    for (local, server, winner) in cases {
        assert_eq!(decide(local, server), winner, "{} against {}", local, server);
    }
}

#[test]
fn instants_decide_where_both_are_known() {
    assert_eq!(decide_by("a", Some((2, 0)), "b", Some((1, 9))), ConflictWinner::Local);
    assert_eq!(decide_by("b", Some((1, 9)), "a", Some((2, 0))), ConflictWinner::Server);
    assert_eq!(decide_by("b", Some((1, 5)), "a", Some((1, 5))), ConflictWinner::Server);
    assert_eq!(decide_by("a", Some((1, 6)), "b", Some((1, 5))), ConflictWinner::Local);
    assert_eq!(decide_by("a", None, "b", Some((0, 0))), ConflictWinner::Server);
    assert_eq!(decide_by("b", Some((0, 0)), "a", None), ConflictWinner::Local);
    assert_eq!(decide_by("", Some((9, 0)), "a", Some((0, 0))), ConflictWinner::Server);
    assert!(compare_timestamps("a", None, "", None));
    assert!(!compare_timestamps("", None, "", None));
    assert!(!compare_timestamps("", Some((1, 0)), "a", Some((0, 0))));
}

#[test]
fn a_local_version_that_is_half_a_second_newer_is_kept() {
    let mut conn = setup_project_db();
    insert_local_doc(&conn, "d", r#"{"v":"local"}"#, "2025-07-01T00:00:00.500Z");
    let conflict = make_conflict("d", json(r#"{"v":"server"}"#), "2025-07-01T00:00:00Z");
    let resolution = resolve_conflict(&mut conn, "planning", &conflict).unwrap();
    assert_eq!(resolution.winner, ConflictWinner::Local);
    assert_eq!(resolution.local_updated_at, "2025-07-01T00:00:00.500Z");
    assert_eq!(local_data(&conn, "d")["v"], "local");
}

#[test]
fn the_order_of_arrival_does_not_matter_for_instants() {
    let versions = ["2025-07-01T02:30:00+02:00", "2025-07-01T01:00:00.250Z", "2025-07-01T01:00:00Z"];
    for order in [[0, 1, 2], [0, 2, 1], [1, 0, 2], [1, 2, 0], [2, 0, 1], [2, 1, 0]] {
        let mut conn = setup_project_db();
        for i in order {
            let conflict = make_conflict("d", json(&format!(r#"{{"v":{}}}"#, i)), versions[i]);
            resolve_conflict(&mut conn, "planning", &conflict).unwrap();
        }
        assert_eq!(local_data(&conn, "d")["v"], 1);
    }
}

#[test]
fn the_server_wins_in_a_table_of_the_schema() {
    let mut conn = Store::new(Connection::open_in_memory().unwrap());
    let schema = TableSchema { name: "planning".to_string(), json_indexes: vec![] };
    create_table(&mut conn, &schema).unwrap();
    insert_local_doc(&conn, "d1", r#"{"v":"local"}"#, "2025-01-01T00:00:00Z");
    for id in ["d1", "d2"] {
        let conflict = make_conflict(id, json(r#"{"v":"server"}"#), "2025-07-01T00:00:00Z");
        let resolution = resolve_conflict(&mut conn, "planning", &conflict).unwrap();
        assert_eq!(resolution.winner, ConflictWinner::Server);
        assert_eq!(local_data(&conn, id)["v"], "server");
    }
    for (id, created) in [("d1", "2025-01-01T00:00:00Z"), ("d2", "2025-07-01T00:00:00Z")] {
        let times: (String, String) = conn
            .connection()
            .query_row("SELECT createdAt, updatedAt FROM planning WHERE _id = ?1", [id], |row| {
                Ok((row.get(0)?, row.get(1)?))
            })
            .unwrap();
        assert_eq!(times, (created.to_string(), "2025-07-01T00:00:00Z".to_string()));
    }
}

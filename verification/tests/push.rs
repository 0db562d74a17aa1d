use offlite::changelog::{get_pending_changes, record_change_at, ChangeRecord};
use offlite::schema::{create_table, TableSchema};
use offlite::store::Store;
use offlite::sync::http::Failure;
use offlite::sync::push::{
    begin_push, change_record_to_push, finish_push, plan_push, push_encoding_failure, push_failure,
    upsert_record_to_push, ConflictInfo, OpenPush, PushChange, PushPlan, PushResponse, PushStart,
};
use rusqlite::Connection;
use serde_json::Value;

fn json(text: &str) -> Value {
    serde_json::from_str(text).unwrap()
}

/// Helper to build a ChangeRecord for testing.
fn make_record(
    id: i64,
    doc_id: &str,
    operation: &str,
    data: Option<&str>,
    timestamp: &str,
) -> ChangeRecord {
    ChangeRecord {
        id,
        table_name: "planning".to_string(),
        doc_id: doc_id.to_string(),
        operation: operation.to_string(),
        data: data.map(|s| s.to_string()),
        timestamp: timestamp.to_string(),
        synced: 0,
        sync_error: None,
    }
}

#[test]
fn test_insert_converts_to_upsert() {
    let rec = make_record(1, "doc_1", "INSERT", Some(r#"{"name":"a"}"#), "2025-01-01T00:00:00Z");
    let pc = change_record_to_push(&rec).unwrap();

    assert_eq!(pc.op, "upsert");
    assert_eq!(pc.doc_id, "doc_1");
    assert_eq!(pc.data, Some(json(r#"{"name": "a"}"#)));
    assert_eq!(pc.updated_at, "2025-01-01T00:00:00Z");
}

#[test]
fn test_update_converts_to_upsert() {
    let rec = make_record(2, "doc_2", "UPDATE", Some(r#"{"v":2}"#), "2025-06-01T12:00:00Z");
    let pc = change_record_to_push(&rec).unwrap();

    assert_eq!(pc.op, "upsert");
    assert_eq!(pc.doc_id, "doc_2");
    assert_eq!(pc.data, Some(json(r#"{"v": 2}"#)));
    assert_eq!(pc.updated_at, "2025-06-01T12:00:00Z");
}

#[test]
fn test_delete_converts_to_delete() {
    let rec = make_record(3, "doc_3", "DELETE", None, "2025-07-01T00:00:00Z");
    let pc = change_record_to_push(&rec).unwrap();

    assert_eq!(pc.op, "delete");
    assert_eq!(pc.doc_id, "doc_3");
    assert!(pc.data.is_none());
    assert_eq!(pc.updated_at, "2025-07-01T00:00:00Z");
}

#[test]
fn test_insert_without_data_is_error() {
    let rec = make_record(4, "doc_4", "INSERT", None, "2025-01-01T00:00:00Z");
    let result = change_record_to_push(&rec);
    assert!(result.is_err());
    assert!(result.unwrap_err().contains("no data"));
}

#[test]
fn test_update_without_data_is_error() {
    let rec = make_record(5, "doc_5", "UPDATE", None, "2025-01-01T00:00:00Z");
    let result = change_record_to_push(&rec);
    assert!(result.is_err());
}

#[test]
fn test_unknown_operation_is_error() {
    let rec = make_record(6, "doc_6", "MERGE", Some("{}"), "2025-01-01T00:00:00Z");
    let result = change_record_to_push(&rec);
    assert!(result.is_err());
    assert!(result.unwrap_err().contains("Unknown operation"));
}

#[test]
fn test_invalid_json_data_is_error() {
    let rec = make_record(7, "doc_7", "INSERT", Some("not json"), "2025-01-01T00:00:00Z");
    let result = change_record_to_push(&rec);
    assert!(result.is_err());
    assert!(result.unwrap_err().contains("parse data JSON"));
}

#[test]
fn test_complex_data_preserved() {
    let data = r#"{"properties":{"地类":"有林地","树种":"杉木"},"geometry":{"type":"Polygon","coordinates":[[[1,2],[3,4],[5,6],[1,2]]]}}"#;
    let rec = make_record(8, "doc_8", "INSERT", Some(data), "2025-01-01T00:00:00Z");
    let pc = change_record_to_push(&rec).unwrap();

    let d = pc.data.unwrap();
    assert_eq!(d["properties"]["地类"], "有林地");
    assert_eq!(d["geometry"]["type"], "Polygon");
}

#[test]
fn test_delete_with_data_still_produces_delete() {
    // DELETE records may sometimes carry data; op should still be "delete"
    let rec = make_record(9, "doc_9", "DELETE", Some(r#"{"old":"data"}"#), "2025-01-01T00:00:00Z");
    let pc = change_record_to_push(&rec).unwrap();
    assert_eq!(pc.op, "delete");
    assert!(pc.data.is_none());
}

#[test]
fn test_push_changes_empty_returns_empty_response() {
    match plan_push("http://localhost", "tok", "tbl", vec![]) {
        PushPlan::Answered(resp) => {
            assert!(resp.accepted.is_empty());
            assert!(resp.conflicts.is_empty());
        }
        PushPlan::Send(_, _) => panic!("nothing is to be sent"),
    }
}

#[test]
fn test_batch_conversion_mixed_operations() {
    let records = vec![
        make_record(1, "a", "INSERT", Some(r#"{"n":1}"#), "2025-01-01T00:00:00Z"),
        make_record(2, "b", "UPDATE", Some(r#"{"n":2}"#), "2025-01-02T00:00:00Z"),
        make_record(3, "c", "DELETE", None, "2025-01-03T00:00:00Z"),
    ];

    let push_changes: Vec<PushChange> = records
        .iter()
        .map(|r| change_record_to_push(r).unwrap())
        .collect();

    assert_eq!(push_changes.len(), 3);
    assert_eq!(push_changes[0].op, "upsert");
    assert_eq!(push_changes[1].op, "upsert");
    assert_eq!(push_changes[2].op, "delete");
}

#[test]
fn conversion_errors_are_exact() {
    let rec = make_record(-4, "doc_4", "INSERT", None, "2025");
    assert_eq!(
        change_record_to_push(&rec).unwrap_err(),
        "ChangeRecord -4 (doc_4) has no data for INSERT"
    );
    let rec = make_record(6, "doc_6", "MERGE", Some("{}"), "2025");
    assert_eq!(
        change_record_to_push(&rec).unwrap_err(),
        "Unknown operation 'MERGE' in change record 6"
    );
    let rec = make_record(7, "doc_7", "UPDATE", Some("not json"), "2025");
    assert_eq!(
        change_record_to_push(&rec).unwrap_err(),
        "Failed to parse data JSON for record 7: expected ident at line 1 column 2"
    );
    assert_eq!(
        upsert_record_to_push(&rec, Err("why".to_string())).unwrap_err(),
        "Failed to parse data JSON for record 7: why"
    );
    assert_eq!(upsert_record_to_push(&rec, Ok(json("[1]"))).unwrap().data, Some(json("[1]")));
}

#[test]
fn the_request_of_a_push_is_exact() {
    let changes = vec![PushChange {
        op: "delete".to_string(),
        doc_id: "d".to_string(),
        data: None,
        updated_at: "2025".to_string(),
    }];
    match plan_push("https://h/", "tok", "planning", changes.clone()) {
        PushPlan::Answered(_) => panic!("the changes are to be sent"),
        PushPlan::Send(request, body) => {
            assert_eq!(request.url, "https://h/offlite/sync/planning/push");
            assert!(request.query.is_empty());
            let headers: Vec<(&str, &str)> =
                request.headers.iter().map(|(n, v)| (n.as_str(), v.as_str())).collect();
            assert_eq!(
                headers,
                vec![("Content-Type", "application/sjs"), ("Authorization", "Bearer tok")]
            );
            assert_eq!(body.changes, changes);
        }
    }
}

#[test]
fn failures_of_a_push_are_named() {
    let e = || "e".to_string();
    assert_eq!(
        push_encoding_failure("e"),
        "Failed to encode push request as MessagePack: e"
    );
    assert_eq!(push_failure(&Failure::Send(e())), "Push request failed: e");
    assert_eq!(push_failure(&Failure::Status(e())), "Push endpoint returned status e");
    assert_eq!(push_failure(&Failure::Body(e())), "Failed to read push response body: e");
    assert_eq!(
        push_failure(&Failure::Decode(e())),
        "Failed to decode push response MessagePack: e"
    );
}

fn project() -> Store {
    let mut store = Store::new(Connection::open_in_memory().unwrap());
    let schema = TableSchema { name: "planning".to_string(), json_indexes: vec![] };
    create_table(&mut store, &schema).unwrap();
    store
}

fn sync_columns(store: &Store, id: i64) -> (i32, Option<String>) {
    store
        .connection()
        .query_row("SELECT synced, sync_error FROM _change_log WHERE id = ?1", [id], |row| {
            Ok((row.get(0)?, row.get(1)?))
        })
        .unwrap()
}

fn sent(start: PushStart) -> (Vec<PushChange>, OpenPush) {
    match start {
        PushStart::Send(changes, open) => (changes, open),
        PushStart::Done(_) => panic!("there are changes to send"),
    }
}

#[test]
fn nothing_pending_is_done_at_once() {
    let mut store = project();
    match begin_push(&mut store, "planning").unwrap() {
        PushStart::Done(summary) => {
            assert_eq!((summary.pushed, summary.accepted, summary.conflicts), (0, 0, 0));
            assert!(summary.errors.is_empty());
        }
        PushStart::Send(_, _) => panic!("there is nothing to send"),
    }
}

#[test]
fn records_that_cannot_be_pushed_have_their_error_noted() {
    let mut store = project();
    let id = record_change_at(&mut store, "planning", "a", "INSERT", None, "2025").unwrap();
    match begin_push(&mut store, "planning").unwrap() {
        PushStart::Done(summary) => {
            assert_eq!((summary.pushed, summary.accepted, summary.conflicts), (0, 0, 1));
            let message = format!("ChangeRecord {} (a) has no data for INSERT", id);
            assert_eq!(summary.errors, vec![message.clone()]);
            assert_eq!(sync_columns(&store, id), (0, Some(message)));
        }
        PushStart::Send(_, _) => panic!("there is nothing to send"),
    }
}

#[test]
fn a_push_marks_what_the_server_accepted() {
    let mut store = project();
    let a1 = record_change_at(&mut store, "planning", "a", "INSERT", Some("1"), "2025-01").unwrap();
    let a2 = record_change_at(&mut store, "planning", "a", "UPDATE", Some("2"), "2025-02").unwrap();
    let b = record_change_at(&mut store, "planning", "b", "DELETE", None, "2025-03").unwrap();
    let bad = record_change_at(&mut store, "planning", "c", "MERGE", None, "2025-04").unwrap();
    let d = record_change_at(&mut store, "planning", "d", "DELETE", None, "2025-05").unwrap();

    let (changes, open) = sent(begin_push(&mut store, "planning").unwrap());
    let docs: Vec<&str> = changes.iter().map(|c| c.doc_id.as_str()).collect();
    assert_eq!(docs, vec!["a", "a", "b", "d"]);
    assert_eq!(changes[1].data, Some(json("2")));

    let response = PushResponse {
        accepted: vec!["a".to_string(), "unknown".to_string()],
        conflicts: vec![
            ConflictInfo {
                doc_id: "b".to_string(),
                server_data: json("{}"),
                server_updated_at: "2025-06".to_string(),
            },
            ConflictInfo {
                doc_id: "elsewhere".to_string(),
                server_data: json("{}"),
                server_updated_at: "2025-07".to_string(),
            },
        ],
    };
    let summary = finish_push(&mut store, open, &response).unwrap();
    assert_eq!(summary.pushed, 4);
    assert_eq!(summary.accepted, 2);
    assert_eq!(summary.conflicts, 2);
    let noted = "Conflict: server has newer version (server_updated_at=2025-06)";
    assert_eq!(
        summary.errors,
        vec![format!("Unknown operation 'MERGE' in change record {}", bad), noted.to_string()]
    );

    assert_eq!(sync_columns(&store, a1), (1, None));
    assert_eq!(sync_columns(&store, a2), (1, None));
    assert_eq!(sync_columns(&store, b), (0, Some(noted.to_string())));
    assert_eq!(sync_columns(&store, d), (0, None));
    assert_eq!(get_pending_changes(&mut store, "planning").unwrap().len(), 3);
}

#[test]
fn an_answer_that_accepts_nothing_marks_nothing() {
    let mut store = project();
    let a = record_change_at(&mut store, "planning", "a", "DELETE", None, "2025").unwrap();
    let (_, open) = sent(begin_push(&mut store, "planning").unwrap());
    let response = PushResponse { accepted: vec![], conflicts: vec![] };
    let summary = finish_push(&mut store, open, &response).unwrap();
    assert_eq!((summary.pushed, summary.accepted, summary.conflicts), (1, 0, 0));
    assert_eq!(sync_columns(&store, a), (0, None));
}

#[test]
fn refusals_of_the_change_log_end_a_push() {
    let mut store = Store::new(Connection::open_in_memory().unwrap());
    assert!(matches!(
        begin_push(&mut store, "planning"),
        Err(e) if e.starts_with("Failed to prepare get_pending_changes: ")
    ));

    let mut store = project();
    record_change_at(&mut store, "planning", "a", "MERGE", None, "2025").unwrap();
    store.connection().execute_batch("PRAGMA query_only = 1;").unwrap();
    assert!(matches!(
        begin_push(&mut store, "planning"),
        Err(e) if e.starts_with("Failed to mark sync error: ")
    ));

    let mut store = project();
    record_change_at(&mut store, "planning", "a", "DELETE", None, "2025").unwrap();
    let (_, open) = sent(begin_push(&mut store, "planning").unwrap());
    store.connection().execute_batch("PRAGMA query_only = 1;").unwrap();
    let response = PushResponse { accepted: vec!["a".to_string()], conflicts: vec![] };
    assert!(finish_push(&mut store, open, &response)
        .unwrap_err()
        .starts_with("Failed to mark changes as synced: "));

    let mut store = project();
    record_change_at(&mut store, "planning", "a", "DELETE", None, "2025").unwrap();
    let (_, open) = sent(begin_push(&mut store, "planning").unwrap());
    store.connection().execute_batch("PRAGMA query_only = 1;").unwrap();
    let response = PushResponse {
        accepted: vec![],
        conflicts: vec![ConflictInfo {
            doc_id: "a".to_string(),
            server_data: json("{}"),
            server_updated_at: "2025".to_string(),
        }],
    };
    assert!(finish_push(&mut store, open, &response)
        .unwrap_err()
        .starts_with("Failed to mark sync error: "));
}

#[test]
fn a_push_without_an_answer_loses_nothing() {
    let mut store = project();
    record_change_at(&mut store, "planning", "a", "INSERT", Some("1"), "2025-01").unwrap();
    record_change_at(&mut store, "planning", "b", "MERGE", None, "2025-02").unwrap();
    let (changes, _) = sent(begin_push(&mut store, "planning").unwrap());
    assert_eq!(changes.len(), 1);
    assert_eq!(get_pending_changes(&mut store, "planning").unwrap().len(), 2);
    let (again, _) = sent(begin_push(&mut store, "planning").unwrap());
    assert_eq!(again, changes);
}

#[test]
fn every_record_of_an_accepted_document_is_marked() {
    let mut store = project();
    let first =
        record_change_at(&mut store, "t", "a", "INSERT", Some(r#"{"n":1}"#), "2025-01-01T00:00:00Z")
            .unwrap();
    let second =
        record_change_at(&mut store, "t", "a", "UPDATE", Some(r#"{"n":2}"#), "2025-01-02T00:00:00Z")
            .unwrap();
    assert_eq!((first, second), (1, 2));
    let (changes, open) = sent(begin_push(&mut store, "t").unwrap());
    assert_eq!(changes.len(), 2);
    let response = PushResponse { accepted: vec!["a".to_string()], conflicts: vec![] };
    let summary = finish_push(&mut store, open, &response).unwrap();
    assert_eq!(summary.pushed, 2);
    assert_eq!(summary.accepted, 1);
    assert!(summary.errors.is_empty());
    assert_eq!(sync_columns(&store, 1), (1, None));
    assert_eq!(sync_columns(&store, 2), (1, None));
    assert!(get_pending_changes(&mut store, "t").unwrap().is_empty());
}

#[test]
fn a_conflict_is_noted_at_the_last_record_of_its_document() {
    let mut store = project();
    let a1 = record_change_at(&mut store, "t", "a", "INSERT", Some("1"), "2025-01").unwrap();
    let b = record_change_at(&mut store, "t", "b", "INSERT", Some("1"), "2025-02").unwrap();
    let a2 = record_change_at(&mut store, "t", "a", "UPDATE", Some("2"), "2025-03").unwrap();
    let (_, open) = sent(begin_push(&mut store, "t").unwrap());
    let response = PushResponse {
        accepted: vec!["b".to_string()],
        conflicts: vec![ConflictInfo {
            doc_id: "a".to_string(),
            server_data: json("{}"),
            server_updated_at: "2025-06".to_string(),
        }],
    };
    let summary = finish_push(&mut store, open, &response).unwrap();
    let noted = "Conflict: server has newer version (server_updated_at=2025-06)";
    assert_eq!(summary.errors, vec![noted.to_string()]);
    assert_eq!(summary.conflicts, 1);
    assert_eq!(sync_columns(&store, a1), (0, None));
    assert_eq!(sync_columns(&store, a2), (0, Some(noted.to_string())));
    assert_eq!(sync_columns(&store, b), (1, None));
    let pending = get_pending_changes(&mut store, "t").unwrap();
    let ids: Vec<i64> = pending.iter().map(|record| record.id).collect();
    assert_eq!(ids, vec![a1, a2]);
}

use offlite::commands::{
    batch_failure, db_batch, db_execute, db_query, query_refused, row_to_fields, rows_to_objects,
    sqlite_value_to_json, statement_to_command,
};
use offlite::json::{classify, member_list, member_text, number_to_json, Json};
use offlite::sql::{classified_to_sql, json_value_to_sql, SqlValue};
use offlite::rows::Cell;
use offlite::store::{BatchFailure, Store};
use rusqlite::Connection;
use serde_json::Value;

fn json(text: &str) -> Value {
    serde_json::from_str(text).unwrap()
}

fn list(text: &str) -> Vec<Value> {
    json(text).as_array().unwrap().clone()
}

fn memory() -> Store {
    let conn = Connection::open_in_memory().unwrap();
    conn.execute_batch("CREATE TABLE t (a, b); CREATE TABLE u (a UNIQUE);").unwrap();
    Store::new(conn)
}

/// Asks for rows under the names that the database gives to their columns.
fn query(store: &mut Store, sql: &str, params: &Vec<Value>) -> Result<Vec<Value>, String> {
    let columns: Vec<String> = match store.connection().prepare(sql) {
        Ok(statement) => statement.column_names().into_iter().map(String::from).collect(),
        Err(_) => vec![],
    };
    db_query(store, sql, params, &columns)
}

fn count(store: &Store) -> i64 {
    store.connection().query_row("SELECT COUNT(*) FROM t", [], |row| row.get(0)).unwrap()
}

#[test]
fn values_are_bound_as_they_are() {
    assert_eq!(json_value_to_sql(&json("null")), SqlValue::Null);
    assert_eq!(json_value_to_sql(&json("true")), SqlValue::Bool(true));
    assert_eq!(json_value_to_sql(&json("-7")), SqlValue::Integer(-7));
    assert_eq!(json_value_to_sql(&json("9223372036854775807")), SqlValue::Integer(i64::MAX));
    assert_eq!(
        json_value_to_sql(&json("9223372036854775808")),
        SqlValue::Real(serde_json::Number::from(9223372036854775808u64))
    );
    assert_eq!(
        json_value_to_sql(&json("0.5")),
        SqlValue::Real(serde_json::Number::from_f64(0.5).unwrap())
    );
    assert_eq!(json_value_to_sql(&json("\"x\"")), SqlValue::Text("x".to_string()));
    assert_eq!(
        json_value_to_sql(&json(r#"{ "a": [1, "é"] }"#)),
        SqlValue::Text(r#"{"a":[1,"é"]}"#.to_string())
    );
    assert_eq!(json_value_to_sql(&json("[ ]")), SqlValue::Text("[]".to_string()));
    assert_eq!(classified_to_sql(Json::Integer(3)), SqlValue::Integer(3));
    assert_eq!(
        classified_to_sql(Json::Nested(json("[ 1 ]"))),
        SqlValue::Text("[1]".to_string())
    );
}

#[test]
fn executed_commands_and_queries_agree() {
    let mut store = memory();
    let rows = db_execute(
        &mut store,
        "INSERT INTO t VALUES (?1, ?2), (?3, ?4)",
        &list(r#"[1, 0.5, "x", {"k": [null]}]"#),
    )
    .unwrap();
    assert_eq!(rows, 2);
    assert_eq!(db_execute(&mut store, "UPDATE t SET a = ?1 WHERE a = ?2", &list("[true, 1]")), Ok(1));
    assert_eq!(db_execute(&mut store, "DELETE FROM t WHERE a = ?1", &list("[null]")), Ok(0));

    let rows = query(&mut store, "SELECT a, b FROM t ORDER BY rowid", &vec![]).unwrap();
    assert_eq!(
        rows,
        list(r#"[{"a": 1, "b": 0.5}, {"a": "x", "b": "{\"k\":[null]}"}]"#)
    );
    let rows = query(&mut store, "SELECT b FROM t WHERE a = ?1", &list("[1]")).unwrap();
    assert_eq!(rows, list(r#"[{"b": 0.5}]"#));
}

#[test]
fn every_kind_of_value_is_shown_in_json() {
    let mut store = memory();
    let sql = "SELECT NULL AS n, 9223372036854775807 AS i, 1.5 AS r, 'é' AS t, x'fffefd00' AS b, 9e999 AS inf";
    let rows = query(&mut store, sql, &vec![]).unwrap();
    assert_eq!(
        rows,
        list(r#"[{"n": null, "i": 9223372036854775807, "r": 1.5, "t": "é", "b": "//79AA==", "inf": null}]"#)
    );
    // A later column of the same name stands.
    let rows = query(&mut store, "SELECT 1 AS x, 2 AS x", &vec![]).unwrap();
    assert_eq!(rows, list(r#"[{"x": 2}]"#));
    let rows = query(&mut store, "SELECT a FROM t", &vec![]).unwrap();
    assert!(rows.is_empty());
}

#[test]
fn cells_are_shown_in_json() {
    assert_eq!(sqlite_value_to_json(Cell::Null), Json::Null);
    assert_eq!(sqlite_value_to_json(Cell::Integer(5)), Json::Integer(5));
    assert_eq!(sqlite_value_to_json(Cell::Real(None)), Json::Null);
    assert_eq!(sqlite_value_to_json(Cell::Text("s".to_string())), Json::Text("s".to_string()));
    assert_eq!(sqlite_value_to_json(Cell::Blob(vec![0])), Json::Text("AA==".to_string()));
    let fields = row_to_fields(&vec!["a".to_string()], vec![Cell::Integer(1)]);
    assert_eq!(fields, vec![("a".to_string(), Json::Integer(1))]);
}

#[test]
fn refused_commands_are_named() {
    let mut store = memory();
    assert!(db_execute(&mut store, "NONSENSE", &vec![])
        .unwrap_err()
        .starts_with("db_execute error: "));
    assert!(query(&mut store, "SELECT * FROM missing", &vec![])
        .unwrap_err()
        .starts_with("db_query prepare error: "));
    assert!(query(&mut store, "SELECT ?1", &vec![])
        .unwrap_err()
        .starts_with("db_query error: "));
    assert!(query(&mut store, "SELECT abs(-9223372036854775808)", &vec![])
        .unwrap_err()
        .starts_with("db_query row error: "));
    let message = query(&mut store, "SELECT 1, CAST(x'61ff' AS TEXT)", &vec![]).unwrap_err();
    let refusal = String::from_utf8(vec![0x61, 0xff]).unwrap_err().to_string();
    assert_eq!(
        message,
        format!("db_query row error: Conversion error from type Text at index: 1, {}", refusal)
    );
    let columns = vec!["a".to_string(), "b".to_string()];
    assert_eq!(
        db_query(&mut store, "SELECT 1", &vec![], &columns).unwrap_err(),
        "db_query row error: Invalid column index: 1"
    );
    assert_eq!(query_refused("e"), "db_query prepare error: e");
}

#[test]
fn a_batch_is_committed_as_a_whole() {
    let mut store = memory();
    let counts = db_batch(
        &mut store,
        &list(
            r#"[
                {"sql": "INSERT INTO t VALUES (?1, ?2), (?2, ?1)", "params": [1, 2]},
                {"sql": "UPDATE t SET a = 0"},
                {"sql": "DELETE FROM t WHERE b = 1", "params": "no list"}
            ]"#,
        ),
    )
    .unwrap();
    assert_eq!(counts, vec![2, 2, 1]);
    assert_eq!(count(&store), 1);
    assert_eq!(db_batch(&mut store, &vec![]).unwrap(), Vec::<u64>::new());
}

#[test]
fn a_batch_that_fails_leaves_nothing() {
    let mut store = memory();
    let insert = r#"{"sql": "INSERT INTO t VALUES (1, 1)"}"#;
    for bad in [r#"{}"#, r#"{"sql": 1}"#, "3", r#"{"SQL": "SELECT 1"}"#] {
        let statements = list(&format!("[{}, {}]", insert, bad));
        assert_eq!(
            db_batch(&mut store, &statements).unwrap_err(),
            "Each statement must have a 'sql' field"
        );
        assert_eq!(count(&store), 0);
    }
    let statements = list(&format!(r#"[{}, {{"sql": "NONSENSE"}}]"#, insert));
    assert!(db_batch(&mut store, &statements)
        .unwrap_err()
        .starts_with("db_batch execute error: "));
    assert_eq!(count(&store), 0);
}

#[test]
fn a_refused_commit_leaves_nothing() {
    let mut store = memory();
    store
        .connection()
        .execute_batch(
            "PRAGMA foreign_keys = 1; CREATE TABLE parent (id INTEGER PRIMARY KEY);
             CREATE TABLE child (p REFERENCES parent(id) DEFERRABLE INITIALLY DEFERRED);",
        )
        .unwrap();
    let statements = list(
        r#"[{"sql": "INSERT INTO t VALUES (1, 1)"}, {"sql": "INSERT INTO child VALUES (7)"}]"#,
    );
    assert!(db_batch(&mut store, &statements)
        .unwrap_err()
        .starts_with("db_batch commit error: "));
    assert_eq!(count(&store), 0);
}

#[test]
fn a_batch_within_a_transaction_is_refused() {
    let mut store = memory();
    store.connection().execute_batch("BEGIN").unwrap();
    assert!(db_batch(&mut store, &vec![])
        .unwrap_err()
        .starts_with("db_batch transaction error: "));
}

#[test]
fn statements_become_commands() {
    let command = statement_to_command(&json(r#"{"sql": "s", "params": [1, null]}"#));
    assert_eq!(command.sql, Some("s".to_string()));
    assert_eq!(command.params, vec![SqlValue::Integer(1), SqlValue::Null]);
    let command = statement_to_command(&json("[]"));
    assert_eq!(command.sql, None);
    assert!(command.params.is_empty());
}

#[test]
fn failures_of_a_batch_are_named() {
    let e = || "e".to_string();
    assert_eq!(batch_failure(&BatchFailure::Begin(e())), "db_batch transaction error: e");
    assert_eq!(batch_failure(&BatchFailure::NoSql), "Each statement must have a 'sql' field");
    assert_eq!(batch_failure(&BatchFailure::Execute(e())), "db_batch execute error: e");
    assert_eq!(batch_failure(&BatchFailure::Commit(e())), "db_batch commit error: e");
}

#[test]
fn bound_values_come_back() {
    let mut store = memory();
    let bound = list(r#"[null, "text", -9223372036854775808, 9223372036854775807, 1.5, true, false, [1, "a"], {"k": {}}]"#);
    let expected = list(
        r#"[null, "text", -9223372036854775808, 9223372036854775807, 1.5, 1, 0, "[1,\"a\"]", "{\"k\":{}}"]"#,
    );
    for (value, back) in bound.into_iter().zip(expected) {
        let rows = query(&mut store, "SELECT ?1 AS v", &vec![value]).unwrap();
        assert_eq!(rows.len(), 1);
        assert_eq!(rows[0]["v"], back);
    }
}

#[test]
fn rows_become_objects() {
    let columns = vec!["a".to_string(), "b".to_string()];
    let rows = vec![
        vec![Cell::Integer(1), Cell::Null],
        vec![Cell::Text("x".to_string()), Cell::Blob(vec![102])],
    ];
    assert_eq!(
        rows_to_objects(&columns, rows),
        list(r#"[{"a": 1, "b": null}, {"a": "x", "b": "Zg=="}]"#)
    );
    assert!(rows_to_objects(&columns, vec![]).is_empty());
}

#[test]
fn columns_without_a_readable_name_do_not_matter() {
    let conn = Connection::open_in_memory().unwrap();
    conn.execute_batch(
        "CREATE TABLE t (a);
         INSERT INTO t VALUES (7);
         PRAGMA writable_schema = 1;
         UPDATE sqlite_master SET sql = CAST(x'435245415445205441424c4520742028ff29' AS TEXT);
         PRAGMA writable_schema = RESET;",
    )
    .unwrap();
    let mut store = Store::new(conn);
    let columns = vec!["first".to_string()];
    let rows = db_query(&mut store, "SELECT * FROM t", &vec![], &columns).unwrap();
    assert_eq!(rows, list(r#"[{"first": 7}]"#));
    let text = store.select_text("SELECT * FROM t", &vec![], "first").unwrap_err();
    assert_eq!(text, "Invalid column type Integer at index: 0, name: first");
}

#[test]
fn numbers_are_told_apart_by_their_integers() {
    let number = |text: &str| json(text).as_number().unwrap().clone();
    assert_eq!(number_to_json(Some(3), number("4")), Json::Integer(3));
    assert_eq!(number_to_json(None, number("4")), Json::Real(number("4")));
    assert_eq!(classify(&json("-9223372036854775808")), Json::Integer(i64::MIN));
    assert_eq!(classify(&json("9223372036854775808")), Json::Real(number("9223372036854775808")));
    assert_eq!(classify(&json("1.0")), Json::Real(number("1.0")));
    assert_eq!(classify(&json("{}")), Json::Nested(json("{}")));
    assert_eq!(classify(&json("[]")), Json::Nested(json("[]")));
}

#[test]
fn members_are_found_by_name_and_kind() {
    let document = json(r#"{"s": "text", "l": [1, null]}"#);
    assert_eq!(member_text(&document, "s"), Some("text".to_string()));
    assert_eq!(member_text(&document, "l"), None);
    assert_eq!(member_text(&document, "x"), None);
    assert_eq!(member_text(&json("[]"), "s"), None);
    assert_eq!(member_list(&document, "l"), Some(list("[1, null]")));
    assert_eq!(member_list(&document, "s"), None);
}

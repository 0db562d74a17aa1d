use base64::engine::general_purpose::STANDARD as BASE64;
use base64::Engine;
use offlite::encoding::urlencoded;
use offlite::sync::pull::PullChange;
use offlite::sync::signal::Signals;
use offlite::sync::sse::{
    build_sse_url, change_event_bytes, decode_change_event, stop_sse_listener, SseAction,
    SseChangeEvent, SseConfig, SseHandle, SseInput, SseListener,
};
use serde_json::Value;
use tokio::sync::watch;

type Wire = (String, Vec<(String, Value, String, bool)>);

fn json(text: &str) -> Value {
    serde_json::from_str(text).unwrap()
}

/// The MessagePack of an event, whose structures are arrays of their fields.
fn encode(event: &SseChangeEvent) -> Vec<u8> {
    let wire: Wire = (
        event.table.clone(),
        event
            .changes
            .iter()
            .map(|c| (c.doc_id.clone(), c.data.clone(), c.updated_at.clone(), c.deleted))
            .collect(),
    );
    rmp_serde::to_vec(&wire).unwrap()
}

fn parse(bytes: &[u8]) -> Result<SseChangeEvent, String> {
    let (table, changes): Wire = rmp_serde::from_slice(bytes).map_err(|e| e.to_string())?;
    let changes = changes
        .into_iter()
        .map(|(doc_id, data, updated_at, deleted)| PullChange { doc_id, data, updated_at, deleted })
        .collect();
    Ok(SseChangeEvent { table, changes })
}

fn sample(doc_id: &str, data: &str, updated_at: &str, deleted: bool) -> PullChange {
    PullChange {
        doc_id: doc_id.to_string(),
        data: json(data),
        updated_at: updated_at.to_string(),
        deleted,
    }
}

#[test]
fn test_decode_change_event_roundtrip() {
    let original = SseChangeEvent {
        table: "planning".to_string(),
        changes: vec![
            sample("doc_1", r#"{"name": "测试", "area": 100.5}"#, "2025-07-01T00:00:00Z", false),
            sample("doc_2", "{}", "2025-07-01T01:00:00Z", true),
        ],
    };

    // Encode: struct to MessagePack to Base64
    let msgpack_bytes = encode(&original);
    let base64_str = BASE64.encode(&msgpack_bytes);

    // Decode: Base64 to MessagePack to struct
    let decoded = decode_change_event(&base64_str, parse).unwrap();

    assert_eq!(decoded.table, "planning");
    assert_eq!(decoded.changes.len(), 2);
    assert_eq!(decoded.changes[0].doc_id, "doc_1");
    assert_eq!(decoded.changes[0].data, json(r#"{"name": "测试", "area": 100.5}"#));
    assert!(!decoded.changes[0].deleted);
    assert_eq!(decoded.changes[1].doc_id, "doc_2");
    assert!(decoded.changes[1].deleted);
}

#[test]
fn test_decode_change_event_empty_changes() {
    let original = SseChangeEvent {
        table: "sample".to_string(),
        changes: vec![],
    };

    let msgpack_bytes = encode(&original);
    let base64_str = BASE64.encode(&msgpack_bytes);

    let decoded = decode_change_event(&base64_str, parse).unwrap();
    assert_eq!(decoded.table, "sample");
    assert!(decoded.changes.is_empty());
}

#[test]
fn test_decode_change_event_invalid_base64() {
    let result = decode_change_event("not-valid-base64!!!", parse);
    assert!(result.is_err());
    assert!(result.unwrap_err().contains("Base64 decode failed"));
}

#[test]
fn test_decode_change_event_invalid_msgpack() {
    // Valid Base64 but not valid MessagePack for SseChangeEvent
    let base64_str = BASE64.encode(b"this is not msgpack");
    let result = decode_change_event(&base64_str, parse);
    assert!(result.is_err());
    assert!(result.unwrap_err().contains("MessagePack decode failed"));
}

#[test]
fn test_decode_change_event_with_whitespace() {
    let original = SseChangeEvent {
        table: "planning".to_string(),
        changes: vec![sample("d1", r#"{"x": 1}"#, "2025-01-01T00:00:00Z", false)],
    };

    let msgpack_bytes = encode(&original);
    // Add leading/trailing whitespace (SSE data may have trailing newline)
    let base64_str = format!("  {}  \n", BASE64.encode(&msgpack_bytes));

    let decoded = decode_change_event(&base64_str, parse).unwrap();
    assert_eq!(decoded.table, "planning");
    assert_eq!(decoded.changes.len(), 1);
}

#[test]
fn test_decode_change_event_complex_data() {
    let original = SseChangeEvent {
        table: "planning".to_string(),
        changes: vec![sample(
            "doc_geo",
            r#"{
                "properties": {"地类": "有林地", "树种": "杉木"},
                "geometry": {
                    "type": "Polygon",
                    "coordinates": [[[106.1, 26.5], [106.2, 26.5], [106.2, 26.6], [106.1, 26.5]]]
                }
            }"#,
            "2025-07-01T00:00:00Z",
            false,
        )],
    };

    let msgpack_bytes = encode(&original);
    let base64_str = BASE64.encode(&msgpack_bytes);

    let decoded = decode_change_event(&base64_str, parse).unwrap();
    assert_eq!(decoded.changes[0].data["properties"]["地类"], "有林地");
    assert_eq!(decoded.changes[0].data["geometry"]["type"], "Polygon");
}

#[test]
fn test_build_sse_url_basic() {
    let config = SseConfig {
        base_url: "https://api.example.com".to_string(),
        token: "my_jwt_token".to_string(),
        mode: "project".to_string(),
        filter_key: "p_001".to_string(),
        heartbeat_timeout_secs: 90,
    };

    let url = build_sse_url(&config);
    assert_eq!(
        url,
        "https://api.example.com/offlite/sse?token=my_jwt_token&mode=project&filter_key=p_001"
    );
}

#[test]
fn test_build_sse_url_trailing_slash() {
    let config = SseConfig {
        base_url: "https://api.example.com/".to_string(),
        token: "tok".to_string(),
        mode: "user".to_string(),
        filter_key: "uid_1".to_string(),
        heartbeat_timeout_secs: 90,
    };

    let url = build_sse_url(&config);
    assert!(url.starts_with("https://api.example.com/offlite/sse?"));
    assert!(!url.contains("//offlite"));
}

#[test]
fn test_build_sse_url_special_chars_encoded() {
    let config = SseConfig {
        base_url: "https://api.example.com".to_string(),
        token: "token with spaces&special=chars".to_string(),
        mode: "project".to_string(),
        filter_key: "p 001".to_string(),
        heartbeat_timeout_secs: 90,
    };

    let url = build_sse_url(&config);
    // Spaces and special chars should be percent-encoded
    assert!(!url.contains(' '));
    assert!(url.contains("%20") || url.contains("%26"));
}

#[test]
fn test_heartbeat_timeout_detection() {
    let runtime = tokio::runtime::Builder::new_current_thread().build().unwrap();
    runtime.block_on(async {
        let (shutdown_tx, _shutdown_rx) = watch::channel(false);

        // stop_sse_listener sends the shutdown signal
        let handle_result = SseHandle {
            join_handle: tokio::spawn(async { Ok(()) }),
            shutdown_tx,
        };

        stop_sse_listener(&handle_result, &mut Signals::new());
        assert!(*handle_result.shutdown_tx.subscribe().borrow());
    });
}

#[test]
fn test_sse_config_default() {
    let config = SseConfig::default();
    assert_eq!(config.heartbeat_timeout_secs, 90);
    assert!(config.base_url.is_empty());
    assert!(config.token.is_empty());
    assert!(config.mode.is_empty());
    assert!(config.filter_key.is_empty());
}

#[test]
fn test_urlencoded_passthrough() {
    assert_eq!(urlencoded("hello"), "hello");
    assert_eq!(urlencoded("abc123"), "abc123");
    assert_eq!(urlencoded("a-b_c.d~e"), "a-b_c.d~e");
}

#[test]
fn test_urlencoded_special_chars() {
    assert_eq!(urlencoded("a b"), "a%20b");
    assert_eq!(urlencoded("a&b"), "a%26b");
    assert_eq!(urlencoded("a=b"), "a%3Db");
}

#[test]
fn other_characters_are_encoded_byte_by_byte() {
    assert_eq!(urlencoded("é/地"), "%C3%A9%2F%E5%9C%B0");
    assert_eq!(urlencoded("\u{10348}"), "%F0%90%8D%88");
    assert_eq!(urlencoded(""), "");
}

#[test]
fn only_canonical_base64_is_decoded() {
    assert_eq!(change_event_bytes("").unwrap(), Vec::<u8>::new());
    assert_eq!(change_event_bytes("AA==").unwrap(), vec![0]);
    assert_eq!(change_event_bytes(" \t//79\r\n").unwrap(), vec![255, 254, 253]);
    for text in ["AA", "AB==", "AA=", "AA==AA==", "A A=", "_w==", "AAA=="] {
        let message = change_event_bytes(text).unwrap_err();
        assert!(message.starts_with("Base64 decode failed: "), "{}", message);
    }
    assert_eq!(
        change_event_bytes("AB==").unwrap_err(),
        "Base64 decode failed: Invalid last symbol 66, offset 1."
    );
}

const SECOND: u128 = 1_000_000_000;

fn event(event_type: &str, data: &str) -> SseInput {
    SseInput::Event { event_type: event_type.to_string(), data: data.to_string() }
}

fn unreachable_parse(_: &[u8]) -> Result<SseChangeEvent, String> {
    Err("not parsed".to_string())
}

#[test]
fn a_heartbeat_keeps_the_listener_alive() {
    let mut listener = SseListener::new(90, 0);
    assert_eq!(listener.wait(false, 0), Some(90 * SECOND));
    assert_eq!(listener.wait(false, 30 * SECOND), Some(60 * SECOND));
    assert_eq!(listener.wait(true, 30 * SECOND), None);
    assert_eq!(
        listener.hear(80 * SECOND, event("heartbeat", ""), unreachable_parse),
        SseAction::Continue
    );
    assert_eq!(
        listener.hear(170 * SECOND - 1, SseInput::Waited, unreachable_parse),
        SseAction::Continue
    );
    assert_eq!(listener.wait(false, 170 * SECOND - 1), Some(1));
    assert_eq!(listener.wait(false, 170 * SECOND), Some(0));
    assert_eq!(
        listener.hear(170 * SECOND, SseInput::Waited, unreachable_parse),
        SseAction::Stop(Err(
            "SSE heartbeat timeout: no heartbeat received in 90s".to_string()
        ))
    );
}

#[test]
fn only_heartbeats_and_the_connection_are_signs_of_life() {
    let mut listener = SseListener::new(10, 0);
    for input in [event("other", "x"), event("change", "!"), SseInput::Comment] {
        listener.hear(9 * SECOND, input, unreachable_parse);
        assert_eq!(listener.wait(false, 9 * SECOND), Some(SECOND));
    }
    assert_eq!(
        listener.hear(9 * SECOND, SseInput::Connected, unreachable_parse),
        SseAction::Continue
    );
    assert_eq!(listener.wait(false, 9 * SECOND), Some(10 * SECOND));
    // A clock that seems to run backwards is no silence.
    assert_eq!(listener.wait(false, 0), Some(10 * SECOND));
}

#[test]
fn change_events_are_delivered_or_skipped() {
    let original = SseChangeEvent {
        table: "planning".to_string(),
        changes: vec![sample("d", "{}", "2025", false)],
    };
    let mut listener = SseListener::new(10, 0);
    let text = BASE64.encode(encode(&original));
    assert_eq!(
        listener.hear(1, event("change", &text), parse),
        SseAction::Deliver(original)
    );
    assert_eq!(
        listener.hear(1, event("change", "AA=="), unreachable_parse),
        SseAction::Skip("MessagePack decode failed: not parsed".to_string())
    );
    let skipped = listener.hear(1, event("change", "!"), unreachable_parse);
    assert!(matches!(skipped, SseAction::Skip(e) if e.starts_with("Base64 decode failed: ")));
}

#[test]
fn a_stream_ends_with_its_message() {
    let mut listener = SseListener::new(10, 0);
    assert_eq!(
        listener.hear(1, SseInput::Ended, unreachable_parse),
        SseAction::Stop(Err("SSE stream ended unexpectedly".to_string()))
    );
    assert_eq!(
        listener.hear(1, SseInput::Failed("reset".to_string()), unreachable_parse),
        SseAction::Stop(Err("SSE stream error: reset".to_string()))
    );
    assert_eq!(
        listener.hear(1, SseInput::Shutdown(false), unreachable_parse),
        SseAction::Continue
    );
    assert_eq!(
        listener.hear(1, SseInput::Shutdown(true), unreachable_parse),
        SseAction::Stop(Ok(()))
    );
}

/// Runs a listener over inputs that come one second apart, as long as it goes
/// on.
fn run(shutdown_requested: bool, inputs: Vec<SseInput>) -> (Vec<SseChangeEvent>, Option<Result<(), String>>) {
    let mut listener = SseListener::new(10, 0);
    let mut delivered = Vec::new();
    let mut now = 0;
    for input in inputs {
        if listener.wait(shutdown_requested, now).is_none() {
            return (delivered, Some(Ok(())));
        }
        now += SECOND;
        match listener.hear(now, input, parse) {
            SseAction::Continue | SseAction::Skip(_) => {}
            SseAction::Deliver(event) => delivered.push(event),
            SseAction::Stop(result) => return (delivered, Some(result)),
        }
    }
    (delivered, None)
}

fn change_input(table: &str) -> (SseChangeEvent, SseInput) {
    let change = SseChangeEvent { table: table.to_string(), changes: vec![] };
    let text = BASE64.encode(encode(&change));
    (change, event("change", &text))
}

#[test]
fn a_run_delivers_what_can_be_decoded_in_order() {
    let (a, first) = change_input("a");
    let (b, second) = change_input("b");
    let (_, late) = change_input("late");
    let inputs = vec![
        SseInput::Connected,
        first,
        event("change", "!"),
        event("heartbeat", ""),
        SseInput::Shutdown(false),
        event("other", "x"),
        second,
        SseInput::Comment,
        SseInput::Shutdown(true),
        late,
    ];
    let (delivered, result) = run(false, inputs);
    assert_eq!(delivered, vec![a, b]);
    assert_eq!(result, Some(Ok(())));
}

#[test]
fn a_run_whose_shutdown_was_requested_ends_at_once() {
    let (_, first) = change_input("a");
    assert_eq!(run(true, vec![first]), (vec![], Some(Ok(()))));
}

#[test]
fn a_run_without_a_shutdown_ends_in_an_error_only() {
    let (a, first) = change_input("a");
    let (delivered, result) = run(false, vec![first, SseInput::Ended]);
    assert_eq!(delivered, vec![a]);
    assert_eq!(result, Some(Err("SSE stream ended unexpectedly".to_string())));
    let mut inputs: Vec<SseInput> = (0..9).map(|_| SseInput::Comment).collect();
    assert_eq!(run(false, (0..9).map(|_| SseInput::Comment).collect()).1, None);
    inputs.push(SseInput::Waited);
    assert_eq!(
        run(false, inputs).1,
        Some(Err("SSE heartbeat timeout: no heartbeat received in 10s".to_string()))
    );
}

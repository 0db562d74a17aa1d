use offlite::sync::engine::{
    default_poll_interval, default_sse_heartbeat, default_true, exponential_backoff, SyncEngine,
    SyncEngineConfig, SyncEngineManager, SyncMode, SyncState, TableSyncConfig,
};
use offlite::sync::sse::SseHandle;
use tokio::sync::watch;

fn make_test_config() -> SyncEngineConfig {
    SyncEngineConfig {
        base_url: "https://api.example.com".to_string(),
        token: "test_token".to_string(),
        sync_mode: "project".to_string(),
        tables: vec![TableSyncConfig {
            name: "planning".to_string(),
            json_indexes: None,
        }],
        realtime: true,
        poll_interval: 30,
        sse_heartbeat: 30,
    }
}

#[test]
fn test_sync_mode_display() {
    assert_eq!(SyncMode::Realtime.to_string(), "realtime");
    assert_eq!(SyncMode::Polling.to_string(), "polling");
    assert_eq!(SyncMode::Offline.to_string(), "offline");
}

#[test]
fn test_sync_state_default() {
    let state = SyncState::default();
    assert!(!state.active);
    assert!(!state.paused);
    assert!(state.error.is_none());
    assert_eq!(state.docs_read, 0);
    assert_eq!(state.docs_written, 0);
    assert_eq!(state.mode, SyncMode::Offline);
    assert!(!state.sse_connected);
}

#[test]
fn test_mode_transition_sse_failures() {
    let config = make_test_config();
    let mut engine = SyncEngine::new(config);

    // Initially active, offline mode (not yet connected)
    assert_eq!(engine.state.mode, SyncMode::Offline);
    assert_eq!(engine.sse_fail_count, 0);

    // Simulate SSE success: realtime
    engine.record_sse_success();
    assert_eq!(engine.state.mode, SyncMode::Realtime);
    assert!(engine.state.sse_connected);
    assert_eq!(engine.sse_fail_count, 0);

    // Simulate 1st SSE failure: still realtime target
    let mode = engine.record_sse_failure();
    assert_eq!(engine.sse_fail_count, 1);
    assert!(!engine.state.sse_connected);
    // Mode stays as-is after 1 failure (not yet degraded to polling)
    assert_eq!(mode, SyncMode::Realtime);

    // 2nd failure
    let mode = engine.record_sse_failure();
    assert_eq!(engine.sse_fail_count, 2);
    assert_eq!(mode, SyncMode::Realtime);

    // 3rd failure: degrade to polling
    let mode = engine.record_sse_failure();
    assert_eq!(engine.sse_fail_count, 3);
    assert_eq!(mode, SyncMode::Polling);
    assert_eq!(engine.state.mode, SyncMode::Polling);
}

#[test]
fn test_mode_transition_offline_and_recovery() {
    let config = make_test_config();
    let mut engine = SyncEngine::new(config);

    engine.record_sse_success();
    assert_eq!(engine.state.mode, SyncMode::Realtime);

    // Network goes down
    engine.go_offline();
    assert_eq!(engine.state.mode, SyncMode::Offline);
    assert!(!engine.state.sse_connected);

    // Network recovers, SSE reconnects
    engine.record_sse_success();
    assert_eq!(engine.state.mode, SyncMode::Realtime);
    assert!(engine.state.sse_connected);
    assert_eq!(engine.sse_fail_count, 0);
}

#[test]
fn test_target_mode_realtime_disabled() {
    let mut config = make_test_config();
    config.realtime = false;
    let engine = SyncEngine::new(config);

    // When realtime is disabled, target mode is always polling
    assert_eq!(engine.target_mode(), SyncMode::Polling);
}

#[test]
fn test_target_mode_with_failures() {
    let config = make_test_config();
    let mut engine = SyncEngine::new(config);

    assert_eq!(engine.target_mode(), SyncMode::Realtime);

    engine.sse_fail_count = 2;
    assert_eq!(engine.target_mode(), SyncMode::Realtime);

    engine.sse_fail_count = 3;
    assert_eq!(engine.target_mode(), SyncMode::Polling);
}

#[test]
fn test_exponential_backoff_values() {
    // initial=1s, max=60s, factor=2
    assert_eq!(exponential_backoff(0, 1, 60, 2), 1); // 1 * 2^0 = 1
    assert_eq!(exponential_backoff(1, 1, 60, 2), 2); // 1 * 2^1 = 2
    assert_eq!(exponential_backoff(2, 1, 60, 2), 4); // 1 * 2^2 = 4
    assert_eq!(exponential_backoff(3, 1, 60, 2), 8); // 1 * 2^3 = 8
    assert_eq!(exponential_backoff(4, 1, 60, 2), 16); // 1 * 2^4 = 16
    assert_eq!(exponential_backoff(5, 1, 60, 2), 32); // 1 * 2^5 = 32
    assert_eq!(exponential_backoff(6, 1, 60, 2), 60); // 1 * 2^6 = 64, capped at 60
    assert_eq!(exponential_backoff(10, 1, 60, 2), 60); // capped
}

#[test]
fn test_next_retry_delay_increments() {
    let config = make_test_config();
    let mut engine = SyncEngine::new(config);

    assert_eq!(engine.next_retry_delay(), 1);
    assert_eq!(engine.next_retry_delay(), 2);
    assert_eq!(engine.next_retry_delay(), 4);
    assert_eq!(engine.next_retry_delay(), 8);
    assert_eq!(engine.next_retry_delay(), 16);
    assert_eq!(engine.next_retry_delay(), 32);
    assert_eq!(engine.next_retry_delay(), 60); // capped
    assert_eq!(engine.next_retry_delay(), 60); // stays capped
}

#[test]
fn test_reset_retry() {
    let config = make_test_config();
    let mut engine = SyncEngine::new(config);

    engine.next_retry_delay();
    engine.next_retry_delay();
    engine.next_retry_delay();
    assert_eq!(engine.retry_attempt, 3);

    engine.reset_retry();
    assert_eq!(engine.retry_attempt, 0);
    assert_eq!(engine.next_retry_delay(), 1);
}

#[test]
fn test_engine_new_initial_state() {
    let config = make_test_config();
    let engine = SyncEngine::new(config);

    assert!(engine.state.active);
    assert!(!engine.state.paused);
    assert!(engine.state.error.is_none());
    assert_eq!(engine.state.docs_read, 0);
    assert_eq!(engine.state.docs_written, 0);
    assert_eq!(engine.state.mode, SyncMode::Offline);
    assert!(!engine.state.sse_connected);
    assert_eq!(engine.sse_fail_count, 0);
    assert_eq!(engine.retry_attempt, 0);
}

#[test]
fn test_engine_stop() {
    let config = make_test_config();
    let mut engine = SyncEngine::new(config);
    engine.record_sse_success();
    assert!(engine.state.active);
    assert!(engine.state.sse_connected);

    engine.stop();
    assert!(!engine.state.active);
    assert!(!engine.state.sse_connected);
}

#[test]
fn test_build_sse_config() {
    let config = make_test_config();
    let engine = SyncEngine::new(config);

    let sse_config = engine.build_sse_config("p_001");
    assert_eq!(sse_config.base_url, "https://api.example.com");
    assert_eq!(sse_config.token, "test_token");
    assert_eq!(sse_config.mode, "project");
    assert_eq!(sse_config.filter_key, "p_001");
    // heartbeat_timeout = sse_heartbeat * 3 = 30 * 3 = 90
    assert_eq!(sse_config.heartbeat_timeout_secs, 90);
}

#[test]
fn test_manager_status_no_engine() {
    let manager = SyncEngineManager::new();
    let status = manager.status("nonexistent").unwrap();
    assert_eq!(status, SyncState::default());
}

#[test]
fn test_manager_with_engine_not_found() {
    let mut manager = SyncEngineManager::new();
    let result = manager.with_engine("nope", |_| Ok(()));
    assert!(result.is_err());
    assert_eq!(result.unwrap_err(), "No sync engine for project 'nope'");
}

#[test]
fn backoff_saturates_at_the_cap() {
    assert_eq!(exponential_backoff(u32::MAX, 1, u64::MAX, 2), u64::MAX);
    assert_eq!(exponential_backoff(63, 1, u64::MAX, 2), 1 << 63);
    assert_eq!(exponential_backoff(64, 1, u64::MAX, 2), u64::MAX);
    assert_eq!(exponential_backoff(64, 0, u64::MAX, 2), 0);
    assert_eq!(exponential_backoff(u32::MAX, 7, 60, 1), 7);
    assert_eq!(exponential_backoff(0, 7, 60, 0), 7);
    assert_eq!(exponential_backoff(u32::MAX, 7, 60, 0), 0);
    assert_eq!(exponential_backoff(2, 7, 60, 3), 60);
    assert_eq!(exponential_backoff(1, 7, 60, 3), 21);
}

#[test]
fn delays_never_shrink() {
    for attempt in 0..80 {
        let delay = exponential_backoff(attempt, 1, 60, 2);
        let next = exponential_backoff(attempt + 1, 1, 60, 2);
        assert!(1 <= delay && delay <= next && next <= 60);
    }
}

#[test]
fn a_connection_forgets_failures_and_errors() {
    let mut engine = SyncEngine::new(make_test_config());
    engine.record_sse_success();
    for _ in 0..5 {
        engine.record_sse_failure();
        engine.next_retry_delay();
    }
    engine.state.error = Some("lost".to_string());
    assert_eq!(engine.state.mode, SyncMode::Polling);
    assert_eq!(engine.target_mode(), SyncMode::Polling);
    engine.record_sse_success();
    assert_eq!(engine.target_mode(), SyncMode::Realtime);
    assert_eq!(engine.state.error, None);
    assert_eq!(engine.next_retry_delay(), 1);
}

#[test]
fn failures_of_an_engine_that_never_connected_leave_it_offline() {
    let mut engine = SyncEngine::new(make_test_config());
    assert_eq!(engine.record_sse_failure(), SyncMode::Offline);
    assert_eq!(engine.record_sse_failure(), SyncMode::Offline);
    assert_eq!(engine.record_sse_failure(), SyncMode::Polling);
}

#[test]
fn a_long_heartbeat_saturates() {
    let mut config = make_test_config();
    config.sse_heartbeat = u64::MAX;
    let engine = SyncEngine::new(config);
    assert_eq!(engine.build_sse_config("").heartbeat_timeout_secs, u64::MAX);
}

#[test]
fn stopping_signals_tasks_and_listener() {
    let runtime = tokio::runtime::Builder::new_current_thread().build().unwrap();
    runtime.block_on(async {
        let (tasks_tx, tasks_rx) = watch::channel(false);
        let (listener_tx, listener_rx) = watch::channel(false);
        let mut engine = SyncEngine::new(make_test_config());
        engine.shutdown = Some(tasks_tx);
        engine.sse_handle = Some(SseHandle {
            join_handle: tokio::spawn(async { Ok(()) }),
            shutdown_tx: listener_tx,
        });
        assert!(!*tasks_rx.borrow());
        assert!(!*listener_rx.borrow());
        engine.stop();
        assert!(*tasks_rx.borrow());
        assert!(*listener_rx.borrow());
        assert!(engine.shutdown.is_none());
        assert!(engine.sse_handle.is_none());
        engine.stop();
        assert!(!engine.status().active);
    });
}

#[test]
fn a_manager_starts_and_stops_engines() {
    let mut manager = SyncEngineManager::new();
    let started = manager.start("p", make_test_config()).unwrap();
    assert!(started.active);
    assert_eq!(started.mode, SyncMode::Offline);
    let mode = manager
        .with_engine("p", |engine| {
            engine.record_sse_success();
            Ok(engine.state.mode)
        })
        .unwrap();
    assert_eq!(mode, SyncMode::Realtime);
    assert!(manager.status("p").unwrap().sse_connected);
    assert_eq!(manager.status("q").unwrap(), SyncState::default());

    let (tx, rx) = watch::channel(false);
    manager
        .with_engine("p", |engine| {
            engine.shutdown = Some(tx);
            Ok(())
        })
        .unwrap();
    // A second start replaces the engine and stops the first one.
    manager.start("p", make_test_config()).unwrap();
    assert!(*rx.borrow());
    assert!(!manager.status("p").unwrap().sse_connected);

    assert_eq!(manager.stop("q").unwrap(), None);
    let last = manager.stop("p").unwrap().unwrap();
    assert!(!last.active);
    assert_eq!(manager.status("p").unwrap(), SyncState::default());
}

#[test]
fn an_error_of_the_caller_comes_back() {
    let mut manager = SyncEngineManager::new();
    manager.start("p", make_test_config()).unwrap();
    let result: Result<(), String> = manager.with_engine("p", |_| Err("no".to_string()));
    assert_eq!(result.unwrap_err(), "no");
}

#[test]
fn configuration_defaults() {
    assert!(default_true());
    assert_eq!(default_poll_interval(), 30);
    assert_eq!(default_sse_heartbeat(), 30);
}

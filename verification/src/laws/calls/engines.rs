//! Calls on engines.

use crate::laws::engines::{
    all_that_runs_is_told_to_stop, connection_makes_good, engine_aims_by_its_failures,
    failure_is_counted, loss_goes_offline, new_engine_waits, stopped_engine_rests,
};
use crate::sync::engine::{
    default_poll_interval, default_sse_heartbeat, default_true, exponential_backoff, SyncEngine,
    SyncEngineConfig, SyncEngineManager, SyncMode, SyncState,
};
use crate::sync::engine::stop_signals;
use crate::sync::signal::Signals;
use crate::sync::sse::{stop_sse_listener, SseConfig, SseHandle};
use vstd::arithmetic::power::pow;
use vstd::prelude::*;

verus! {

/// `exponential_backoff` is the initial delay times the factor to the power of
/// the attempt, but no more than the cap.
pub proof fn exponential_backoff_comes_to(
    attempt: u32,
    initial: u64,
    max: u64,
    factor: u64,
    r: u64,
)
    requires
        call_ensures(exponential_backoff, (attempt, initial, max, factor), r),
    ensures
        r <= max,
        initial * pow(factor as int, attempt as nat) <= max ==> r == initial * pow(
            factor as int,
            attempt as nat,
        ),
        initial * pow(factor as int, attempt as nat) > max ==> r == max,
{
}

/// The defaults: realtime sync, and half a minute between polls and between
/// heartbeats.
pub proof fn defaults_come_to(realtime: bool, poll: u64, heartbeat: u64)
    requires
        call_ensures(default_true, (), realtime),
        call_ensures(default_poll_interval, (), poll),
        call_ensures(default_sse_heartbeat, (), heartbeat),
    ensures
        realtime,
        poll == 30,
        heartbeat == 30,
{
}

/// The state has these values, and no error.
pub open spec fn is_state(
    state: SyncState,
    active: bool,
    mode: SyncMode,
    connected: bool,
) -> bool {
    &&& state.active == active
    &&& !state.paused
    &&& state.error is None
    &&& state.docs_read == 0
    &&& state.docs_written == 0
    &&& state.mode == mode
    &&& state.sse_connected == connected
}

/// All of a state stays but whether it is active, connected, and in which mode.
pub open spec fn keeps_the_rest(before: SyncState, after: SyncState) -> bool {
    &&& after.paused == before.paused
    &&& after.docs_read == before.docs_read
    &&& after.docs_written == before.docs_written
}

/// `SyncEngine::new` is active and offline, and runs nothing.
pub proof fn engine_new_comes_to(config: SyncEngineConfig, r: SyncEngine)
    requires
        call_ensures(SyncEngine::new, (config,), r),
    ensures
        r.config == config,
        is_state(r.state, true, SyncMode::Offline, false),
        r.sse_fail_count == 0,
        r.retry_attempt == 0,
        r.sse_handle is None,
        r.shutdown is None,
        r.signals@.len() == 0,
{
    new_engine_waits(config, r);
}

/// `SyncState::default` is idle.
pub proof fn state_default_comes_to(r: SyncState)
    requires
        call_ensures(SyncState::default, (), r),
    ensures
        is_state(r, false, SyncMode::Offline, false),
{
}

/// `SyncEngine::target_mode` is realtime where that is wanted and fewer than three
/// connections in a row have failed, else polling.
pub proof fn target_mode_comes_to(engine: &SyncEngine, r: SyncMode)
    requires
        call_ensures(SyncEngine::target_mode, (engine,), r),
    ensures
        r == (if engine.config.realtime && engine.sse_fail_count < 3 {
            SyncMode::Realtime
        } else {
            SyncMode::Polling
        }),
{
    engine_aims_by_its_failures(*engine);
}

/// `SyncEngine::record_sse_failure` counts the failure; with the third the engine
/// polls.
pub proof fn record_sse_failure_comes_to(engine: &mut SyncEngine, r: SyncMode)
    requires
        call_ensures(SyncEngine::record_sse_failure, (engine,), r),
        old(engine).sse_fail_count < u32::MAX,
    ensures
        final(engine).sse_fail_count == old(engine).sse_fail_count + 1,
        !final(engine).state.sse_connected,
        r == final(engine).state.mode,
        r == (if old(engine).sse_fail_count + 1 >= 3 {
            SyncMode::Polling
        } else {
            old(engine).state.mode
        }),
        final(engine).state.active == old(engine).state.active,
        final(engine).state.error == old(engine).state.error,
        keeps_the_rest(old(engine).state, final(engine).state),
        final(engine).config == old(engine).config,
        final(engine).retry_attempt == old(engine).retry_attempt,
        final(engine).sse_handle == old(engine).sse_handle,
        final(engine).shutdown == old(engine).shutdown,
        final(engine).signals == old(engine).signals,
{
    failure_is_counted(*old(engine));
}

/// `SyncEngine::record_sse_success` forgets the failures, the retries and the
/// error; the engine is connected in realtime.
pub proof fn record_sse_success_comes_to(engine: &mut SyncEngine)
    requires
        call_ensures(SyncEngine::record_sse_success, (engine,), ()),
    ensures
        final(engine).sse_fail_count == 0,
        final(engine).retry_attempt == 0,
        final(engine).state.sse_connected,
        final(engine).state.mode == SyncMode::Realtime,
        final(engine).state.error is None,
        final(engine).state.active == old(engine).state.active,
        keeps_the_rest(old(engine).state, final(engine).state),
        final(engine).config == old(engine).config,
        final(engine).sse_handle == old(engine).sse_handle,
        final(engine).shutdown == old(engine).shutdown,
        final(engine).signals == old(engine).signals,
{
    connection_makes_good(*old(engine));
}

/// `SyncEngine::go_offline` is offline and not connected, and keeps all else.
pub proof fn go_offline_comes_to(engine: &mut SyncEngine)
    requires
        call_ensures(SyncEngine::go_offline, (engine,), ()),
    ensures
        final(engine).state.mode == SyncMode::Offline,
        !final(engine).state.sse_connected,
        final(engine).state.active == old(engine).state.active,
        final(engine).state.error == old(engine).state.error,
        keeps_the_rest(old(engine).state, final(engine).state),
        final(engine).sse_fail_count == old(engine).sse_fail_count,
        final(engine).retry_attempt == old(engine).retry_attempt,
        final(engine).config == old(engine).config,
        final(engine).sse_handle == old(engine).sse_handle,
        final(engine).shutdown == old(engine).shutdown,
        final(engine).signals == old(engine).signals,
{
    loss_goes_offline(*old(engine));
}

/// `SyncEngine::next_retry_delay` doubles from one second up to a minute, and
/// counts the attempt.
pub proof fn next_retry_delay_comes_to(engine: &mut SyncEngine, r: u64)
    requires
        call_ensures(SyncEngine::next_retry_delay, (engine,), r),
    ensures
        pow(2, old(engine).retry_attempt as nat) <= 60 ==> r == pow(
            2,
            old(engine).retry_attempt as nat,
        ),
        pow(2, old(engine).retry_attempt as nat) > 60 ==> r == 60,
        final(engine).retry_attempt == (if old(engine).retry_attempt == u32::MAX {
            u32::MAX as int
        } else {
            old(engine).retry_attempt + 1
        }),
        final(engine).state == old(engine).state,
        final(engine).sse_fail_count == old(engine).sse_fail_count,
        final(engine).config == old(engine).config,
        final(engine).sse_handle == old(engine).sse_handle,
        final(engine).shutdown == old(engine).shutdown,
        final(engine).signals == old(engine).signals,
{
}

/// `SyncEngine::reset_retry` counts the attempts anew, and keeps all else.
pub proof fn reset_retry_comes_to(engine: &mut SyncEngine)
    requires
        call_ensures(SyncEngine::reset_retry, (engine,), ()),
    ensures
        final(engine).retry_attempt == 0,
        final(engine).state == old(engine).state,
        final(engine).sse_fail_count == old(engine).sse_fail_count,
        final(engine).config == old(engine).config,
        final(engine).sse_handle == old(engine).sse_handle,
        final(engine).shutdown == old(engine).shutdown,
        final(engine).signals == old(engine).signals,
{
}

/// `SyncEngine::build_sse_config` takes over the configuration; the timeout is
/// that of three heartbeats, as far as it fits.
pub proof fn build_sse_config_comes_to(engine: &SyncEngine, filter_key: &str, r: SseConfig)
    requires
        call_ensures(SyncEngine::build_sse_config, (engine, filter_key), r),
    ensures
        r.base_url@ == engine.config.base_url@,
        r.token@ == engine.config.token@,
        r.mode@ == engine.config.sync_mode@,
        r.filter_key@ == filter_key@,
        3 * engine.config.sse_heartbeat <= u64::MAX ==> r.heartbeat_timeout_secs == 3
            * engine.config.sse_heartbeat,
        3 * engine.config.sse_heartbeat > u64::MAX ==> r.heartbeat_timeout_secs == u64::MAX,
{
}

/// `SyncEngine::stop` tells all that runs to stop, and leaves the engine inactive
/// and not connected.
pub proof fn engine_stop_comes_to(engine: &mut SyncEngine)
    requires
        call_ensures(SyncEngine::stop, (engine,), ()),
    ensures
        !final(engine).state.active,
        !final(engine).state.sse_connected,
        final(engine).state.mode == old(engine).state.mode,
        final(engine).state.error == old(engine).state.error,
        keeps_the_rest(old(engine).state, final(engine).state),
        final(engine).config == old(engine).config,
        final(engine).sse_fail_count == old(engine).sse_fail_count,
        final(engine).retry_attempt == old(engine).retry_attempt,
        final(engine).sse_handle is None,
        final(engine).shutdown is None,
        match (old(engine).shutdown, old(engine).sse_handle) {
            (Some(sender), Some(handle)) => final(engine).signals@ == old(engine).signals@ + seq![
                (sender, true),
                (handle.shutdown_tx, true),
            ],
            (Some(sender), None) => final(engine).signals@ == old(engine).signals@ + seq![
                (sender, true),
            ],
            (None, Some(handle)) => final(engine).signals@ == old(engine).signals@ + seq![
                (handle.shutdown_tx, true),
            ],
            (None, None) => final(engine).signals@ == old(engine).signals@,
        },
{
    stopped_engine_rests(*old(engine), *final(engine));
    all_that_runs_is_told_to_stop(*old(engine));
    if old(engine).shutdown is None && old(engine).sse_handle is None {
        assert(final(engine).signals@ =~= old(engine).signals@);
    }
}

/// `SyncEngine::status` is the state as it is.
pub proof fn engine_status_comes_to(engine: &SyncEngine, r: SyncState)
    requires
        call_ensures(SyncEngine::status, (engine,), r),
    ensures
        r == engine.state,
{
}

/// A mode's name is in lower case.
pub proof fn mode_to_string_comes_to(mode: &SyncMode, r: String)
    requires
        call_ensures(SyncMode::to_string, (mode,), r),
    ensures
        r@ == match *mode {
            SyncMode::Realtime => "realtime"@,
            SyncMode::Polling => "polling"@,
            SyncMode::Offline => "offline"@,
        },
{
}

/// `SyncEngineManager::start` gives the project a new engine, and stops the one
/// that it had; the other projects keep theirs.
pub proof fn manager_start_comes_to(
    manager: &mut SyncEngineManager,
    project_id: &str,
    config: SyncEngineConfig,
    r: Result<SyncState, String>,
)
    requires
        call_ensures(SyncEngineManager::start, (manager, project_id, config), r),
    ensures
        r is Ok,
        is_state(r->Ok_0, true, SyncMode::Offline, false),
        final(manager)@.contains_key(project_id@),
        final(manager)@[project_id@].config == config,
        is_state(final(manager)@[project_id@].state, true, SyncMode::Offline, false),
        final(manager)@[project_id@].sse_fail_count == 0,
        final(manager)@[project_id@].retry_attempt == 0,
        final(manager)@[project_id@].sse_handle is None,
        final(manager)@[project_id@].shutdown is None,
        final(manager)@[project_id@].signals@.len() == 0,
        final(manager)@.remove(project_id@) == old(manager)@.remove(project_id@),
        old(manager)@.contains_key(project_id@) ==> final(manager).signals() == old(
            manager
        ).signals() + (old(manager)@[project_id@].signals@ + stop_signals(
            old(manager)@[project_id@],
        )),
        !old(manager)@.contains_key(project_id@) ==> final(manager).signals() == old(
            manager
        ).signals(),
{
    new_engine_waits(config, final(manager)@[project_id@]);
    assert(final(manager)@.dom().contains(project_id@));
    if !old(manager)@.contains_key(project_id@) {
        assert(final(manager).signals() =~= old(manager).signals());
    }
}

/// `SyncEngineManager::stop` takes out the project's engine and stops it; the
/// other projects keep theirs.
pub proof fn manager_stop_comes_to(
    manager: &mut SyncEngineManager,
    project_id: &str,
    r: Result<Option<SyncState>, String>,
)
    requires
        call_ensures(SyncEngineManager::stop, (manager, project_id), r),
    ensures
        r is Ok,
        final(manager)@ == old(manager)@.remove(project_id@),
        r->Ok_0 is Some <==> old(manager)@.contains_key(project_id@),
        r->Ok_0 matches Some(state) ==> {
            let before = old(manager)@[project_id@];
            &&& !state.active
            &&& !state.sse_connected
            &&& state.mode == before.state.mode
            &&& state.error == before.state.error
            &&& keeps_the_rest(before.state, state)
            &&& final(manager).signals() == old(manager).signals() + (before.signals@
                + stop_signals(before))
        },
        r->Ok_0 is None ==> final(manager).signals() == old(manager).signals(),
{
    if !old(manager)@.contains_key(project_id@) {
        assert(final(manager).signals() =~= old(manager).signals());
    }
}

/// `SyncEngineManager::status` is the state of the project's engine, and idle
/// where it has none.
pub proof fn manager_status_comes_to(
    manager: &SyncEngineManager,
    project_id: &str,
    r: Result<SyncState, String>,
)
    requires
        call_ensures(SyncEngineManager::status, (manager, project_id), r),
    ensures
        r is Ok,
        manager@.contains_key(project_id@) ==> r->Ok_0 == manager@[project_id@].state,
        !manager@.contains_key(project_id@) ==> is_state(
            r->Ok_0,
            false,
            SyncMode::Offline,
            false,
        ),
{
}

/// `stop_sse_listener` sends the listener the signal to stop, once.
pub proof fn stop_sse_listener_comes_to(handle: &SseHandle, signals: &mut Signals)
    requires
        call_ensures(stop_sse_listener, (handle, signals), ()),
    ensures
        final(signals)@ == old(signals)@.push((handle.shutdown_tx, true)),
{
}

/// `SyncEngineManager::with_engine` hands the engine of that project to the
/// function, once, and keeps what it leaves; the others stay. Where there is none,
/// the function is not called.
pub proof fn with_engine_comes_to<T, F: FnOnce(&mut SyncEngine) -> Result<T, String>>(
    manager: &mut SyncEngineManager,
    project_id: &str,
    f: F,
    r: Result<T, String>,
)
    requires
        call_ensures(SyncEngineManager::with_engine::<F, T>, (manager, project_id, f), r),
    ensures
        final(manager).signals() == old(manager).signals(),
        if old(manager)@.contains_key(project_id@) {
            exists|engine: &mut SyncEngine|
                {
                    &&& *engine == old(manager)@[project_id@]
                    &&& #[trigger] call_ensures(f, (engine,), r)
                    &&& final(manager)@ == old(manager)@.insert(project_id@, *final(engine))
                }
        } else {
            &&& final(manager)@ == old(manager)@
            &&& r is Err
            &&& r->Err_0@ == "No sync engine for project '"@ + project_id@ + "'"@
        },
{
}

} // verus!

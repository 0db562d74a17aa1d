//! How an engine keeps its mode, waits and ends.

use crate::sync::engine::{
    after_failure, after_loss, after_success, aimed_mode, backoff, engine_stopped, farewell,
    fresh_engine, idle_state, mode_name, next_attempt, stop_signals, SyncEngine, SyncEngineConfig,
    SyncMode,
};
use crate::sync::http::succeeds;
use vstd::arithmetic::power::{lemma_pow0, lemma_pow_positive, pow};
use vstd::prelude::*;

verus! {

/// The first delay is the initial one; each further one is as many times longer
/// as the factor says. None is longer than the cap.
pub proof fn delays_grow_by_the_factor(attempt: nat, initial: int, max: int, factor: int)
    requires
        initial >= 0,
        factor >= 0,
        max >= 0,
    ensures
        backoff(0, initial, max, factor) == (if initial <= max {
            initial
        } else {
            max
        }),
        backoff(attempt + 1, initial, max, factor) == (if backoff(attempt, initial, max, factor)
            * factor <= max {
            backoff(attempt, initial, max, factor) * factor
        } else {
            max
        }),
{
    lemma_pow0(factor);
    reveal(pow);
    let power = pow(factor, attempt);
    assert(pow(factor, attempt + 1) == factor * power);
    let exact = initial * power;
    assert(initial * (factor * power) == exact * factor) by (nonlinear_arith)
        requires
            exact == initial * power,
    ;
    if factor >= 1 {
        lemma_pow_positive(factor, attempt);
    } else if attempt > 0 {
        assert(power == factor * pow(factor, (attempt - 1) as nat));
        assert(power == 0) by (nonlinear_arith)
            requires
                power == factor * pow(factor, (attempt - 1) as nat),
                factor == 0,
        ;
    }
    assert(exact >= 0) by (nonlinear_arith)
        requires
            exact == initial * power,
            initial >= 0,
            power >= 0,
    ;
    if factor >= 1 {
        assert(exact <= exact * factor) by (nonlinear_arith)
            requires
                factor >= 1,
                exact >= 0,
        ;
        assert(max <= max * factor) by (nonlinear_arith)
            requires
                factor >= 1,
                max >= 0,
        ;
    } else {
        assert(exact * factor == 0) by (nonlinear_arith)
            requires
                factor == 0,
        ;
        assert(max * factor == 0) by (nonlinear_arith)
            requires
                factor == 0,
        ;
    }
}

/// The number of attempts grows by one, up to the greatest that there is.
pub proof fn attempts_are_counted(attempt: u32)
    ensures
        next_attempt(attempt) == (if attempt == u32::MAX {
            attempt as int
        } else {
            attempt + 1
        }),
{
}

/// An engine aims at realtime sync where that is wanted and fewer than three
/// connections in a row have failed, else at polling.
pub proof fn engine_aims_by_its_failures(engine: SyncEngine)
    ensures
        aimed_mode(engine) == (if engine.config.realtime && engine.sse_fail_count < 3 {
            SyncMode::Realtime
        } else {
            SyncMode::Polling
        }),
{
}

/// A failed connection is counted, the engine is not connected, and polls from
/// the third failure on; all else stays.
pub proof fn failure_is_counted(engine: SyncEngine)
    requires
        engine.sse_fail_count < u32::MAX,
    ensures
        ({
            let next = after_failure(engine);
            &&& next.sse_fail_count == engine.sse_fail_count + 1
            &&& !next.state.sse_connected
            &&& next.state.mode == (if engine.sse_fail_count + 1 >= 3 {
                SyncMode::Polling
            } else {
                engine.state.mode
            })
            &&& next.state.active == engine.state.active
            &&& next.state.paused == engine.state.paused
            &&& next.state.error == engine.state.error
            &&& next.state.docs_read == engine.state.docs_read
            &&& next.state.docs_written == engine.state.docs_written
            &&& next.config == engine.config
            &&& next.retry_attempt == engine.retry_attempt
            &&& next.sse_handle == engine.sse_handle
            &&& next.shutdown == engine.shutdown
            &&& next.signals == engine.signals
        }),
{
}

/// A connection forgets the failures, the retries and the error, and the engine
/// is connected in realtime; all else stays.
pub proof fn connection_makes_good(engine: SyncEngine)
    ensures
        ({
            let next = after_success(engine);
            &&& next.sse_fail_count == 0
            &&& next.retry_attempt == 0
            &&& next.state.sse_connected
            &&& next.state.mode == SyncMode::Realtime
            &&& next.state.error is None
            &&& next.state.active == engine.state.active
            &&& next.state.paused == engine.state.paused
            &&& next.state.docs_read == engine.state.docs_read
            &&& next.state.docs_written == engine.state.docs_written
            &&& next.config == engine.config
            &&& next.sse_handle == engine.sse_handle
            &&& next.shutdown == engine.shutdown
            &&& next.signals == engine.signals
        }),
{
}

/// An engine that lost the network is offline and not connected; all else stays.
pub proof fn loss_goes_offline(engine: SyncEngine)
    ensures
        ({
            let next = after_loss(engine);
            &&& next.state.mode == SyncMode::Offline
            &&& !next.state.sse_connected
            &&& next.state.active == engine.state.active
            &&& next.state.paused == engine.state.paused
            &&& next.state.error == engine.state.error
            &&& next.state.docs_read == engine.state.docs_read
            &&& next.state.docs_written == engine.state.docs_written
            &&& next.sse_fail_count == engine.sse_fail_count
            &&& next.retry_attempt == engine.retry_attempt
            &&& next.config == engine.config
            &&& next.sse_handle == engine.sse_handle
            &&& next.shutdown == engine.shutdown
            &&& next.signals == engine.signals
        }),
{
}

/// The background tasks are told to stop, and then the listener, each once and
/// only where it runs.
pub proof fn all_that_runs_is_told_to_stop(engine: SyncEngine)
    ensures
        match (engine.shutdown, engine.sse_handle) {
            (Some(sender), Some(handle)) => stop_signals(engine) == seq![
                (sender, true),
                (handle.shutdown_tx, true),
            ],
            (Some(sender), None) => stop_signals(engine) == seq![(sender, true)],
            (None, Some(handle)) => stop_signals(engine) == seq![(handle.shutdown_tx, true)],
            (None, None) => stop_signals(engine).len() == 0,
        },
{
    match (engine.shutdown, engine.sse_handle) {
        (Some(sender), Some(handle)) => {
            assert(stop_signals(engine) =~= seq![(sender, true), (handle.shutdown_tx, true)]);
        },
        (Some(sender), None) => {
            assert(stop_signals(engine) =~= seq![(sender, true)]);
        },
        (None, Some(handle)) => {
            assert(stop_signals(engine) =~= seq![(handle.shutdown_tx, true)]);
        },
        (None, None) => {},
    }
}

/// A stopped engine is not active and not connected, has nothing running, and
/// has sent its signals; its mode, counts and configuration stay.
pub proof fn stopped_engine_rests(before: SyncEngine, after: SyncEngine)
    requires
        engine_stopped(before, after),
    ensures
        !after.state.active,
        !after.state.sse_connected,
        after.state.mode == before.state.mode,
        after.state.paused == before.state.paused,
        after.state.error == before.state.error,
        after.state.docs_read == before.state.docs_read,
        after.state.docs_written == before.state.docs_written,
        after.config == before.config,
        after.sse_fail_count == before.sse_fail_count,
        after.retry_attempt == before.retry_attempt,
        after.sse_handle is None,
        after.shutdown is None,
        after.signals@ == before.signals@ + stop_signals(before),
{
}

/// A new engine is active, offline and not connected, has counted nothing and
/// runs nothing.
pub proof fn new_engine_waits(config: SyncEngineConfig, engine: SyncEngine)
    requires
        fresh_engine(config, engine),
    ensures
        engine.config == config,
        engine.state.active,
        !engine.state.paused,
        engine.state.error is None,
        engine.state.docs_read == 0,
        engine.state.docs_written == 0,
        engine.state.mode == SyncMode::Offline,
        !engine.state.sse_connected,
        engine.sse_fail_count == 0,
        engine.retry_attempt == 0,
        engine.sse_handle is None,
        engine.shutdown is None,
        engine.signals@.len() == 0,
{
}

/// A project without an engine is idle.
pub proof fn idle_project_is_offline()
    ensures
        !idle_state().active,
        !idle_state().paused,
        idle_state().error is None,
        idle_state().docs_read == 0,
        idle_state().docs_written == 0,
        idle_state().mode == SyncMode::Offline,
        !idle_state().sse_connected,
{
}

/// An engine that is taken out leaves the signals that it sent and those that
/// stop it; a project without one leaves none.
pub proof fn engine_leaves_its_signals(
    engines: Map<Seq<char>, SyncEngine>,
    project_id: Seq<char>,
)
    ensures
        engines.contains_key(project_id) ==> farewell(engines, project_id)
            == engines[project_id].signals@ + stop_signals(engines[project_id]),
        !engines.contains_key(project_id) ==> farewell(engines, project_id).len() == 0,
{
}

/// The modes are named.
pub proof fn modes_are_named()
    ensures
        mode_name(SyncMode::Realtime) == "realtime"@,
        mode_name(SyncMode::Polling) == "polling"@,
        mode_name(SyncMode::Offline) == "offline"@,
{
}

/// A reply succeeds with a status in the two hundreds.
pub proof fn success_is_a_status_in_the_two_hundreds(status: u16)
    ensures
        succeeds(status) <==> status as int / 100 == 2,
{
}

} // verus!

//! The sync engine of each project: its mode, its retries, its lifecycle.

use crate::registry::Registry;
use crate::sync::signal::{send_signal, Signals};
use crate::sync::sse::{stop_sse_listener, SseConfig, SseHandle};
use crate::text::join3;
use vstd::arithmetic::power::{lemma_pow_increases, lemma_pow_positive, pow};
use vstd::prelude::*;

verus! {

// ---------------------------------------------------------------------------
// Mode and state
// ---------------------------------------------------------------------------
/// Three-level degradation mode.
#[derive(Debug, Clone, Copy, PartialEq, Eq, Structural)]
pub enum SyncMode {
    /// SSE connected + write-through push.
    Realtime,
    /// SSE failed 3 times: poll every N seconds + batch push.
    Polling,
    /// Network unreachable: queue changes locally.
    Offline,
}

/// The name of a mode.
pub open spec fn mode_name(mode: SyncMode) -> Seq<char> {
    match mode {
        SyncMode::Realtime => "realtime"@,
        SyncMode::Polling => "polling"@,
        SyncMode::Offline => "offline"@,
    }
}

impl SyncMode {
    /// The name of the mode.
    pub fn to_string(&self) -> (r: String)
        ensures
            r@ == mode_name(*self),
    {
        match self {
            SyncMode::Realtime => "realtime".to_owned(),
            SyncMode::Polling => "polling".to_owned(),
            SyncMode::Offline => "offline".to_owned(),
        }
    }
}

/// Observable sync state.
#[derive(Debug, PartialEq)]
pub struct SyncState {
    pub active: bool,
    pub paused: bool,
    pub error: Option<String>,
    pub docs_read: u64,
    pub docs_written: u64,
    pub mode: SyncMode,
    pub sse_connected: bool,
}

impl Clone for SyncState {
    fn clone(&self) -> (r: Self)
        ensures
            r == *self,
    {
        SyncState {
            active: self.active,
            paused: self.paused,
            error: match &self.error {
                Some(e) => Some(e.clone()),
                None => None,
            },
            docs_read: self.docs_read,
            docs_written: self.docs_written,
            mode: self.mode,
            sse_connected: self.sse_connected,
        }
    }
}

/// The state of a project without an engine.
pub open spec fn idle_state() -> SyncState {
    SyncState {
        active: false,
        paused: false,
        error: None,
        docs_read: 0,
        docs_written: 0,
        mode: SyncMode::Offline,
        sse_connected: false,
    }
}

impl Default for SyncState {
    fn default() -> (r: Self)
        ensures
            r == idle_state(),
    {
        SyncState {
            active: false,
            paused: false,
            error: None,
            docs_read: 0,
            docs_written: 0,
            mode: SyncMode::Offline,
            sse_connected: false,
        }
    }
}

// ---------------------------------------------------------------------------
// Configuration
// ---------------------------------------------------------------------------
/// Per-table sync configuration.
#[derive(Debug, Clone)]
pub struct TableSyncConfig {
    pub name: String,
    pub json_indexes: Option<Vec<String>>,
}

/// Configuration passed from the front-end to `sync_start`.
#[derive(Debug, Clone)]
pub struct SyncEngineConfig {
    pub base_url: String,
    pub token: String,
    /// `"user"` | `"company"` | `"project"`
    pub sync_mode: String,
    pub tables: Vec<TableSyncConfig>,
    /// Whether to enable realtime SSE sync (default `true`).
    pub realtime: bool,
    /// Polling fallback interval in seconds (default 30).
    pub poll_interval: u64,
    /// SSE heartbeat interval in seconds (default 30).
    pub sse_heartbeat: u64,
}

/// Whether realtime sync is enabled unless the front-end says otherwise.
pub fn default_true() -> (r: bool)
    ensures
        r,
{
    true
}

/// The polling interval, in seconds, unless the front-end says otherwise.
pub fn default_poll_interval() -> (r: u64)
    ensures
        r == 30,
{
    30
}

/// The heartbeat interval, in seconds, unless the front-end says otherwise.
pub fn default_sse_heartbeat() -> (r: u64)
    ensures
        r == 30,
{
    30
}

// ---------------------------------------------------------------------------
// Exponential backoff
// ---------------------------------------------------------------------------
/// The delay before an attempt: `initial * factor^attempt`, but no more than
/// `max`.
pub open spec fn backoff(attempt: nat, initial: int, max: int, factor: int) -> int {
    if initial * pow(factor, attempt) <= max {
        initial * pow(factor, attempt)
    } else {
        max
    }
}

/// `base^exponent`, or the greatest value that fits if that is less.
fn saturating_power(base: u64, exponent: u32) -> (r: u64)
    ensures
        r == if pow(base as int, exponent as nat) <= u64::MAX {
            pow(base as int, exponent as nat)
        } else {
            u64::MAX as int
        },
{
    proof {
        reveal(pow);
    }
    if exponent == 0 {
        return 1;
    }
    if base <= 1 {
        proof {
            small_power(base as int, exponent as nat);
        }
        return base;
    }
    let mut power: u64 = 1;
    let mut i: u32 = 0;
    while i < exponent
        invariant
            i <= exponent,
            base > 1,
            power == pow(base as int, i as nat),
        decreases exponent - i,
    {
        proof {
            assert(pow(base as int, (i + 1) as nat) == base * power) by {
                reveal(pow);
            }
        }
        match base.checked_mul(power) {
            Some(next) => {
                power = next;
            },
            None => {
                proof {
                    lemma_pow_increases(base as nat, (i + 1) as nat, exponent as nat);
                }
                return u64::MAX;
            },
        }
        i = i + 1;
    }
    power
}

proof fn small_power(base: int, exponent: nat)
    requires
        0 <= base <= 1,
        exponent > 0,
    ensures
        pow(base, exponent) == base,
    decreases exponent,
{
    reveal(pow);
    if exponent > 1 {
        small_power(base, (exponent - 1) as nat);
        assert(base * base == base) by (nonlinear_arith)
            requires
                0 <= base <= 1,
        ;
    } else {
        assert(pow(base, 0) == 1);
        assert(base * 1 == base);
    }
}

/// The next backoff delay using exponential backoff with a cap.
///
/// `attempt` is 0-based. Formula: `min(initial * factor^attempt, max)`.
pub fn exponential_backoff(attempt: u32, initial_secs: u64, max_secs: u64, factor: u64) -> (r: u64)
    ensures
        r == backoff(attempt as nat, initial_secs as int, max_secs as int, factor as int),
{
    let power = saturating_power(factor, attempt);
    let ghost exact = pow(factor as int, attempt as nat);
    let delay = match initial_secs.checked_mul(power) {
        Some(delay) => delay,
        None => u64::MAX,
    };
    proof {
        if exact > u64::MAX {
            if initial_secs == 0 {
                assert(initial_secs * exact == 0);
                assert(initial_secs * power == 0);
            } else {
                assert(initial_secs * exact >= exact) by (nonlinear_arith)
                    requires
                        initial_secs >= 1,
                        exact >= 0,
                ;
                assert(initial_secs * power >= power) by (nonlinear_arith)
                    requires
                        initial_secs >= 1,
                ;
            }
        }
    }
    if delay < max_secs {
        delay
    } else {
        max_secs
    }
}

/// Delays never shrink from one attempt to a later one.
pub proof fn backoff_never_shrinks(
    earlier: nat,
    later: nat,
    initial: int,
    max: int,
    factor: int,
)
    requires
        earlier <= later,
        initial >= 0,
        factor >= 1,
    ensures
        backoff(earlier, initial, max, factor) <= backoff(later, initial, max, factor),
{
    lemma_pow_increases(factor as nat, earlier, later);
    let a = pow(factor, earlier);
    let b = pow(factor, later);
    assert(initial * a <= initial * b) by (nonlinear_arith)
        requires
            a <= b,
            initial >= 0,
    ;
}

/// A delay is never above the cap, and where the cap allows it at least as long
/// as the initial one.
pub proof fn backoff_is_bounded(attempt: nat, initial: int, max: int, factor: int)
    requires
        0 <= initial <= max,
        factor >= 1,
    ensures
        initial <= backoff(attempt, initial, max, factor) <= max,
{
    lemma_pow_positive(factor, attempt);
    let power = pow(factor, attempt);
    assert(initial * power >= initial) by (nonlinear_arith)
        requires
            power >= 1,
            initial >= 0,
    ;
}

// ---------------------------------------------------------------------------
// The engine of a project
// ---------------------------------------------------------------------------
/// So many failed connections in a row degrade the mode.
pub const MAX_SSE_FAILURES: u32 = 3;

/// Manages the sync lifecycle for a single project.
pub struct SyncEngine {
    pub config: SyncEngineConfig,
    pub state: SyncState,
    /// Number of consecutive SSE connection failures.
    pub sse_fail_count: u32,
    /// Current retry attempt (for exponential backoff).
    pub retry_attempt: u32,
    /// Handle to the running SSE listener (if any).
    pub sse_handle: Option<SseHandle>,
    /// Shutdown signal for background tasks.
    pub shutdown: Option<tokio::sync::watch::Sender<bool>>,
    /// The signals that the engine has sent.
    pub signals: Signals,
}

/// The mode that an engine aims at.
pub open spec fn aimed_mode(engine: SyncEngine) -> SyncMode {
    if engine.config.realtime && engine.sse_fail_count < MAX_SSE_FAILURES {
        SyncMode::Realtime
    } else {
        SyncMode::Polling
    }
}

/// An engine after one more failed connection.
pub open spec fn after_failure(engine: SyncEngine) -> SyncEngine {
    let failures = (engine.sse_fail_count + 1) as u32;
    SyncEngine {
        sse_fail_count: failures,
        state: SyncState {
            sse_connected: false,
            mode: if failures >= MAX_SSE_FAILURES {
                SyncMode::Polling
            } else {
                engine.state.mode
            },
            ..engine.state
        },
        ..engine
    }
}

/// An engine after so many failed connections in a row.
pub open spec fn after_failures(engine: SyncEngine, n: nat) -> SyncEngine
    decreases n,
{
    if n == 0 {
        engine
    } else {
        after_failure(after_failures(engine, (n - 1) as nat))
    }
}

/// An engine after a connection.
pub open spec fn after_success(engine: SyncEngine) -> SyncEngine {
    SyncEngine {
        sse_fail_count: 0,
        retry_attempt: 0,
        state: SyncState {
            sse_connected: true,
            mode: SyncMode::Realtime,
            error: None,
            ..engine.state
        },
        ..engine
    }
}

/// An engine after the network was lost.
pub open spec fn after_loss(engine: SyncEngine) -> SyncEngine {
    SyncEngine {
        state: SyncState { mode: SyncMode::Offline, sse_connected: false, ..engine.state },
        ..engine
    }
}

/// The signals that stop an engine: to its background tasks, then to its
/// listener.
pub open spec fn stop_signals(engine: SyncEngine) -> Seq<
    (tokio::sync::watch::Sender<bool>, bool),
> {
    let to_tasks = match engine.shutdown {
        Some(sender) => seq![(sender, true)],
        None => Seq::empty(),
    };
    let to_listener = match engine.sse_handle {
        Some(handle) => seq![(handle.shutdown_tx, true)],
        None => Seq::empty(),
    };
    to_tasks + to_listener
}

/// `after` is the engine `before` once it was stopped.
pub open spec fn engine_stopped(before: SyncEngine, after: SyncEngine) -> bool {
    &&& after.config == before.config
    &&& after.state == (SyncState { active: false, sse_connected: false, ..before.state })
    &&& after.sse_fail_count == before.sse_fail_count
    &&& after.retry_attempt == before.retry_attempt
    &&& after.sse_handle is None
    &&& after.shutdown is None
    &&& after.signals@ == before.signals@ + stop_signals(before)
}

/// A new engine is active and offline, with nothing running.
pub open spec fn fresh_engine(config: SyncEngineConfig, engine: SyncEngine) -> bool {
    &&& engine.config == config
    &&& engine.state == (SyncState { active: true, ..idle_state() })
    &&& engine.sse_fail_count == 0
    &&& engine.retry_attempt == 0
    &&& engine.sse_handle is None
    &&& engine.shutdown is None
    &&& engine.signals@.len() == 0
}

/// The number with which a saturating increment goes on.
pub open spec fn next_attempt(attempt: u32) -> u32 {
    if attempt < u32::MAX {
        (attempt + 1) as u32
    } else {
        u32::MAX
    }
}

impl SyncEngine {
    /// A new engine with the given config, initially in offline mode.
    pub fn new(config: SyncEngineConfig) -> (r: Self)
        ensures
            fresh_engine(config, r),
    {
        SyncEngine {
            config,
            state: SyncState {
                active: true,
                paused: false,
                error: None,
                docs_read: 0,
                docs_written: 0,
                mode: SyncMode::Offline,
                sse_connected: false,
            },
            sse_fail_count: 0,
            retry_attempt: 0,
            sse_handle: None,
            shutdown: None,
            signals: Signals::new(),
        }
    }

    /// The target mode based on SSE failure count and config.
    pub fn target_mode(&self) -> (r: SyncMode)
        ensures
            r == aimed_mode(*self),
    {
        if !self.config.realtime {
            return SyncMode::Polling;
        }
        if self.sse_fail_count >= MAX_SSE_FAILURES {
            SyncMode::Polling
        } else {
            SyncMode::Realtime
        }
    }

    /// Records an SSE failure and potentially degrades the mode.
    /// Returns the mode that results.
    pub fn record_sse_failure(&mut self) -> (r: SyncMode)
        requires
            old(self).sse_fail_count < u32::MAX,
        ensures
            *final(self) == after_failure(*old(self)),
            r == final(self).state.mode,
    {
        self.sse_fail_count = self.sse_fail_count + 1;
        self.state.sse_connected = false;
        if self.sse_fail_count >= MAX_SSE_FAILURES {
            self.state.mode = SyncMode::Polling;
        }
        self.state.mode
    }

    /// Records a successful SSE connection.
    pub fn record_sse_success(&mut self)
        ensures
            *final(self) == after_success(*old(self)),
    {
        self.sse_fail_count = 0;
        self.retry_attempt = 0;
        self.state.sse_connected = true;
        self.state.mode = SyncMode::Realtime;
        self.state.error = None;
    }

    /// Switches to offline mode (network unreachable).
    pub fn go_offline(&mut self)
        ensures
            *final(self) == after_loss(*old(self)),
    {
        self.state.mode = SyncMode::Offline;
        self.state.sse_connected = false;
    }

    /// The next retry delay in seconds using exponential backoff.
    /// Initial: 1s, max: 60s, factor: 2.
    pub fn next_retry_delay(&mut self) -> (r: u64)
        ensures
            r == backoff(old(self).retry_attempt as nat, 1, 60, 2),
            *final(self) == (SyncEngine {
                retry_attempt: next_attempt(old(self).retry_attempt),
                ..*old(self)
            }),
    {
        let delay = exponential_backoff(self.retry_attempt, 1, 60, 2);
        self.retry_attempt = self.retry_attempt.saturating_add(1);
        delay
    }

    /// Resets the retry counter (e.g. after a successful connection).
    pub fn reset_retry(&mut self)
        ensures
            *final(self) == (SyncEngine { retry_attempt: 0, ..*old(self) }),
    {
        self.retry_attempt = 0;
    }

    /// The `SseConfig` of the engine's configuration. The heartbeat timeout is
    /// that of three heartbeats, as far as it fits.
    pub fn build_sse_config(&self, filter_key: &str) -> (r: SseConfig)
        ensures
            r.base_url@ == self.config.base_url@,
            r.token@ == self.config.token@,
            r.mode@ == self.config.sync_mode@,
            r.filter_key@ == filter_key@,
            r.heartbeat_timeout_secs == if self.config.sse_heartbeat * 3 <= u64::MAX {
                self.config.sse_heartbeat * 3
            } else {
                u64::MAX as int
            },
    {
        SseConfig {
            base_url: self.config.base_url.clone(),
            token: self.config.token.clone(),
            mode: self.config.sync_mode.clone(),
            filter_key: filter_key.to_owned(),
            heartbeat_timeout_secs: match self.config.sse_heartbeat.checked_mul(3) {
                Some(timeout) => timeout,
                None => u64::MAX,
            },
        }
    }

    /// Stops the engine: shuts down the background tasks and the SSE listener.
    pub fn stop(&mut self)
        ensures
            engine_stopped(*old(self), *final(self)),
    {
        match self.shutdown.take() {
            Some(sender) => {
                send_signal(&sender, true, &mut self.signals);
            },
            None => {},
        }
        match &self.sse_handle {
            Some(handle) => {
                stop_sse_listener(handle, &mut self.signals);
            },
            None => {},
        }
        self.sse_handle = None;
        self.state.active = false;
        self.state.sse_connected = false;
        assert(self.signals@ =~= old(self).signals@ + stop_signals(*old(self)));
    }

    /// A snapshot of the current state.
    pub fn status(&self) -> (r: SyncState)
        ensures
            r == self.state,
    {
        self.state.clone()
    }
}

// ---------------------------------------------------------------------------
// Laws of the engine
// ---------------------------------------------------------------------------
/// An engine without a failure so far keeps its mode through fewer than three
/// failures in a row, and falls back to polling with the third.
pub proof fn three_failures_degrade(engine: SyncEngine, n: nat)
    requires
        engine.sse_fail_count == 0,
        0 < n <= u32::MAX,
    ensures
        after_failures(engine, n).sse_fail_count == n,
        after_failures(engine, n).state.mode == (if n < 3 {
            engine.state.mode
        } else {
            SyncMode::Polling
        }),
        !after_failures(engine, n).state.sse_connected,
    decreases n,
{
    if n > 1 {
        three_failures_degrade(engine, (n - 1) as nat);
    } else {
        assert(after_failures(engine, 0) == engine);
    }
}

/// The mode of an engine that was connected, and failed since, is the one that
/// it aims at.
pub proof fn mode_follows_the_aim(engine: SyncEngine, n: nat)
    requires
        0 < n <= u32::MAX,
        engine.config.realtime,
    ensures
        aimed_mode(after_failures(after_success(engine), n)) == after_failures(
            after_success(engine),
            n,
        ).state.mode,
    decreases n,
{
    three_failures_degrade(after_success(engine), n);
    failures_keep_the_config(after_success(engine), n);
}

proof fn failures_keep_the_config(engine: SyncEngine, n: nat)
    ensures
        after_failures(engine, n).config == engine.config,
    decreases n,
{
    if n > 0 {
        failures_keep_the_config(engine, (n - 1) as nat);
    }
}

/// A connection makes good for whatever came before: the failures are forgotten
/// and the retries start anew.
pub proof fn connection_recovers(engine: SyncEngine)
    ensures
        after_success(after_loss(engine)).state.mode == SyncMode::Realtime,
        after_success(after_failure(engine)).state.mode == SyncMode::Realtime,
        after_success(engine).sse_fail_count == 0,
        after_success(engine).state.error is None,
        engine.config.realtime ==> aimed_mode(after_success(engine)) == SyncMode::Realtime,
        backoff(after_success(engine).retry_attempt as nat, 1, 60, 2) == 1,
{
    reveal(pow);
    assert(pow(2, 0) == 1);
}

/// Without realtime sync an engine always aims at polling.
pub proof fn polling_without_realtime(engine: SyncEngine)
    requires
        !engine.config.realtime,
    ensures
        aimed_mode(engine) == SyncMode::Polling,
{
}

/// Stopping an engine twice signals once.
pub proof fn stopping_again_signals_nothing(
    engine: SyncEngine,
    stopped: SyncEngine,
    again: SyncEngine,
)
    requires
        engine_stopped(engine, stopped),
        engine_stopped(stopped, again),
    ensures
        again.signals@ == stopped.signals@,
        again.state == stopped.state,
{
    assert(stop_signals(stopped) =~= Seq::empty());
    assert(again.signals@ =~= stopped.signals@);
}

// ---------------------------------------------------------------------------
// The engines of all projects
// ---------------------------------------------------------------------------
/// Manages `SyncEngine` instances for multiple projects.
pub struct SyncEngineManager {
    engines: Registry<SyncEngine>,
    signals: Signals,
}

impl View for SyncEngineManager {
    type V = Map<Seq<char>, SyncEngine>;

    closed spec fn view(&self) -> Map<Seq<char>, SyncEngine> {
        self.engines@
    }
}

/// The signals of the engine that a project has, once it was stopped.
pub open spec fn farewell(engines: Map<Seq<char>, SyncEngine>, project_id: Seq<char>) -> Seq<
    (tokio::sync::watch::Sender<bool>, bool),
> {
    if engines.contains_key(project_id) {
        engines[project_id].signals@ + stop_signals(engines[project_id])
    } else {
        Seq::empty()
    }
}

impl SyncEngineManager {
    /// The signals of the engines that are gone.
    pub closed spec fn signals(self) -> Seq<(tokio::sync::watch::Sender<bool>, bool)> {
        self.signals@
    }

    /// A manager without engines.
    pub fn new() -> (r: Self)
        ensures
            r@ == Map::<Seq<char>, SyncEngine>::empty(),
            r.signals().len() == 0,
    {
        SyncEngineManager { engines: Registry::new(), signals: Signals::new() }
    }

    /// Takes out the engine of a project and stops it.
    fn retire(&mut self, project_id: &str) -> (r: Option<SyncState>)
        ensures
            final(self)@ == old(self)@.remove(project_id@),
            final(self).signals() == old(self).signals() + farewell(old(self)@, project_id@),
            match r {
                Some(state) => old(self)@.contains_key(project_id@) && state == (SyncState {
                    active: false,
                    sse_connected: false,
                    ..old(self)@[project_id@].state
                }),
                None => !old(self)@.contains_key(project_id@),
            },
    {
        match self.engines.remove(project_id) {
            Some(engine) => {
                let mut engine = engine;
                engine.stop();
                let SyncEngine { state, signals, .. } = engine;
                let mut earlier = Signals::new();
                std::mem::swap(&mut earlier, &mut self.signals);
                self.signals = earlier.and(signals);
                Some(state)
            },
            None => {
                assert(self.signals@ + Seq::<
                    (tokio::sync::watch::Sender<bool>, bool),
                >::empty() =~= self.signals@);
                None
            },
        }
    }

    /// Starts sync for a project with a new engine, and returns its state. An
    /// engine that the project has already is stopped first.
    pub fn start(&mut self, project_id: &str, config: SyncEngineConfig) -> (r: Result<
        SyncState,
        String,
    >)
        ensures
            r == Ok::<SyncState, String>((SyncState { active: true, ..idle_state() })),
            final(self)@.dom() == old(self)@.dom().insert(project_id@),
            final(self)@.remove(project_id@) == old(self)@.remove(project_id@),
            fresh_engine(config, final(self)@[project_id@]),
            final(self).signals() == old(self).signals() + farewell(old(self)@, project_id@),
    {
        let _ = self.retire(project_id);
        let engine = SyncEngine::new(config);
        let initial_state = engine.status();
        let _ = self.engines.insert(project_id.to_owned(), engine);
        proof {
            assert(self@.dom() =~= old(self)@.dom().insert(project_id@));
            assert(self@.remove(project_id@) =~= old(self)@.remove(project_id@));
        }
        Ok(initial_state)
    }

    /// Stops sync for a project and returns the state in which its engine ends,
    /// if it had one.
    pub fn stop(&mut self, project_id: &str) -> (r: Result<Option<SyncState>, String>)
        ensures
            final(self)@ == old(self)@.remove(project_id@),
            final(self).signals() == old(self).signals() + farewell(old(self)@, project_id@),
            r == Ok::<Option<SyncState>, String>(
                if old(self)@.contains_key(project_id@) {
                    Some(
                        SyncState {
                            active: false,
                            sse_connected: false,
                            ..old(self)@[project_id@].state
                        },
                    )
                } else {
                    None
                },
            ),
    {
        Ok(self.retire(project_id))
    }

    /// The current sync status for a project; that of an idle one if it has no
    /// engine.
    pub fn status(&self, project_id: &str) -> (r: Result<SyncState, String>)
        ensures
            r == Ok::<SyncState, String>(
                if self@.contains_key(project_id@) {
                    self@[project_id@].state
                } else {
                    idle_state()
                },
            ),
    {
        match self.engines.get(project_id) {
            Some(engine) => Ok(engine.status()),
            None => Ok(SyncState::default()),
        }
    }

    /// Hands the engine of a project to `f`.
    pub fn with_engine<F, T>(&mut self, project_id: &str, f: F) -> (r: Result<T, String>) where
        F: FnOnce(&mut SyncEngine) -> Result<T, String>,

        requires
            old(self)@.contains_key(project_id@) ==> forall|e: &mut SyncEngine|
                *e == old(self)@[project_id@] ==> #[trigger] call_requires(f, (e,)),
        ensures
            final(self).signals() == old(self).signals(),
            if old(self)@.contains_key(project_id@) {
                exists|e: &mut SyncEngine|
                    {
                        &&& *e == old(self)@[project_id@]
                        &&& #[trigger] call_ensures(f, (e,), r)
                        &&& final(self)@ == old(self)@.insert(project_id@, *final(e))
                    }
            } else {
                &&& final(self)@ == old(self)@
                &&& r is Err
                &&& r->Err_0@ == "No sync engine for project '"@ + project_id@ + "'"@
            },
    {
        match self.engines.remove(project_id) {
            Some(engine) => {
                let mut engine = engine;
                let r = f(&mut engine);
                let _ = self.engines.insert(project_id.to_owned(), engine);
                proof {
                    let others = old(self)@.remove(project_id@);
                    assert(others.insert(project_id@, engine) =~= old(self)@.insert(
                        project_id@,
                        engine,
                    ));
                }
                r
            },
            None => {
                assert(old(self)@.remove(project_id@) =~= old(self)@);
                Err(join3("No sync engine for project '", project_id, "'"))
            },
        }
    }
}

} // verus!

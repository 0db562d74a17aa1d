//! The stream of server-sent events.

use crate::encoding::{
    base64_decode, base64_has_no_white_space, base64_refusal, base64_round_trip, base64_text,
    percent_encoded, urlencoded,
};
use crate::sync::pull::PullChange;
use crate::sync::signal::{send_signal, Signals};
use crate::text::{
    blanks_around_are_trimmed, decimal, is_blank, join2, join3, same_text, trim, trim_end_slashes, trimmed, u64_text,
    without_end_slashes,
};
use vstd::prelude::*;

verus! {

// ---------------------------------------------------------------------------
// Types
// ---------------------------------------------------------------------------
/// Payload of an SSE "change" event.
///
/// The SSE `data` field is Base64-encoded MessagePack of it.
#[derive(Debug, Clone, PartialEq)]
pub struct SseChangeEvent {
    pub table: String,
    pub changes: Vec<PullChange>,
}

/// Configuration for establishing an SSE connection.
#[derive(Debug, Clone)]
pub struct SseConfig {
    pub base_url: String,
    pub token: String,
    pub mode: String,
    pub filter_key: String,
    /// Heartbeat timeout in seconds. If no heartbeat is received within this
    /// duration, the connection is considered dead.
    pub heartbeat_timeout_secs: u64,
}

impl Default for SseConfig {
    /// Empty texts and a timeout of three heartbeats of 30 seconds.
    fn default() -> (r: Self)
        ensures
            r.base_url@.len() == 0,
            r.token@.len() == 0,
            r.mode@.len() == 0,
            r.filter_key@.len() == 0,
            r.heartbeat_timeout_secs == 90,
    {
        SseConfig {
            base_url: String::new(),
            token: String::new(),
            mode: String::new(),
            filter_key: String::new(),
            heartbeat_timeout_secs: 90,
        }
    }
}

/// A running listener.
pub struct SseHandle {
    /// The background task.
    pub join_handle: tokio::task::JoinHandle<Result<(), String>>,
    /// Send `true` to signal the listener to shut down gracefully.
    pub shutdown_tx: tokio::sync::watch::Sender<bool>,
}

/// Stops a running listener by sending it the shutdown signal.
pub fn stop_sse_listener(handle: &SseHandle, signals: &mut Signals)
    ensures
        final(signals)@ == old(signals)@.push((handle.shutdown_tx, true)),
{
    send_signal(&handle.shutdown_tx, true, signals)
}

// ---------------------------------------------------------------------------
// The address
// ---------------------------------------------------------------------------
/// The address of the event stream, with its parameters percent-encoded.
pub open spec fn sse_url(config: SseConfig) -> Seq<char> {
    without_end_slashes(config.base_url@) + "/offlite/sse?token="@ + percent_encoded(config.token@)
        + "&mode="@ + percent_encoded(config.mode@) + "&filter_key="@ + percent_encoded(
        config.filter_key@,
    )
}

/// The address of the event stream.
pub fn build_sse_url(config: &SseConfig) -> (r: String)
    ensures
        r@ == sse_url(*config),
{
    let mut url = trim_end_slashes(config.base_url.as_str()).to_owned();
    url.append("/offlite/sse?token=");
    url.append(urlencoded(config.token.as_str()).as_str());
    url.append("&mode=");
    url.append(urlencoded(config.mode.as_str()).as_str());
    url.append("&filter_key=");
    url.append(urlencoded(config.filter_key.as_str()).as_str());
    url
}

// ---------------------------------------------------------------------------
// Change events
// ---------------------------------------------------------------------------
/// The text of a change event is the Base64 of some bytes, apart from white
/// space around it.
pub open spec fn carries_bytes(data: Seq<char>, bytes: Seq<u8>) -> bool {
    trimmed(data) == base64_text(bytes)
}

/// The text of a change event is the Base64 of no bytes.
pub open spec fn carries_nothing(data: Seq<char>) -> bool {
    forall|bytes: Seq<u8>| !#[trigger] carries_bytes(data, bytes)
}

/// The bytes that a change event carries.
pub fn change_event_bytes(data: &str) -> (r: Result<Vec<u8>, String>)
    ensures
        match r {
            Ok(bytes) => carries_bytes(data@, bytes@),
            Err(e) => e@ == "Base64 decode failed: "@ + base64_refusal(trimmed(data@))
                && carries_nothing(data@),
        },
{
    match base64_decode(trim(data)) {
        Ok(bytes) => Ok(bytes),
        Err(e) => Err(join2("Base64 decode failed: ", e.as_str())),
    }
}

/// The Base64 of any bytes carries them, with whatever white space around it.
pub proof fn encoded_bytes_are_carried(before: Seq<char>, bytes: Seq<u8>, after: Seq<char>)
    requires
        is_blank(before),
        is_blank(after),
    ensures
        carries_bytes(before + base64_text(bytes) + after, bytes),
{
    base64_has_no_white_space(bytes);
    blanks_around_are_trimmed(before, base64_text(bytes), after);
}

/// A text carries no two sequences of bytes: what was encoded is what is
/// decoded.
pub proof fn carried_bytes_are_unique(data: Seq<char>, a: Seq<u8>, b: Seq<u8>)
    requires
        carries_bytes(data, a),
        carries_bytes(data, b),
    ensures
        a == b,
{
    base64_round_trip(a);
    base64_round_trip(b);
}

/// An event that was parsed, or the message of an event that was not.
pub open spec fn parsed_event(
    parsed: Result<SseChangeEvent, String>,
    r: Result<SseChangeEvent, String>,
) -> bool {
    match parsed {
        Ok(event) => r == Ok::<SseChangeEvent, String>(event),
        Err(e) => r is Err && r->Err_0@ == "MessagePack decode failed: "@ + e@,
    }
}

/// An event that was parsed, or the message of an event that was not.
pub fn change_event_parsed(parsed: Result<SseChangeEvent, String>) -> (r: Result<
    SseChangeEvent,
    String,
>)
    ensures
        parsed_event(parsed, r),
{
    match parsed {
        Ok(event) => Ok(event),
        Err(e) => Err(join2("MessagePack decode failed: ", e.as_str())),
    }
}

/// A change event was decoded: its bytes were read from Base64 and handed to
/// the parser.
pub open spec fn event_decoded<F: FnOnce(&[u8]) -> Result<SseChangeEvent, String>>(
    data: Seq<char>,
    parse: F,
    r: Result<SseChangeEvent, String>,
) -> bool {
    ||| exists|bytes: &[u8], parsed: Result<SseChangeEvent, String>| #[trigger]
        call_ensures(parse, (bytes,), parsed) && carries_bytes(data, bytes@) && parsed_event(
            parsed,
            r,
        )
    ||| {
        &&& forall|bytes: Seq<u8>| !#[trigger] carries_bytes(data, bytes)
        &&& r is Err
        &&& r->Err_0@ == "Base64 decode failed: "@ + base64_refusal(trimmed(data))
    }
}

/// Decodes a change event: Base64 to bytes, which `parse` reads as MessagePack.
pub fn decode_change_event<F>(data: &str, parse: F) -> (r: Result<SseChangeEvent, String>) where
    F: FnOnce(&[u8]) -> Result<SseChangeEvent, String>,

    requires
        forall|bytes: &[u8]| carries_bytes(data@, bytes@) ==> #[trigger] call_requires(
            parse,
            (bytes,),
        ),
    ensures
        event_decoded(data@, parse, r),
{
    match change_event_bytes(data) {
        Ok(bytes) => {
            let parsed = parse(bytes.as_slice());
            change_event_parsed(parsed)
        },
        Err(e) => Err(e),
    }
}

// ---------------------------------------------------------------------------
// The listener
// ---------------------------------------------------------------------------
/// Nanoseconds in a second.
pub const NANOS_PER_SEC: u128 = 1_000_000_000;

/// Something that a listener hears.
#[derive(Debug, PartialEq)]
pub enum SseInput {
    /// The connection was made.
    Connected,
    /// An event with its type and data.
    Event { event_type: String, data: String },
    /// A comment.
    Comment,
    /// The stream ended.
    Ended,
    /// The stream failed, with this message.
    Failed(String),
    /// The time to wait is over.
    Waited,
    /// The shutdown signal changed to this value.
    Shutdown(bool),
}

/// What a listener does about it.
#[derive(Debug, PartialEq)]
pub enum SseAction {
    /// It goes on listening.
    Continue,
    /// It hands out a change event and goes on listening.
    Deliver(SseChangeEvent),
    /// It skips a change event that could not be decoded, and goes on.
    Skip(String),
    /// It stops, with this result.
    Stop(Result<(), String>),
}

/// A listener. Times are nanoseconds since it was started.
pub struct SseListener {
    heartbeat_timeout_secs: u64,
    last_heartbeat: u128,
}

/// What a [`SseListener`] is, in numbers.
#[verifier::ext_equal]
pub struct SseListenerView {
    /// The heartbeat timeout in seconds.
    pub timeout_secs: nat,
    /// The time of the last sign of life.
    pub last_heartbeat: nat,
}

impl View for SseListener {
    type V = SseListenerView;

    closed spec fn view(&self) -> SseListenerView {
        SseListenerView {
            timeout_secs: self.heartbeat_timeout_secs as nat,
            last_heartbeat: self.last_heartbeat as nat,
        }
    }
}

impl SseListenerView {
    /// How long ago the last sign of life was.
    pub open spec fn silence(self, now: nat) -> nat {
        if now > self.last_heartbeat {
            (now - self.last_heartbeat) as nat
        } else {
            0
        }
    }

    /// The heartbeat timeout in nanoseconds.
    pub open spec fn timeout(self) -> nat {
        self.timeout_secs * 1_000_000_000
    }

    /// The connection is considered dead.
    pub open spec fn is_dead(self, now: nat) -> bool {
        self.silence(now) >= self.timeout()
    }

    /// How long to wait for the next event.
    pub open spec fn patience(self, now: nat) -> nat {
        if self.is_dead(now) {
            0
        } else {
            (self.timeout() - self.silence(now)) as nat
        }
    }

    /// The listener after a sign of life.
    pub open spec fn heard(self, now: nat) -> SseListenerView {
        SseListenerView { last_heartbeat: now, ..self }
    }

    /// The message of a connection that is considered dead.
    pub open spec fn timeout_message(self) -> Seq<char> {
        "SSE heartbeat timeout: no heartbeat received in "@ + decimal(self.timeout_secs) + "s"@
    }
}

/// The input is a sign of life: the connection itself or a heartbeat.
pub open spec fn is_sign_of_life(input: SseInput) -> bool {
    match input {
        SseInput::Connected => true,
        SseInput::Event { event_type, data } => event_type@ == "heartbeat"@,
        _ => false,
    }
}

/// What a listener does about an input. A change event goes to the parser.
pub open spec fn reaction<F: FnOnce(&[u8]) -> Result<SseChangeEvent, String>>(
    listener: SseListenerView,
    now: nat,
    input: SseInput,
    parse: F,
    action: SseAction,
) -> bool {
    match input {
        SseInput::Connected => action is Continue,
        SseInput::Event { event_type, data } => if event_type@ == "change"@ {
            exists|decoded: Result<SseChangeEvent, String>| #[trigger]
                event_decoded(data@, parse, decoded) && match decoded {
                    Ok(event) => action == SseAction::Deliver(event),
                    Err(e) => action == SseAction::Skip(e),
                }
        } else {
            action is Continue
        },
        SseInput::Comment => action is Continue,
        SseInput::Ended => stops_with(action, "SSE stream ended unexpectedly"@),
        SseInput::Failed(e) => stops_with(action, "SSE stream error: "@ + e@),
        SseInput::Waited => if listener.is_dead(now) {
            stops_with(action, listener.timeout_message())
        } else {
            action is Continue
        },
        SseInput::Shutdown(requested) => if requested {
            action == SseAction::Stop(Ok(()))
        } else {
            action is Continue
        },
    }
}

/// The listener stops with this error.
pub open spec fn stops_with(action: SseAction, message: Seq<char>) -> bool {
    action is Stop && action->Stop_0 is Err && action->Stop_0->Err_0@ == message
}

impl SseListener {
    /// A listener that starts now.
    pub fn new(heartbeat_timeout_secs: u64, now: u128) -> (r: Self)
        ensures
            r@ == (SseListenerView {
                timeout_secs: heartbeat_timeout_secs as nat,
                last_heartbeat: now as nat,
            }),
    {
        SseListener { heartbeat_timeout_secs, last_heartbeat: now }
    }

    fn silence(&self, now: u128) -> (r: u128)
        ensures
            r == self@.silence(now as nat),
    {
        if now > self.last_heartbeat {
            now - self.last_heartbeat
        } else {
            0
        }
    }

    fn timeout(&self) -> (r: u128)
        ensures
            r == self@.timeout(),
    {
        self.heartbeat_timeout_secs as u128 * NANOS_PER_SEC
    }

    /// How long to wait for the next input, unless the shutdown was requested.
    pub fn wait(&self, shutdown_requested: bool, now: u128) -> (r: Option<u128>)
        ensures
            match r {
                Some(nanos) => !shutdown_requested && nanos == self@.patience(now as nat),
                None => shutdown_requested,
            },
    {
        if shutdown_requested {
            return None;
        }
        let silence = self.silence(now);
        let timeout = self.timeout();
        if silence >= timeout {
            Some(0)
        } else {
            Some(timeout - silence)
        }
    }

    /// Hears an input.
    pub fn hear<F>(&mut self, now: u128, input: SseInput, parse: F) -> (r: SseAction) where
        F: FnOnce(&[u8]) -> Result<SseChangeEvent, String>,

        requires
            forall|bytes: &[u8]| #[trigger] call_requires(parse, (bytes,)),
        ensures
            reaction(old(self)@, now as nat, input, parse, r),
            final(self)@ == if is_sign_of_life(input) {
                old(self)@.heard(now as nat)
            } else {
                old(self)@
            },
    {
        match input {
            SseInput::Connected => {
                self.last_heartbeat = now;
                SseAction::Continue
            },
            SseInput::Event { event_type, data } => {
                if same_text(event_type.as_str(), "change") {
                    proof {
                        reveal_strlit("change");
                        reveal_strlit("heartbeat");
                        assert("change"@.len() != "heartbeat"@.len());
                    }
                    let decoded = decode_change_event(data.as_str(), parse);
                    assert(event_decoded(data@, parse, decoded));
                    match decoded {
                        Ok(event) => SseAction::Deliver(event),
                        Err(e) => SseAction::Skip(e),
                    }
                } else {
                    if same_text(event_type.as_str(), "heartbeat") {
                        self.last_heartbeat = now;
                    }
                    SseAction::Continue
                }
            },
            SseInput::Comment => SseAction::Continue,
            SseInput::Ended => SseAction::Stop(Err("SSE stream ended unexpectedly".to_owned())),
            SseInput::Failed(e) => SseAction::Stop(Err(join2("SSE stream error: ", e.as_str()))),
            SseInput::Waited => {
                if self.silence(now) >= self.timeout() {
                    let secs = u64_text(self.heartbeat_timeout_secs);
                    SseAction::Stop(
                        Err(
                            join3(
                                "SSE heartbeat timeout: no heartbeat received in ",
                                secs.as_str(),
                                "s",
                            ),
                        ),
                    )
                } else {
                    SseAction::Continue
                }
            },
            SseInput::Shutdown(requested) => {
                if requested {
                    SseAction::Stop(Ok(()))
                } else {
                    SseAction::Continue
                }
            },
        }
    }
}

// ---------------------------------------------------------------------------
// Laws of the listener
// ---------------------------------------------------------------------------
/// A heartbeat keeps the listener alive for as long as the timeout.
pub proof fn heartbeat_keeps_alive(listener: SseListenerView, beat: nat, now: nat)
    requires
        listener.timeout_secs > 0,
        now < beat + listener.timeout(),
    ensures
        !listener.heard(beat).is_dead(now),
{
}

/// A listener that waits as long as its patience lasts, and hears nothing, is
/// dead; it never waits longer than the timeout.
pub proof fn patience_ends_in_death(listener: SseListenerView, now: nat)
    requires
        listener.last_heartbeat <= now,
    ensures
        listener.is_dead(now + listener.patience(now)),
        listener.patience(now) <= listener.timeout(),
{
}

/// No event stops the listener, not even one that cannot be decoded; nor does a
/// comment or the connection.
pub proof fn events_never_stop<F: FnOnce(&[u8]) -> Result<SseChangeEvent, String>>(
    listener: SseListenerView,
    now: nat,
    input: SseInput,
    parse: F,
    action: SseAction,
)
    requires
        reaction(listener, now, input, parse, action),
        input is Event || input is Comment || input is Connected,
    ensures
        !(action is Stop),
{
}

// ---------------------------------------------------------------------------
// A whole run
// ---------------------------------------------------------------------------
/// One round of a listener: whether the shutdown was requested when it began,
/// and, where it was not, what was heard then and when.
pub struct SseRound {
    pub shutdown_requested: bool,
    pub now: nat,
    pub input: SseInput,
}

/// The listener after these rounds.
pub open spec fn listener_after(listener: SseListenerView, rounds: Seq<SseRound>) -> SseListenerView
    decreases rounds.len(),
{
    if rounds.len() == 0 {
        listener
    } else {
        let earlier = listener_after(listener, rounds.drop_last());
        let round = rounds.last();
        if !round.shutdown_requested && is_sign_of_life(round.input) {
            earlier.heard(round.now)
        } else {
            earlier
        }
    }
}

/// What a listener does in a round: it stops where the shutdown was requested,
/// else it reacts to what it hears.
pub open spec fn round_action<F: FnOnce(&[u8]) -> Result<SseChangeEvent, String>>(
    listener: SseListenerView,
    round: SseRound,
    parse: F,
    action: SseAction,
) -> bool {
    if round.shutdown_requested {
        action == SseAction::Stop(Ok(()))
    } else {
        reaction(listener, round.now, round.input, parse, action)
    }
}

/// The rounds of a listener and what it did in each; it goes on until it stops.
pub open spec fn listened<F: FnOnce(&[u8]) -> Result<SseChangeEvent, String>>(
    listener: SseListenerView,
    rounds: Seq<SseRound>,
    parse: F,
    actions: Seq<SseAction>,
) -> bool {
    &&& actions.len() == rounds.len()
    &&& forall|i: int|
        0 <= i < actions.len() ==> round_action(
            listener_after(listener, rounds.take(i)),
            rounds[i],
            parse,
            #[trigger] actions[i],
        )
    &&& forall|i: int| 0 <= i < actions.len() - 1 ==> !(#[trigger] actions[i] is Stop)
}

/// The change events that were handed out, in order.
pub open spec fn delivered(actions: Seq<SseAction>) -> Seq<SseChangeEvent>
    decreases actions.len(),
{
    if actions.len() == 0 {
        Seq::empty()
    } else {
        let earlier = delivered(actions.drop_last());
        match actions.last() {
            SseAction::Deliver(event) => earlier.push(event),
            _ => earlier,
        }
    }
}

/// A change event was heard in the round.
pub open spec fn hears_change(round: SseRound) -> bool {
    !round.shutdown_requested && match round.input {
        SseInput::Event { event_type, data } => event_type@ == "change"@,
        _ => false,
    }
}

/// `decoded` is what the change events of the rounds were decoded to, one for
/// each, in order.
pub open spec fn changes_decoded<F: FnOnce(&[u8]) -> Result<SseChangeEvent, String>>(
    rounds: Seq<SseRound>,
    parse: F,
    decoded: Seq<Result<SseChangeEvent, String>>,
) -> bool
    decreases rounds.len(),
{
    if rounds.len() == 0 {
        decoded.len() == 0
    } else if hears_change(rounds.last()) {
        &&& decoded.len() > 0
        &&& event_decoded(rounds.last().input->data@, parse, decoded.last())
        &&& changes_decoded(rounds.drop_last(), parse, decoded.drop_last())
    } else {
        changes_decoded(rounds.drop_last(), parse, decoded)
    }
}

/// The events that could be decoded, in order.
pub open spec fn decodable(decoded: Seq<Result<SseChangeEvent, String>>) -> Seq<SseChangeEvent>
    decreases decoded.len(),
{
    if decoded.len() == 0 {
        Seq::empty()
    } else {
        let earlier = decodable(decoded.drop_last());
        match decoded.last() {
            Ok(event) => earlier.push(event),
            Err(_) => earlier,
        }
    }
}

/// A run ends well exactly where the shutdown was requested; else it ends with
/// an error, and only where the stream ended, the stream failed, or no heartbeat
/// came in time.
pub proof fn run_ends_well_only_on_shutdown<F: FnOnce(&[u8]) -> Result<SseChangeEvent, String>>(
    listener: SseListenerView,
    rounds: Seq<SseRound>,
    parse: F,
    actions: Seq<SseAction>,
    result: Result<(), String>,
)
    requires
        listened(listener, rounds, parse, actions),
        actions.len() > 0,
        actions.last() == SseAction::Stop(result),
    ensures
        result is Ok <==> rounds.last().shutdown_requested || rounds.last().input
            == SseInput::Shutdown(true),
        result matches Err(e) ==> match rounds.last().input {
            SseInput::Ended => e@ == "SSE stream ended unexpectedly"@,
            SseInput::Failed(message) => e@ == "SSE stream error: "@ + message@,
            SseInput::Waited => e@ == listener.timeout_message() && listener_after(
                listener,
                rounds.drop_last(),
            ).is_dead(rounds.last().now),
            _ => false,
        },
{
    let last = actions.len() - 1;
    assert(rounds.take(last) =~= rounds.drop_last());
    assert(round_action(
        listener_after(listener, rounds.take(last)),
        rounds[last],
        parse,
        actions[last],
    ));
    listener_keeps_its_timeout(listener, rounds.drop_last());
}

proof fn listener_keeps_its_timeout(listener: SseListenerView, rounds: Seq<SseRound>)
    ensures
        listener_after(listener, rounds).timeout_secs == listener.timeout_secs,
    decreases rounds.len(),
{
    if rounds.len() > 0 {
        listener_keeps_its_timeout(listener, rounds.drop_last());
    }
}

/// A listener whose shutdown was requested from the start ends well at once, and
/// hands out nothing.
pub proof fn shutdown_from_the_start_ends_at_once<
    F: FnOnce(&[u8]) -> Result<SseChangeEvent, String>,
>(listener: SseListenerView, rounds: Seq<SseRound>, parse: F, actions: Seq<SseAction>)
    requires
        listened(listener, rounds, parse, actions),
        rounds.len() > 0,
        rounds[0].shutdown_requested,
    ensures
        actions == seq![SseAction::Stop(Ok(()))],
        delivered(actions).len() == 0,
{
    assert(actions[0] == SseAction::Stop(Ok(())));
    assert(actions =~= seq![SseAction::Stop(Ok(()))]);
    assert(actions.drop_last() =~= Seq::empty());
    assert(delivered(actions.drop_last()) =~= Seq::empty());
}

/// A run hands out each change event that it hears and that can be decoded,
/// once, in the order of the stream, and nothing else.
pub proof fn run_delivers_the_decodable_changes<
    F: FnOnce(&[u8]) -> Result<SseChangeEvent, String>,
>(listener: SseListenerView, rounds: Seq<SseRound>, parse: F, actions: Seq<SseAction>)
    requires
        listened(listener, rounds, parse, actions),
    ensures
        exists|decoded: Seq<Result<SseChangeEvent, String>>| #[trigger]
            changes_decoded(rounds, parse, decoded) && delivered(actions) == decodable(decoded),
    decreases rounds.len(),
{
    if rounds.len() == 0 {
        let none: Seq<Result<SseChangeEvent, String>> = Seq::empty();
        assert(changes_decoded(rounds, parse, none));
        assert(delivered(actions) == decodable(none));
    } else {
        let earlier = rounds.drop_last();
        let before = actions.drop_last();
        let last = actions.len() - 1;
        assert forall|i: int| 0 <= i < before.len() implies round_action(
            listener_after(listener, earlier.take(i)),
            earlier[i],
            parse,
            #[trigger] before[i],
        ) by {
            assert(earlier.take(i) =~= rounds.take(i));
            assert(actions[i] == before[i]);
        }
        assert forall|i: int| 0 <= i < before.len() - 1 implies !(#[trigger] before[i] is Stop) by {
            assert(actions[i] == before[i]);
        }
        run_delivers_the_decodable_changes(listener, earlier, parse, before);
        let decoded = choose|decoded: Seq<Result<SseChangeEvent, String>>| #[trigger]
            changes_decoded(earlier, parse, decoded) && delivered(before) == decodable(decoded);
        assert(round_action(
            listener_after(listener, rounds.take(last)),
            rounds[last],
            parse,
            actions[last],
        ));
        if hears_change(rounds.last()) {
            let data = rounds.last().input->data@;
            let result = choose|result: Result<SseChangeEvent, String>| #[trigger]
                event_decoded(data, parse, result) && match result {
                    Ok(event) => actions.last() == SseAction::Deliver(event),
                    Err(e) => actions.last() == SseAction::Skip(e),
                };
            let more = decoded.push(result);
            assert(more.drop_last() =~= decoded);
            assert(changes_decoded(rounds, parse, more));
            assert(delivered(actions) == decodable(more));
        } else {
            assert(!(actions.last() is Deliver));
            assert(changes_decoded(rounds, parse, decoded));
        }
    }
}

} // verus!

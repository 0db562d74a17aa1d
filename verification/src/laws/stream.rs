//! What a listener to the event stream does.

use crate::encoding::{base64_refusal, base64_text, percent_encoded};
use crate::sync::sse::{
    carries_bytes, event_decoded, is_sign_of_life, parsed_event, reaction, sse_url, SseAction,
    SseChangeEvent, SseConfig, SseInput, SseListenerView,
};
use crate::text::{decimal, trimmed, without_end_slashes};
use vstd::prelude::*;

verus! {

/// The stream is listened to at the server's address, with the token, the mode
/// and the filter as percent-encoded parameters.
pub proof fn stream_is_addressed(config: SseConfig)
    ensures
        sse_url(config) == without_end_slashes(config.base_url@) + "/offlite/sse?token="@
            + percent_encoded(config.token@) + "&mode="@ + percent_encoded(config.mode@)
            + "&filter_key="@ + percent_encoded(config.filter_key@),
{
}

/// A change event that is decoded is what the parser makes of the bytes whose
/// Base64 it carries. Where it carries none, or the parser refuses them, the
/// message says which.
pub proof fn event_is_decoded_from_its_bytes<
    F: FnOnce(&[u8]) -> Result<SseChangeEvent, String>,
>(data: Seq<char>, parse: F, r: Result<SseChangeEvent, String>)
    requires
        event_decoded(data, parse, r),
    ensures
        match r {
            Ok(event) => exists|bytes: &[u8]| #[trigger]
                call_ensures(parse, (bytes,), Ok::<SseChangeEvent, String>(event)) && trimmed(data)
                    == base64_text(bytes@),
            Err(message) => {
                ||| message@ == "Base64 decode failed: "@ + base64_refusal(trimmed(data)) && forall|
                    bytes: Seq<u8>,
                | trimmed(data) != #[trigger] base64_text(bytes)
                ||| exists|bytes: &[u8], e: String| #[trigger]
                    call_ensures(parse, (bytes,), Err::<SseChangeEvent, String>(e)) && trimmed(data)
                        == base64_text(bytes@) && message@ == "MessagePack decode failed: "@ + e@
            },
        },
{
    if forall|bytes: Seq<u8>| !#[trigger] carries_bytes(data, bytes) {
        assert forall|bytes: Seq<u8>| trimmed(data) != #[trigger] base64_text(bytes) by {
            assert(!carries_bytes(data, bytes));
        }
    }
    if exists|bytes: &[u8], parsed: Result<SseChangeEvent, String>| #[trigger]
        call_ensures(parse, (bytes,), parsed) && carries_bytes(data, bytes@) && parsed_event(
            parsed,
            r,
        ) {
        let (bytes, parsed) = choose|bytes: &[u8], parsed: Result<SseChangeEvent, String>|
            #[trigger] call_ensures(parse, (bytes,), parsed) && carries_bytes(data, bytes@)
                && parsed_event(parsed, r);
        match parsed {
            Ok(event) => {
                assert(r == Ok::<SseChangeEvent, String>(event));
            },
            Err(e) => {
                assert(call_ensures(parse, (bytes,), Err::<SseChangeEvent, String>(e)));
            },
        }
    }
}

/// An event that was parsed is handed on as it is.
pub proof fn parsed_event_is_handed_on(
    parsed: Result<SseChangeEvent, String>,
    r: Result<SseChangeEvent, String>,
)
    requires
        parsed_event(parsed, r),
    ensures
        parsed is Ok <==> r is Ok,
        parsed is Ok ==> r->Ok_0 == parsed->Ok_0,
        parsed is Err ==> r->Err_0@ == "MessagePack decode failed: "@ + parsed->Err_0@,
{
}

/// Times are counted from the last sign of life: a listener waits as long as is
/// left of its timeout, given in seconds, and is dead when nothing is.
pub proof fn patience_counts_from_the_last_sign(listener: SseListenerView, now: nat)
    requires
        listener.last_heartbeat <= now,
    ensures
        listener.is_dead(now) <==> now >= listener.last_heartbeat + listener.timeout_secs
            * 1_000_000_000,
        !listener.is_dead(now) ==> now + listener.patience(now) == listener.last_heartbeat
            + listener.timeout_secs * 1_000_000_000,
        listener.is_dead(now) ==> listener.patience(now) == 0,
        listener.heard(now).last_heartbeat == now,
        listener.heard(now).timeout_secs == listener.timeout_secs,
        listener.timeout_message() == "SSE heartbeat timeout: no heartbeat received in "@ + decimal(
            listener.timeout_secs,
        ) + "s"@,
{
}

/// A clock that ran backwards counts as no time at all.
pub proof fn no_time_has_passed_before_the_last_sign(listener: SseListenerView, now: nat)
    requires
        now <= listener.last_heartbeat,
    ensures
        listener.is_dead(now) <==> listener.timeout_secs == 0,
        listener.patience(now) == listener.timeout_secs * 1_000_000_000,
{
}

/// A connection and a heartbeat are signs of life, and nothing else is.
pub proof fn signs_of_life(input: SseInput)
    ensures
        is_sign_of_life(input) <==> match input {
            SseInput::Connected => true,
            SseInput::Event { event_type, data } => event_type@ == "heartbeat"@,
            _ => false,
        },
{
}

/// What a listener does about each input: it hands out a change event that is
/// decoded and skips one that is not, goes on after any other event, and stops
/// where the stream ended or failed, the connection is dead, or it is told to.
pub proof fn listener_reacts<F: FnOnce(&[u8]) -> Result<SseChangeEvent, String>>(
    listener: SseListenerView,
    now: nat,
    input: SseInput,
    parse: F,
    action: SseAction,
)
    requires
        reaction(listener, now, input, parse, action),
    ensures
        match input {
            SseInput::Connected => action is Continue,
            SseInput::Comment => action is Continue,
            SseInput::Event { event_type, data } => if event_type@ == "change"@ {
                match action {
                    SseAction::Deliver(event) => event_decoded(
                        data@,
                        parse,
                        Ok::<SseChangeEvent, String>(event),
                    ),
                    SseAction::Skip(e) => event_decoded(
                        data@,
                        parse,
                        Err::<SseChangeEvent, String>(e),
                    ),
                    _ => false,
                }
            } else {
                action is Continue
            },
            SseInput::Ended => action is Stop && action->Stop_0 is Err && action->Stop_0->Err_0@
                == "SSE stream ended unexpectedly"@,
            SseInput::Failed(e) => action is Stop && action->Stop_0 is Err && action->Stop_0->Err_0@
                == "SSE stream error: "@ + e@,
            SseInput::Waited => if listener.is_dead(now) {
                action is Stop && action->Stop_0 is Err && action->Stop_0->Err_0@
                    == "SSE heartbeat timeout: no heartbeat received in "@ + decimal(
                    listener.timeout_secs,
                ) + "s"@
            } else {
                action is Continue
            },
            SseInput::Shutdown(requested) => if requested {
                action is Stop && action->Stop_0 is Ok
            } else {
                action is Continue
            },
        },
{
}

} // verus!

//! Calls of a listener to the event stream.

use crate::encoding::{base64_refusal, base64_text, percent_encoded};
use crate::laws::stream::{
    event_is_decoded_from_its_bytes, listener_reacts, parsed_event_is_handed_on,
};
use crate::sync::sse::{
    build_sse_url, change_event_bytes, change_event_parsed, decode_change_event, event_decoded,
    SseAction, SseChangeEvent, SseConfig, SseInput, SseListener,
};
use crate::text::{decimal, trimmed, without_end_slashes};
use vstd::prelude::*;

verus! {

/// `build_sse_url` is the server's address with the token, the mode and the filter
/// as percent-encoded parameters.
pub proof fn build_sse_url_comes_to(config: &SseConfig, r: String)
    requires
        call_ensures(build_sse_url, (config,), r),
    ensures
        r@ == without_end_slashes(config.base_url@) + "/offlite/sse?token="@ + percent_encoded(
            config.token@,
        ) + "&mode="@ + percent_encoded(config.mode@) + "&filter_key="@ + percent_encoded(
            config.filter_key@,
        ),
{
}

/// `SseConfig::default` is empty, with a timeout of a minute and a half.
pub proof fn config_default_comes_to(r: SseConfig)
    requires
        call_ensures(SseConfig::default, (), r),
    ensures
        r.base_url@.len() == 0,
        r.token@.len() == 0,
        r.mode@.len() == 0,
        r.filter_key@.len() == 0,
        r.heartbeat_timeout_secs == 90,
{
}

/// `change_event_bytes` are those whose Base64 stands between the white space at
/// both ends.
pub proof fn change_event_bytes_comes_to(data: &str, r: Result<Vec<u8>, String>)
    requires
        call_ensures(change_event_bytes, (data,), r),
    ensures
        match r {
            Ok(bytes) => trimmed(data@) == base64_text(bytes@),
            Err(e) => e@ == "Base64 decode failed: "@ + base64_refusal(trimmed(data@)) && forall|
                bytes: Seq<u8>,
            | trimmed(data@) != #[trigger] base64_text(bytes),
        },
{
    if r is Err {
        assert forall|bytes: Seq<u8>| trimmed(data@) != #[trigger] base64_text(bytes) by {
            assert(!crate::sync::sse::carries_bytes(data@, bytes));
        }
    }
}

/// `change_event_parsed` hands on what was parsed.
pub proof fn change_event_parsed_comes_to(
    parsed: Result<SseChangeEvent, String>,
    r: Result<SseChangeEvent, String>,
)
    requires
        call_ensures(change_event_parsed, (parsed,), r),
    ensures
        match parsed {
            Ok(event) => r == Ok::<SseChangeEvent, String>(event),
            Err(e) => r is Err && r->Err_0@ == "MessagePack decode failed: "@ + e@,
        },
{
    parsed_event_is_handed_on(parsed, r);
}

/// `decode_change_event` is what the parser makes of the bytes that are carried.
pub proof fn decode_change_event_comes_to<F: FnOnce(&[u8]) -> Result<SseChangeEvent, String>>(
    data: &str,
    parse: F,
    r: Result<SseChangeEvent, String>,
)
    requires
        call_ensures(decode_change_event::<F>, (data, parse), r),
    ensures
        match r {
            Ok(event) => exists|bytes: &[u8]| #[trigger]
                call_ensures(parse, (bytes,), Ok::<SseChangeEvent, String>(event)) && trimmed(data@)
                    == base64_text(bytes@),
            Err(message) => {
                ||| message@ == "Base64 decode failed: "@ + base64_refusal(trimmed(data@))
                    && forall|bytes: Seq<u8>| trimmed(data@) != #[trigger] base64_text(bytes)
                ||| exists|bytes: &[u8], e: String| #[trigger]
                    call_ensures(parse, (bytes,), Err::<SseChangeEvent, String>(e)) && trimmed(
                        data@,
                    ) == base64_text(bytes@) && message@ == "MessagePack decode failed: "@ + e@
            },
        },
{
    event_is_decoded_from_its_bytes(data@, parse, r);
}

/// `SseListener::new` counts from now.
pub proof fn listener_new_comes_to(timeout_secs: u64, now: u128, r: SseListener)
    requires
        call_ensures(SseListener::new, (timeout_secs, now), r),
    ensures
        r@.timeout_secs == timeout_secs,
        r@.last_heartbeat == now,
{
}

/// `SseListener::wait` is what is left of the timeout since the last sign of life,
/// unless the shutdown was requested.
pub proof fn wait_comes_to(
    listener: &SseListener,
    shutdown_requested: bool,
    now: u128,
    r: Option<u128>,
)
    requires
        call_ensures(SseListener::wait, (listener, shutdown_requested, now), r),
    ensures
        r is None <==> shutdown_requested,
        r matches Some(nanos) ==> {
            let end = listener@.last_heartbeat + listener@.timeout_secs * 1_000_000_000;
            &&& now >= listener@.last_heartbeat && now < end ==> now + nanos == end
            &&& now >= listener@.last_heartbeat && now >= end ==> nanos == 0
            &&& now < listener@.last_heartbeat ==> nanos == listener@.timeout_secs * 1_000_000_000
        },
{
}

/// `SseListener::hear` delivers a change event that is decoded, skips one that is
/// not, and stops where the stream ended or failed, no heartbeat came in time, or
/// the shutdown is requested. A connection and a heartbeat are signs of life.
pub proof fn hear_comes_to<F: FnOnce(&[u8]) -> Result<SseChangeEvent, String>>(
    listener: &mut SseListener,
    now: u128,
    input: SseInput,
    parse: F,
    r: SseAction,
)
    requires
        call_ensures(SseListener::hear::<F>, (listener, now, input, parse), r),
        old(listener)@.last_heartbeat <= now,
    ensures
        final(listener)@.timeout_secs == old(listener)@.timeout_secs,
        match input {
            SseInput::Connected => {
                &&& r is Continue
                &&& final(listener)@.last_heartbeat == now
            },
            SseInput::Event { event_type, data } => {
                &&& final(listener)@.last_heartbeat == (if event_type@ == "heartbeat"@ {
                    now as nat
                } else {
                    old(listener)@.last_heartbeat
                })
                &&& if event_type@ == "change"@ {
                    match r {
                        SseAction::Deliver(event) => event_decoded(
                            data@,
                            parse,
                            Ok::<SseChangeEvent, String>(event),
                        ),
                        SseAction::Skip(e) => event_decoded(
                            data@,
                            parse,
                            Err::<SseChangeEvent, String>(e),
                        ),
                        _ => false,
                    }
                } else {
                    r is Continue
                }
            },
            SseInput::Comment => {
                &&& r is Continue
                &&& final(listener)@.last_heartbeat == old(listener)@.last_heartbeat
            },
            SseInput::Ended => r is Stop && r->Stop_0 is Err && r->Stop_0->Err_0@
                == "SSE stream ended unexpectedly"@,
            SseInput::Failed(e) => r is Stop && r->Stop_0 is Err && r->Stop_0->Err_0@
                == "SSE stream error: "@ + e@,
            SseInput::Waited => {
                &&& final(listener)@.last_heartbeat == old(listener)@.last_heartbeat
                &&& if now >= old(listener)@.last_heartbeat + old(listener)@.timeout_secs
                    * 1_000_000_000 {
                    r is Stop && r->Stop_0 is Err && r->Stop_0->Err_0@
                        == "SSE heartbeat timeout: no heartbeat received in "@ + decimal(
                        old(listener)@.timeout_secs,
                    ) + "s"@
                } else {
                    r is Continue
                }
            },
            SseInput::Shutdown(requested) => {
                &&& final(listener)@.last_heartbeat == old(listener)@.last_heartbeat
                &&& if requested {
                    r is Stop && r->Stop_0 is Ok
                } else {
                    r is Continue
                }
            },
        },
{
    listener_reacts(old(listener)@, now as nat, input, parse, r);
}

} // verus!

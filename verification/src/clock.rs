//! The current time, and the instants that timestamps stand for.

use crate::text::{
    is_before, text_before, text_before_irreflexive, text_before_total, text_before_transitive,
};
use vstd::prelude::*;

verus! {

/// The readings of the clock that were taken, in order. It exists in contracts
/// only; only [`now_rfc3339`] adds to it.
pub struct Readings {
    seen: Ghost<Seq<Seq<char>>>,
}

impl View for Readings {
    type V = Seq<Seq<char>>;

    closed spec fn view(&self) -> Seq<Seq<char>> {
        self.seen@
    }
}

impl Readings {
    /// No readings yet.
    pub(crate) fn new() -> (r: Self)
        ensures
            r@ == Seq::<Seq<char>>::empty(),
    {
        Readings { seen: Ghost(Seq::empty()) }
    }
}

/// `chrono::Utc::now` written by `chrono::DateTime::to_rfc3339`: the current
/// time in UTC, in ISO 8601 form. Of every outcome it holds that a `T` stands
/// between date and time and that the text ends with the offset of UTC. Which
/// time it is remains open; the reading is noted.
#[verifier::external_body]
pub(crate) fn now_rfc3339(readings: &mut Readings) -> (r: String)
    ensures
        is_utc_timestamp(r@),
        final(readings)@ == old(readings)@.push(r@),
{
    chrono::Utc::now().to_rfc3339()
}

/// The text has a `T` and ends with the offset of UTC.
pub open spec fn is_utc_timestamp(text: Seq<char>) -> bool {
    &&& text.contains('T')
    &&& text.len() >= 6
    &&& text.skip(text.len() - 6) == "+00:00"@
}

/// The instant that a text stands for, where it is an RFC 3339 timestamp: the
/// whole seconds since the start of 1970 in UTC, leap seconds not counted, and
/// the nanoseconds since the last of them.
pub uninterp spec fn instant_of(text: Seq<char>) -> Option<(i64, u32)>;

/// `chrono::DateTime::parse_from_rfc3339`, of whose result only the instant is
/// kept, by `timestamp` and `timestamp_subsec_nanos`. It is a function of the
/// text alone; which texts are timestamps, and of which instants, is not said
/// here.
#[verifier::external_body]
pub(crate) fn parse_instant(text: &str) -> (r: Option<(i64, u32)>)
    ensures
        r == instant_of(text@),
{
    match chrono::DateTime::parse_from_rfc3339(text) {
        Ok(time) => Some((time.timestamp(), time.timestamp_subsec_nanos())),
        Err(_) => None,
    }
}

/// One instant comes strictly before another.
pub open spec fn instant_before(a: (i64, u32), b: (i64, u32)) -> bool {
    a.0 < b.0 || (a.0 == b.0 && a.1 < b.1)
}

/// The first of two timestamps is newer than the second: by their instants
/// where both have one, else by the order of the texts. Nothing is older than an
/// empty text.
pub open spec fn newer_by(
    text: Seq<char>,
    instant: Option<(i64, u32)>,
    other: Seq<char>,
    other_instant: Option<(i64, u32)>,
) -> bool {
    if text.len() == 0 || other.len() == 0 {
        text.len() > 0 && other.len() == 0
    } else {
        match (instant, other_instant) {
            (Some(a), Some(b)) => instant_before(b, a),
            _ => text_before(other, text),
        }
    }
}

/// The first of two timestamps is newer than the second.
pub open spec fn is_newer(text: Seq<char>, other: Seq<char>) -> bool {
    newer_by(text, instant_of(text), other, instant_of(other))
}

/// Whether the first of two timestamps is newer than the second; each comes
/// with its instant, where it has one.
pub fn compare_timestamps(
    text: &str,
    instant: Option<(i64, u32)>,
    other: &str,
    other_instant: Option<(i64, u32)>,
) -> (r: bool)
    ensures
        r == newer_by(text@, instant, other@, other_instant),
{
    let text_empty = text.unicode_len() == 0;
    let other_empty = other.unicode_len() == 0;
    if text_empty || other_empty {
        return !text_empty && other_empty;
    }
    match (instant, other_instant) {
        (Some(a), Some(b)) => b.0 < a.0 || (b.0 == a.0 && b.1 < a.1),
        _ => is_before(other, text),
    }
}

/// Of two timestamps at most one is newer than the other, and none is newer
/// than itself.
pub proof fn newer_is_asymmetric(a: Seq<char>, b: Seq<char>)
    ensures
        !(is_newer(a, b) && is_newer(b, a)),
        !is_newer(a, a),
{
    text_before_irreflexive(a);
    if text_before(a, b) && text_before(b, a) {
        text_before_transitive(a, b, a);
    }
}

/// Three timestamps that all have instants, or of which none has, stand in a
/// line: what is newer than the second is newer than the third, or the third is
/// newer than the second.
pub proof fn timestamps_stand_in_line(a: Seq<char>, b: Seq<char>, c: Seq<char>)
    requires
        instant_of(a) is Some == instant_of(b) is Some,
        instant_of(b) is Some == instant_of(c) is Some,
        is_newer(a, b),
    ensures
        is_newer(a, c) || is_newer(c, b),
{
    if instant_of(a) is None && !text_before(c, a) {
        text_before_total(a, c);
        if text_before(a, c) {
            text_before_transitive(b, a, c);
        }
    }
}

} // verus!

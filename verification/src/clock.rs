//! What the engine takes from the outside world: the time and fresh
//! identifiers.

use vstd::prelude::*;

verus! {

/// The earliest and the latest instant that the engine reckons with, in
/// milliseconds since the Unix epoch: a hundred million days either way.
pub const MAX_INSTANT: i64 = 8_640_000_000_000_000;

/// Whether the instant is one that the engine reckons with.
pub open spec fn valid_instant(t: int) -> bool {
    -MAX_INSTANT <= t <= MAX_INSTANT
}

/// Calls `chrono::Utc::now` and reads the instant in milliseconds since the
/// Unix epoch with `DateTime::timestamp_millis`. Nothing is claimed of it.
#[verifier::external_body]
pub(crate) fn system_millis() -> i64 {
    chrono::Utc::now().timestamp_millis()
}

/// Calls `uuid::Uuid::new_v4` and reads its 128 bits with `Uuid::as_u128`.
/// The identifier is random: nothing is claimed of it.
#[verifier::external_body]
pub(crate) fn fresh_id() -> u128 {
    uuid::Uuid::new_v4().as_u128()
}

/// The current instant, held to the range that the engine reckons with.
pub fn now_millis() -> (now: i64)
    ensures
        valid_instant(now as int),
        exists|reading: i64| now == #[trigger] held_in_range(reading),
{
    let reading = system_millis();
    hold_in_range(reading)
}

/// The instant of the range that the engine reckons with that lies nearest to
/// `t`: `t` itself where it lies in the range, else the end of the range on
/// its side.
pub open spec fn held_in_range(t: i64) -> i64 {
    if t < -MAX_INSTANT {
        (-MAX_INSTANT) as i64
    } else if t > MAX_INSTANT {
        MAX_INSTANT
    } else {
        t
    }
}

/// Holds a reading of the clock to the range that the engine reckons with.
pub fn hold_in_range(t: i64) -> (r: i64)
    ensures
        r == held_in_range(t),
        valid_instant(r as int),
        valid_instant(t as int) ==> r == t,
{
    if t < -MAX_INSTANT {
        -MAX_INSTANT
    } else if t > MAX_INSTANT {
        MAX_INSTANT
    } else {
        t
    }
}

} // verus!

//! The wall clock, read in milliseconds.
//!
//! A monotonic reading would need an origin held for the whole process,
//! which this library keeps nowhere; the functions that read this clock
//! each have a variant ending in `_at` that takes the reading instead, so
//! that a caller with a monotonic clock passes its own readings.
use vstd::prelude::*;

verus! {

/// Milliseconds since the Unix epoch (`SystemTime::now` and
/// `SystemTime::duration_since(UNIX_EPOCH)`, read with `Duration::as_millis`;
/// 0 before the epoch). The value depends on the clock: nothing is claimed
/// of it, not even that two readings are ordered.
#[verifier::external_body]
pub(crate) fn now_millis() -> u64 {
    match std::time::SystemTime::now().duration_since(std::time::UNIX_EPOCH) {
        Ok(d) => d.as_millis() as u64,
        Err(_) => 0,
    }
}

/// How long ago `then` was at `now`: `now - then`, or 0 when the clock reads
/// earlier than `then` (`Instant::elapsed` never goes below zero).
pub open spec fn elapsed_spec(then: u64, now: u64) -> nat {
    if now >= then {
        (now - then) as nat
    } else {
        0
    }
}

pub fn elapsed_millis(then: u64, now: u64) -> (r: u64)
    ensures
        r == elapsed_spec(then, now),
{
    if now >= then {
        now - then
    } else {
        0
    }
}

} // verus!

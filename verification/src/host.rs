//! What the interpreter takes from the host: the clock and a source of random bytes.

use vstd::prelude::*;

verus! {

/// `instant::Instant`, a point on the monotonic clock. Nothing inside it is visible here.
#[verifier::external_type_specification]
#[verifier::external_body]
pub struct ExInstant(instant::Instant);

/// Calls `rand::random::<u8>()`. Any byte may come back, so nothing is claimed of it.
#[verifier::external_body]
pub(crate) fn random_byte() -> (byte: u8) {
    rand::random::<u8>()
}

/// Calls `instant::Instant::now()`. The clock decides what comes back, so nothing is
/// claimed of it.
#[verifier::external_body]
pub(crate) fn clock_now() -> (now: instant::Instant) {
    instant::Instant::now()
}

/// Calls `Instant::saturating_duration_since` on `later` with `earlier`, which gives zero
/// where `earlier` is the later of the two, and hands the duration back in whole
/// nanoseconds. Nothing is claimed of the number.
#[verifier::external_body]
pub(crate) fn nanos_between(later: &instant::Instant, earlier: &instant::Instant) -> (nanos: u128) {
    later.saturating_duration_since(*earlier).as_nanos()
}

} // verus!

//! The system clock, as `embassy_time` reports it.
//!
//! Time is kept in clock ticks. How many ticks make a millisecond is decided
//! by the time driver that the program is built with, so the crate never
//! assumes a tick rate: it asks `embassy_time` to convert.

use vstd::prelude::*;

verus! {

/// The number of clock ticks in `millis` milliseconds, rounded up, at the
/// tick rate of the time driver in use.
pub uninterp spec fn millis_as_ticks(millis: u64) -> u64;

/// `embassy_time::Instant::now`, as a tick count since start-up. Nothing is
/// claimed about the value: it is whatever the clock shows.
#[verifier::external_body]
pub(crate) fn clock_ticks() -> u64 {
    embassy_time::Instant::now().as_ticks()
}

/// `embassy_time::Duration::from_millis`, read back as ticks: the same
/// millisecond count always converts to the same tick count. The bound on
/// `millis` keeps the conversion's multiplication by the tick rate, which is
/// at most a few gigahertz, inside 64 bits.
#[verifier::external_body]
pub(crate) fn ticks_from_millis(millis: u64) -> (ticks: u64)
    requires
        millis <= 1_000_000_000,
    ensures
        ticks == millis_as_ticks(millis),
{
    embassy_time::Duration::from_millis(millis).as_ticks()
}

} // verus!

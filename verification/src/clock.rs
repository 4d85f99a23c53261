//! Monotonic time as nanosecond counts.

use std::time::Instant;
use vstd::prelude::*;

verus! {

/// The standard library's monotonic time stamp.
#[verifier::external_type_specification]
#[verifier::external_body]
pub struct ExInstant(std::time::Instant);

/// The longest span, in nanoseconds, that the standard library's `Duration` can hold.
pub const LONGEST_SPAN: u128 = 18_446_744_073_709_551_615_999_999_999;

/// Calls `Instant::now` of the standard library.
///
/// Trusted for nothing: the moment that it returns is the machine's.
#[verifier::external_body]
fn current_instant() -> Instant {
    Instant::now()
}

/// Calls `Instant::elapsed` of the standard library, and gives the span as a count of nanoseconds.
///
/// Trusted: the span is one that a `Duration` can hold. How long it is depends on when it is asked
/// for, so nothing more is said of it.
#[verifier::external_body]
fn nanos_since(origin: &Instant) -> (nanos: u128)
    ensures
        nanos <= LONGEST_SPAN,
{
    origin.elapsed().as_nanos()
}

/// `now` can be read from a clock at or after a moment at which it read `last`: it is not earlier,
/// and within the longest span unless `last` was already past that.
pub open spec fn is_reading(now: nat, last: nat) -> bool {
    last <= now && (now <= LONGEST_SPAN || now == last)
}

/// A monotonic clock that counts nanoseconds from the moment it was started.
#[derive(Debug)]
pub struct Clock {
    origin: Instant,
}

impl Clock {
    /// Start a clock.
    pub fn start() -> Self {
        Clock { origin: current_instant() }
    }

    /// Nanoseconds since the clock was started.
    pub fn now(&self) -> (nanos: u128)
        ensures
            nanos <= LONGEST_SPAN,
    {
        nanos_since(&self.origin)
    }

    /// Nanoseconds since the clock was started, when it has already read `last`: time does not go
    /// back.
    pub fn now_after(&self, last: u128) -> (nanos: u128)
        ensures
            is_reading(nanos as nat, last as nat),
    {
        let nanos: u128 = self.now();
        if nanos < last {
            last
        } else {
            nanos
        }
    }
}

/// A reading is never before the last one, and a clock that has not run past the longest span that
/// a `Duration` holds (the greatest number of seconds in 64 bits, and 999,999,999 nanoseconds) does
/// not read more than that.
pub proof fn law_readings_are_spans(now: nat, last: nat)
    requires
        is_reading(now, last),
    ensures
        last <= now,
        last <= u64::MAX * 1_000_000_000 + 999_999_999 ==> now <= u64::MAX * 1_000_000_000
            + 999_999_999,
        last > u64::MAX * 1_000_000_000 + 999_999_999 ==> now == last,
{
}

} // verus!

//! The time that leases are measured in: nanoseconds since a moment that the clock was started at.

use std::time::{Duration, Instant};
use vstd::prelude::*;

verus! {

/// A moment of the machine's monotonic clock.
#[verifier::external_type_specification]
#[verifier::external_body]
pub struct ExInstant(std::time::Instant);

/// `Instant::now` gives the present moment, of which nothing can be known beforehand.
pub assume_specification[ std::time::Instant::now ]() -> (moment: Instant)
;

/// `Instant::elapsed` gives the time since a moment, of which nothing can be known beforehand.
pub assume_specification[ std::time::Instant::elapsed ](moment: &Instant) -> (span: Duration)
;

/// `Duration::as_nanos` gives a length of time in nanoseconds. A `Duration` counts its seconds in
/// a `u64` and holds less than a second besides, which bounds the number. Which number a given
/// `Duration` stands for is left unsaid, since nothing is known of what is inside one.
pub assume_specification[ std::time::Duration::as_nanos ](span: &Duration) -> (nanos: u128)
    ensures
        nanos <= LONGEST_NANOS,
;

/// No length of time is longer than this many nanoseconds.
pub const LONGEST_NANOS: u128 = 18_446_744_073_709_551_615_999_999_999;

/// A clock that counts from the moment it was started.
#[derive(Debug)]
pub struct Clock {
    started: Instant,
}

impl Clock {
    /// The moment that the clock counts from.
    pub closed spec fn origin(self) -> Instant {
        self.started
    }

    /// A reading of the clock: the nanoseconds of some outcome of asking its origin how much time
    /// has passed since. Only such a call tells whether a number is one.
    pub open spec fn reads(self, nanos: u128) -> bool {
        exists|span: Duration|
            call_ensures(Instant::elapsed, (&self.origin(),), span) && #[trigger] call_ensures(
                Duration::as_nanos,
                (&span,),
                nanos,
            )
    }

    /// The clock counts from what some call has given as the present moment.
    pub open spec fn was_started(self) -> bool {
        call_ensures(Instant::now, (), self.origin())
    }

    /// Starts a clock. The moment that it counts from is whenever the call is made, and nothing
    /// more is said of it.
    pub(crate) fn start() -> (clock: Clock)
        ensures
            clock.was_started(),
    {
        Clock { started: Instant::now() }
    }

    /// The nanoseconds since the clock was started. How many there are is up to the machine: the
    /// number is a reading of this clock, and leaves room to add a lease to it. That no reading is
    /// less than one made before it is left unsaid.
    pub(crate) fn now(&self) -> (nanos: u128)
        ensures
            nanos <= LONGEST_NANOS,
            self.reads(nanos),
    {
        self.started.elapsed().as_nanos()
    }
}

/// A clock counts from a moment that was the present one when it was started, and what it reads is
/// what that moment tells of the time that has passed since, in nanoseconds.
pub proof fn law_clock_counts_from_its_start(clock: Clock, nanos: u128)
    requires
        clock.was_started(),
        clock.reads(nanos),
    ensures
        call_ensures(Instant::now, (), clock.origin()),
        exists|span: Duration|
            call_ensures(Instant::elapsed, (&clock.origin(),), span) && #[trigger] call_ensures(
                Duration::as_nanos,
                (&span,),
                nanos,
            ),
{
}

} // verus!

use std::time::Instant;
use vstd::prelude::*;

verus! {

#[verifier::external_type_specification]
#[verifier::external_body]
pub struct ExInstant(std::time::Instant);

/// Relies on std::time::Instant::now: a reading of the monotonic clock.
/// Nothing is stated of it: it depends on when it is taken.
#[verifier::external_body]
fn instant_now() -> Instant {
    Instant::now()
}

/// Relies on std::time::Instant::elapsed, read in nanoseconds: the time that
/// has passed since `begin`. Nothing is stated of it: it depends on the clock.
#[verifier::external_body]
fn nanos_since(begin: &Instant) -> u128 {
    begin.elapsed().as_nanos()
}

/// Notes when it is created so that the caller can wait, when it is done,
/// until at least the given duration has passed since then: a frame pacer.
pub struct FixWaitTimer {
    begin: Instant,
    duration_nanos: u128,
}

impl FixWaitTimer {
    /// The duration to be filled, in nanoseconds.
    pub closed spec fn duration(&self) -> u128 {
        self.duration_nanos
    }

    /// Starts a timer for `duration_nanos` nanoseconds from now.
    pub fn new(duration_nanos: u128) -> (t: FixWaitTimer)
        ensures
            t.duration() == duration_nanos,
    {
        FixWaitTimer { begin: instant_now(), duration_nanos }
    }

    /// How long is still to be waited, in nanoseconds, once `elapsed_nanos`
    /// nanoseconds have passed since the timer was created: nothing once the
    /// duration is over.
    pub fn wait_after(&self, elapsed_nanos: u128) -> (w: u128)
        ensures
            elapsed_nanos < self.duration() ==> w == self.duration() - elapsed_nanos,
            elapsed_nanos >= self.duration() ==> w == 0,
    {
        if elapsed_nanos < self.duration_nanos {
            self.duration_nanos - elapsed_nanos
        } else {
            0
        }
    }

    /// How long is still to be waited now, in nanoseconds: never more than the
    /// timer's duration.
    pub fn remaining(&self) -> (w: u128)
        ensures
            w <= self.duration(),
    {
        let elapsed = nanos_since(&self.begin);
        self.wait_after(elapsed)
    }
}

} // verus!

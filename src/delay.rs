use vstd::prelude::*;

verus! {

/// The outcome of driving a `Delay` once.
pub enum DelayPoll {
    /// The instant has been reached.
    Ready,
    /// Not yet: the instant lies this many nanoseconds ahead. The caller
    /// arranges to be woken after that long.
    Wait(u64),
}

/// A future that is done once the clock reaches a fixed instant, given in
/// nanoseconds on the caller's clock.
pub struct Delay {
    pub when: u64,
}

/// How long a waiting thread must still sleep at clock reading `now` before
/// the instant `when` is reached.
pub open spec fn remaining_spec(when: u64, now: u64) -> u64 {
    if now < when {
        (when - now) as u64
    } else {
        0
    }
}

/// Computes `remaining_spec(when, now)`.
pub fn remaining(when: u64, now: u64) -> (r: u64)
    ensures
        r == remaining_spec(when, now),
{
    if now < when {
        when - now
    } else {
        0
    }
}

impl Delay {
    pub fn new(when: u64) -> (r: Delay)
        ensures
            r.when == when,
    {
        Delay { when }
    }

    /// Drives the delay once at clock reading `now`: `Ready` exactly when
    /// `now` has reached the instant, else the time still to wait.
    pub fn poll(&self, now: u64) -> (r: DelayPoll)
        ensures
            (r is Ready) == (now >= self.when),
            r is Wait ==> r->Wait_0 == self.when - now && r->Wait_0 > 0,
    {
        if now >= self.when {
            DelayPoll::Ready
        } else {
            DelayPoll::Wait(remaining(self.when, now))
        }
    }
}

} // verus!

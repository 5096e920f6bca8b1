use vstd::prelude::*;

verus! {

/// The largest value of the nanosecond clock.
pub const CLOCK_MAX: u64 = 0xffff_ffff_ffff_ffff;

/// The instant at which a timer started at `start` for `duration` expires,
/// saturated at the end of the clock.
pub open spec fn deadline_of(start: u64, duration: u64) -> u64 {
    if start + duration <= CLOCK_MAX {
        (start + duration) as u64
    } else {
        CLOCK_MAX
    }
}

/// Computes `deadline_of(start, duration)`.
pub fn deadline_after(start: u64, duration: u64) -> (r: u64)
    ensures
        r == deadline_of(start, duration),
{
    start.saturating_add(duration)
}

/// What the timing side learns when it tries to fire the timer.
pub enum Expiry<W> {
    /// The deadline was reached: the state is now completed, and the waker
    /// that was registered (if any) is handed over to be triggered.
    Fired(Option<W>),
    /// The deadline lies this many nanoseconds ahead.
    Early(u64),
    /// No deadline has been armed yet.
    Unarmed,
}

/// The rendezvous between a timer future and its background timing thread.
///
/// `completed` only ever moves from `false` to `true`. The registered waker,
/// if any, is handed out exactly once, at the moment of completion. The state
/// completes only at a clock reading at or after its armed deadline.
pub struct SharedCompletion<W> {
    completed: bool,
    waker: Option<W>,
    deadline: Option<u64>,
    fired_at: u64,
}

impl<W> SharedCompletion<W> {
    pub closed spec fn completed(&self) -> bool {
        self.completed
    }

    pub closed spec fn waker(&self) -> Option<W> {
        self.waker
    }

    pub closed spec fn deadline(&self) -> Option<u64> {
        self.deadline
    }

    /// The clock reading at which the state completed.
    pub closed spec fn fired_at(&self) -> u64 {
        self.fired_at
    }

    /// A completed state was armed, and completed no earlier than its deadline.
    pub open spec fn wf(&self) -> bool {
        self.completed() ==> (self.deadline() is Some && self.fired_at() >= self.deadline()->0)
    }

    /// A fresh, unarmed, not yet completed state with no waker registered.
    pub fn new() -> (r: Self)
        ensures
            r.wf(),
            !r.completed(),
            r.waker() is None,
            r.deadline() is None,
    {
        SharedCompletion { completed: false, waker: None, deadline: None, fired_at: 0 }
    }

    /// Whether the timing side has signalled completion.
    pub fn is_completed(&self) -> (r: bool)
        ensures
            r == self.completed(),
    {
        self.completed
    }

    /// The armed deadline, if any.
    pub fn armed_deadline(&self) -> (r: Option<u64>)
        ensures
            r == self.deadline(),
    {
        self.deadline
    }

    /// Registers `w` as the waker to trigger on completion, replacing any
    /// earlier one.
    pub fn register(&mut self, w: W)
        requires
            old(self).wf(),
        ensures
            final(self).wf(),
            final(self).waker() == Some(w),
            final(self).completed() == old(self).completed(),
            final(self).deadline() == old(self).deadline(),
            final(self).fired_at() == old(self).fired_at(),
    {
        self.waker = Some(w);
    }

    /// Sets the deadline at which the timing side may complete the state.
    pub fn arm(&mut self, deadline: u64)
        requires
            old(self).wf(),
            !old(self).completed(),
        ensures
            final(self).wf(),
            final(self).deadline() == Some(deadline),
            !final(self).completed(),
            final(self).waker() == old(self).waker(),
            final(self).fired_at() == old(self).fired_at(),
    {
        self.deadline = Some(deadline);
    }

    /// Reports completion if it has happened, and otherwise registers `w`.
    /// Returns whether the state was completed.
    pub fn poll_or_register(&mut self, w: W) -> (r: bool)
        requires
            old(self).wf(),
        ensures
            final(self).wf(),
            r == old(self).completed(),
            r ==> *final(self) == *old(self),
            !r ==> final(self).waker() == Some(w),
            final(self).completed() == old(self).completed(),
            final(self).deadline() == old(self).deadline(),
            final(self).fired_at() == old(self).fired_at(),
    {
        if self.completed {
            true
        } else {
            self.waker = Some(w);
            false
        }
    }

    /// The timing side's attempt to complete the state at clock reading `now`.
    ///
    /// Completes exactly when a deadline is armed and `now` has reached it,
    /// taking the registered waker so that it is triggered at most once. A
    /// state that has already completed stays as it is and hands out nothing.
    pub fn fire(&mut self, now: u64) -> (r: Expiry<W>)
        requires
            old(self).wf(),
        ensures
            final(self).wf(),
            old(self).completed() ==> *final(self) == *old(self) && r == Expiry::<W>::Fired(None),
            !old(self).completed() ==> match old(self).deadline() {
                None => r is Unarmed && *final(self) == *old(self),
                Some(d) => if now >= d {
                    &&& r == Expiry::Fired(old(self).waker())
                    &&& final(self).completed()
                    &&& final(self).waker() is None
                    &&& final(self).deadline() == old(self).deadline()
                    &&& final(self).fired_at() == now
                } else {
                    r == Expiry::<W>::Early((d - now) as u64) && *final(self) == *old(self)
                },
            },
    {
        if self.completed {
            return Expiry::Fired(None);
        }
        match self.deadline {
            None => Expiry::Unarmed,
            Some(d) => {
                if now >= d {
                    self.completed = true;
                    self.fired_at = now;
                    Expiry::Fired(self.waker.take())
                } else {
                    Expiry::Early(d - now)
                }
            },
        }
    }
}

} // verus!

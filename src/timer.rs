use vstd::prelude::*;

use crate::completion::{deadline_after, deadline_of, SharedCompletion, CLOCK_MAX};

verus! {

/// The outcome of driving a timer once.
pub enum TimerPoll {
    /// The deadline has passed; the timer is finished.
    Ready,
    /// Not yet. When `start` is set, this was the first drive and the caller
    /// must now launch the timing thread for the armed deadline.
    Pending { start: bool },
}

impl TimerPoll {
    pub open spec fn starts(&self) -> bool {
        match self {
            TimerPoll::Pending { start } => *start,
            TimerPoll::Ready => false,
        }
    }
}

/// How one drive changes a timer, given whether it had started and whether
/// its shared state had completed: whether it has started afterwards, and
/// whether this drive launches the timing thread.
pub open spec fn poll_step(started: bool, completed: bool) -> (bool, bool) {
    if completed {
        (started, false)
    } else {
        (true, !started)
    }
}

/// A delay of a fixed number of nanoseconds, driven lazily.
///
/// Nothing happens at construction. The first drive that finds the delay
/// unfinished records the clock reading, arms the shared state with the
/// deadline and asks for the timing thread to be launched; no later drive
/// asks again.
pub struct Timer {
    duration: u64,
    started_at: Option<u64>,
}

/// A timer and the shared state it completes through belong together: the
/// shared state is armed exactly when the timer has started, with the deadline
/// the timer's start and duration give.
pub open spec fn paired<W>(t: &Timer, s: &SharedCompletion<W>) -> bool {
    &&& s.wf()
    &&& match t.started_at() {
        None => s.deadline() is None && !s.completed(),
        Some(st) => s.deadline() == Some(deadline_of(st, t.duration())),
    }
}

impl Timer {
    pub closed spec fn duration(&self) -> u64 {
        self.duration
    }

    /// The clock reading at the first drive, once there has been one.
    pub closed spec fn started_at(&self) -> Option<u64> {
        self.started_at
    }

    pub open spec fn started(&self) -> bool {
        self.started_at() is Some
    }

    /// A timer of `duration` nanoseconds that has not started.
    pub fn new(duration: u64) -> (r: Timer)
        ensures
            r.duration() == duration,
            r.started_at() is None,
    {
        Timer { duration, started_at: None }
    }

    pub fn duration_nanos(&self) -> (r: u64)
        ensures
            r == self.duration(),
    {
        self.duration
    }

    pub fn is_started(&self) -> (r: bool)
        ensures
            r == self.started(),
    {
        self.started_at.is_some()
    }

    /// Drives the timer once at clock reading `now`, with `waker` as the
    /// caller's current waker.
    ///
    /// Reports `Ready` exactly when the shared state has completed, and then
    /// changes nothing. Otherwise starts the timer if this is its first
    /// drive, registers `waker` in place of any earlier one, and reports
    /// `Pending`.
    pub fn poll<W>(&mut self, shared: &mut SharedCompletion<W>, now: u64, waker: W) -> (r:
        TimerPoll)
        requires
            paired(old(self), old(shared)),
        ensures
            paired(final(self), final(shared)),
            final(self).duration() == old(self).duration(),
            (r is Ready) == old(shared).completed(),
            (final(self).started(), r.starts()) == poll_step(
                old(self).started(),
                old(shared).completed(),
            ),
            r is Ready ==> {
                &&& *final(self) == *old(self)
                &&& *final(shared) == *old(shared)
                &&& final(shared).fired_at() >= deadline_of(
                    final(self).started_at()->0,
                    final(self).duration(),
                )
            },
            r is Pending ==> {
                &&& !final(shared).completed()
                &&& final(shared).waker() == Some(waker)
                &&& final(shared).fired_at() == old(shared).fired_at()
            },
            r.starts() ==> final(self).started_at() == Some(now),
            !r.starts() ==> final(self).started_at() == old(self).started_at(),
    {
        if shared.is_completed() {
            return TimerPoll::Ready;
        }
        let start = self.started_at.is_none();
        if start {
            self.started_at = Some(now);
            let deadline = deadline_after(now, self.duration);
            shared.arm(deadline);
        }
        shared.register(waker);
        TimerPoll::Pending { start }
    }
}

/// How many of a run of drives launch the timing thread, for a timer that
/// begins `started` or not, where `completed[i]` is whether the shared state
/// had completed at the `i`-th drive.
pub open spec fn starts_over(started: bool, completed: Seq<bool>) -> nat
    decreases completed.len(),
{
    if completed.len() == 0 {
        0
    } else {
        let (next, spawns) = poll_step(started, completed[0]);
        (if spawns {
            1nat
        } else {
            0nat
        }) + starts_over(next, completed.drop_first())
    }
}

/// However often a timer is driven, it asks for the timing thread at most
/// once, and never again once it has started.
pub proof fn lemma_timer_starts_at_most_once(started: bool, completed: Seq<bool>)
    ensures
        starts_over(started, completed) <= 1,
        started ==> starts_over(started, completed) == 0,
    decreases completed.len(),
{
    if completed.len() > 0 {
        let (next, _) = poll_step(started, completed[0]);
        lemma_timer_starts_at_most_once(next, completed.drop_first());
        lemma_timer_starts_at_most_once(true, completed.drop_first());
    }
}

/// A timer never finishes early: once its shared state has completed, the
/// completing clock reading lies at or after the start plus the duration
/// (or at the end of the clock, when that sum does not fit).
pub proof fn lemma_timer_not_early<W>(t: &Timer, s: &SharedCompletion<W>)
    requires
        paired(t, s),
        s.completed(),
    ensures
        t.started(),
        t.started_at()->0 + t.duration() <= CLOCK_MAX ==> s.fired_at() - t.started_at()->0
            >= t.duration(),
        t.started_at()->0 + t.duration() > CLOCK_MAX ==> s.fired_at() == CLOCK_MAX,
{
}

} // verus!

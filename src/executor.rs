use vstd::prelude::*;

use std::collections::VecDeque;

verus! {

/// What one turn of the run-loop did.
pub enum Turn {
    /// The queue was empty; nothing was driven.
    Idle,
    /// The task at the head was driven to completion and discarded.
    Finished,
    /// The task at the head was driven, was not finished, and went to the tail.
    Requeued,
}

/// `after` and `r` are what one turn makes of the queue `before` under
/// `drive`: nothing, when it was empty; else its head was driven once and
/// either discarded or put back, as it then was, at the tail.
pub open spec fn turned<T, F: Fn(T) -> Option<T>>(
    drive: F,
    before: Seq<T>,
    after: Seq<T>,
    r: Turn,
) -> bool {
    &&& (r is Idle) == (before.len() == 0)
    &&& r is Idle ==> after == before
    &&& r is Finished ==> {
        &&& drive.ensures((before[0],), None)
        &&& after == before.drop_first()
    }
    &&& r is Requeued ==> {
        &&& drive.ensures((before[0],), Some(after.last()))
        &&& after == before.drop_first().push(after.last())
    }
}

/// `drive` behaves like a countdown measured by `need`: a task with `need`
/// zero finishes when driven, and any other comes back with `need` one lower.
pub open spec fn counts_down<T, F: Fn(T) -> Option<T>>(drive: F, need: spec_fn(T) -> nat) -> bool {
    forall|t: T, o: Option<T>|
        #[trigger] drive.ensures((t,), o) ==> match o {
            None => need(t) == 0,
            Some(t2) => need(t) > 0 && need(t2) == need(t) - 1,
        }
}

/// The number of drives still owed to the queued tasks.
pub open spec fn work_left<T>(tasks: Seq<T>, need: spec_fn(T) -> nat) -> nat
    decreases tasks.len(),
{
    if tasks.len() == 0 {
        0
    } else {
        work_left(tasks.drop_last(), need) + need(tasks.last()) + 1
    }
}

proof fn lemma_work_left_head<T>(tasks: Seq<T>, need: spec_fn(T) -> nat)
    requires
        tasks.len() > 0,
    ensures
        work_left(tasks, need) == need(tasks[0]) + 1 + work_left(tasks.drop_first(), need),
    decreases tasks.len(),
{
    if tasks.len() > 1 {
        lemma_work_left_head(tasks.drop_last(), need);
        assert(tasks.drop_last().drop_first() =~= tasks.drop_first().drop_last());
        assert(tasks.drop_last()[0] == tasks[0]);
        assert(tasks.drop_first().last() == tasks.last());
        assert(work_left(tasks.drop_first(), need) == work_left(tasks.drop_first().drop_last(), need)
            + need(tasks.last()) + 1);
    } else {
        assert(tasks.drop_last().len() == 0);
        assert(tasks.drop_first().len() == 0);
        assert(tasks.last() == tasks[0]);
        assert(work_left(tasks.drop_last(), need) == 0);
        assert(work_left(tasks.drop_first(), need) == 0);
    }
}

/// Every turn on a queue of countdown tasks that is not empty performs one of
/// the drives still owed, so running the queue until it is idle takes exactly
/// `work_left` turns and leaves it empty; and nothing is owed only when the
/// queue is empty.
pub proof fn lemma_turn_performs_owed_drive<T, F: Fn(T) -> Option<T>>(
    drive: F,
    need: spec_fn(T) -> nat,
    before: Seq<T>,
    after: Seq<T>,
    r: Turn,
)
    requires
        turned(drive, before, after, r),
        counts_down(drive, need),
    ensures
        (work_left(before, need) == 0) == (before.len() == 0),
        before.len() > 0 ==> work_left(after, need) + 1 == work_left(before, need),
{
    if before.len() > 0 {
        lemma_work_left_head(before, need);
        match r {
            Turn::Finished => {
                assert(drive.ensures((before[0],), None::<T>));
            },
            Turn::Requeued => {
                assert(drive.ensures((before[0],), Some(after.last())));
                assert(after.drop_last() =~= before.drop_first());
            },
            Turn::Idle => {},
        }
    }
}

/// A single-threaded cooperative executor over tasks of type `T`.
///
/// Tasks wait in a first-in first-out queue. Each turn takes the task at the
/// head, drives it once, and either discards it (it finished) or puts it back
/// at the tail (it did not), so pending tasks are retried round-robin.
pub struct Executor<T> {
    tasks: VecDeque<T>,
}

impl<T> View for Executor<T> {
    type V = Seq<T>;

    /// The queued tasks, head first.
    closed spec fn view(&self) -> Seq<T> {
        self.tasks@
    }
}

impl<T> Executor<T> {
    /// An executor with nothing queued.
    pub fn new() -> (r: Self)
        ensures
            r@ == Seq::<T>::empty(),
    {
        Executor { tasks: VecDeque::new() }
    }

    /// Queues `task` at the tail. Nothing is driven yet.
    pub fn spawn(&mut self, task: T)
        ensures
            final(self)@ == old(self)@.push(task),
    {
        self.tasks.push_back(task);
    }

    /// The number of queued tasks.
    pub fn len(&self) -> (r: usize)
        ensures
            r == self@.len(),
    {
        self.tasks.len()
    }

    pub fn is_empty(&self) -> (r: bool)
        ensures
            r == (self@.len() == 0),
    {
        self.tasks.len() == 0
    }

    /// One turn of the run-loop. `drive` advances a task by one step and
    /// hands it back if it is not finished, or `None` if it is.
    pub fn turn<F: Fn(T) -> Option<T>>(&mut self, drive: &F) -> (r: Turn)
        requires
            forall|t: T| drive.requires((t,)),
        ensures
            turned(*drive, old(self)@, final(self)@, r),
    {
        match self.tasks.pop_front() {
            None => Turn::Idle,
            Some(task) => match drive(task) {
                None => Turn::Finished,
                Some(rest) => {
                    self.tasks.push_back(rest);
                    Turn::Requeued
                },
            },
        }
    }
}

} // verus!

use vstd::prelude::*;

verus! {

/// The outcome of driving a computation of state `T` and result `R` once.
pub enum Step<T, R> {
    /// It finished with this result.
    Done(R),
    /// It has not finished; this is its state for the next drive.
    Pending(T),
}

/// The outcome of one turn of a race between two computations.
pub enum RaceStep<A, B, R> {
    /// The first finished with this result; the second is abandoned.
    First(R),
    /// The first had not finished, the second finished with this result;
    /// the first is abandoned.
    Second(R),
    /// Neither finished; these are their states for the next turn.
    Neither(A, B),
}

/// `r` is what one turn of a race makes of `a` and `b`: `a` was driven and
/// finished; or it did not, and `b` was driven and finished; or neither did.
pub open spec fn raced<A, B, R, FA: Fn(A) -> Step<A, R>, FB: Fn(B) -> Step<B, R>>(
    drive_a: FA,
    drive_b: FB,
    a: A,
    b: B,
    r: RaceStep<A, B, R>,
) -> bool {
    &&& r is First ==> drive_a.ensures((a,), Step::<A, R>::Done(r->First_0))
    &&& r is Second ==> {
        &&& exists|a2: A| drive_a.ensures((a,), Step::<A, R>::Pending(a2))
        &&& drive_b.ensures((b,), Step::<B, R>::Done(r->Second_0))
    }
    &&& r is Neither ==> {
        &&& drive_a.ensures((a,), Step::<A, R>::Pending(r->Neither_0))
        &&& drive_b.ensures((b,), Step::<B, R>::Pending(r->Neither_1))
    }
}

/// In a race of two countdowns, each turn takes one off both: the one that
/// needs fewer turns wins once it has had them, the first on a tie, and the
/// other is never waited for.
pub proof fn lemma_race_fastest_wins<A, B, R, FA: Fn(A) -> Step<A, R>, FB: Fn(B) -> Step<B, R>>(
    drive_a: FA,
    drive_b: FB,
    need_a: spec_fn(A) -> nat,
    need_b: spec_fn(B) -> nat,
    a: A,
    b: B,
    r: RaceStep<A, B, R>,
)
    requires
        raced(drive_a, drive_b, a, b, r),
        counts_down(drive_a, need_a),
        counts_down(drive_b, need_b),
    ensures
        (r is First) == (need_a(a) == 0),
        (r is Second) == (need_a(a) > 0 && need_b(b) == 0),
        r is Neither ==> {
            &&& need_a(r->Neither_0) == need_a(a) - 1
            &&& need_b(r->Neither_1) == need_b(b) - 1
        },
{
    match r {
        RaceStep::First(v) => {
            assert(drive_a.ensures((a,), Step::<A, R>::Done(v)));
        },
        RaceStep::Second(v) => {
            let a2 = choose|a2: A| drive_a.ensures((a,), Step::<A, R>::Pending(a2));
            assert(drive_a.ensures((a,), Step::<A, R>::Pending(a2)));
            assert(drive_b.ensures((b,), Step::<B, R>::Done(v)));
        },
        RaceStep::Neither(a2, b2) => {
            assert(drive_a.ensures((a,), Step::<A, R>::Pending(a2)));
            assert(drive_b.ensures((b,), Step::<B, R>::Pending(b2)));
        },
    }
}

/// One turn of a race: drives `a`, and if it has not finished, drives `b`.
/// The first to finish wins, and the other is dropped without being driven
/// further. The first computation has priority when both could finish.
pub fn race_turn<A, B, R, FA: Fn(A) -> Step<A, R>, FB: Fn(B) -> Step<B, R>>(
    a: A,
    b: B,
    drive_a: &FA,
    drive_b: &FB,
) -> (r: RaceStep<A, B, R>)
    requires
        drive_a.requires((a,)),
        drive_b.requires((b,)),
    ensures
        raced(*drive_a, *drive_b, a, b, r),
{
    match drive_a(a) {
        Step::Done(v) => RaceStep::First(v),
        Step::Pending(a2) => match drive_b(b) {
            Step::Done(v) => RaceStep::Second(v),
            Step::Pending(b2) => RaceStep::Neither(a2, b2),
        },
    }
}

/// One entry of a join: still running, or finished with its result.
pub enum Slot<T, R> {
    Running(T),
    Done(R),
}

/// What a drive reported, as read back from the slot it left behind.
pub open spec fn step_of<T, R>(s: Slot<T, R>) -> Step<T, R> {
    match s {
        Slot::Running(t) => Step::Pending(t),
        Slot::Done(r) => Step::Done(r),
    }
}

/// `after` is what one turn of a join makes of `before` under `drive`: every
/// running entry was driven once and now holds what it reported, and every
/// finished entry is unchanged.
pub open spec fn turned<T, R, F: Fn(T) -> Step<T, R>>(
    drive: F,
    before: Seq<Slot<T, R>>,
    after: Seq<Slot<T, R>>,
) -> bool {
    &&& after.len() == before.len()
    &&& forall|i: int|
        #![trigger after[i]]
        0 <= i < before.len() ==> match before[i] {
            Slot::Done(_) => after[i] == before[i],
            Slot::Running(t) => drive.ensures((t,), step_of(after[i])),
        }
}

/// `drive` behaves like a countdown measured by `need`: a computation with
/// `need` zero finishes when driven, and any other reports itself pending
/// with `need` one lower.
pub open spec fn counts_down<T, R, F: Fn(T) -> Step<T, R>>(
    drive: F,
    need: spec_fn(T) -> nat,
) -> bool {
    forall|t: T, s: Step<T, R>|
        #[trigger] drive.ensures((t,), s) ==> match s {
            Step::Done(_) => need(t) == 0,
            Step::Pending(t2) => need(t) > 0 && need(t2) == need(t) - 1,
        }
}

/// How many more turns an entry takes to finish.
pub open spec fn slot_turns<T, R>(s: Slot<T, R>, need: spec_fn(T) -> nat) -> nat {
    match s {
        Slot::Running(t) => need(t) + 1,
        Slot::Done(_) => 0,
    }
}

/// How many more turns a join takes to finish: the most that any one of its
/// entries takes.
pub open spec fn turns_left<T, R>(slots: Seq<Slot<T, R>>, need: spec_fn(T) -> nat) -> nat
    decreases slots.len(),
{
    if slots.len() == 0 {
        0
    } else {
        let rest = turns_left(slots.drop_last(), need);
        let last = slot_turns(slots.last(), need);
        if last > rest {
            last
        } else {
            rest
        }
    }
}

/// A join has no turns left exactly when every entry has finished.
pub proof fn lemma_no_turns_left_iff_done<T, R>(slots: Seq<Slot<T, R>>, need: spec_fn(T) -> nat)
    ensures
        (turns_left(slots, need) == 0) == (forall|i: int|
            0 <= i < slots.len() ==> #[trigger] slots[i] is Done),
    decreases slots.len(),
{
    if slots.len() > 0 {
        lemma_no_turns_left_iff_done(slots.drop_last(), need);
        if turns_left(slots, need) == 0 {
            assert forall|i: int| 0 <= i < slots.len() implies #[trigger] slots[i] is Done by {
                if i < slots.len() - 1 {
                    assert(slots.drop_last()[i] == slots[i]);
                }
            }
        } else {
            if turns_left(slots.drop_last(), need) != 0 {
                let i = choose|i: int|
                    0 <= i < slots.drop_last().len() && !(#[trigger] slots.drop_last()[i] is Done);
                assert(slots[i] == slots.drop_last()[i]);
            }
        }
    }
}

/// One turn of a join whose entries count down takes exactly one turn off
/// what is left: all entries progress together, so a join of entries that
/// need `d1, ..., dn` turns finishes after the largest `di` of them, not
/// after their sum.
pub proof fn lemma_join_turn_takes_one_off<T, R, F: Fn(T) -> Step<T, R>>(
    drive: F,
    need: spec_fn(T) -> nat,
    before: Seq<Slot<T, R>>,
    after: Seq<Slot<T, R>>,
)
    requires
        turned(drive, before, after),
        counts_down(drive, need),
    ensures
        turns_left(after, need) == if turns_left(before, need) == 0 {
            0
        } else {
            (turns_left(before, need) - 1) as nat
        },
    decreases before.len(),
{
    if before.len() > 0 {
        let n = before.len() - 1;
        assert(turned(drive, before.drop_last(), after.drop_last())) by {
            assert forall|i: int|
                #![trigger after.drop_last()[i]]
                0 <= i < before.drop_last().len() implies match before.drop_last()[i] {
                Slot::Done(_) => after.drop_last()[i] == before.drop_last()[i],
                Slot::Running(t) => drive.ensures((t,), step_of(after.drop_last()[i])),
            } by {
                assert(after[i] == after.drop_last()[i]);
            }
        }
        lemma_join_turn_takes_one_off(drive, need, before.drop_last(), after.drop_last());
        let a = after[n];
        assert(a == after.last());
        match before.last() {
            Slot::Done(_) => {},
            Slot::Running(t) => {
                assert(drive.ensures((t,), step_of(a)));
            },
        }
    }
}

/// Runs a list of computations side by side until all have finished.
///
/// Each turn drives every computation that has not yet finished, once and in
/// list order, so they all make progress together and the whole takes as
/// many turns as the slowest one, not the sum of all.
pub struct JoinAll<T, R> {
    slots: Vec<Slot<T, R>>,
}

impl<T, R> View for JoinAll<T, R> {
    type V = Seq<Slot<T, R>>;

    closed spec fn view(&self) -> Seq<Slot<T, R>> {
        self.slots@
    }
}

impl<T, R> JoinAll<T, R> {
    /// Whether every entry has finished.
    pub open spec fn done(&self) -> bool {
        forall|i: int| 0 <= i < self@.len() ==> self@[i] is Done
    }

    /// A join of `tasks`, none of them driven yet.
    pub fn new(tasks: Vec<T>) -> (r: Self)
        ensures
            r@.len() == tasks@.len(),
            forall|i: int| 0 <= i < tasks@.len() ==> r@[i] == Slot::<T, R>::Running(tasks@[i]),
    {
        let mut tasks = tasks;
        let ghost orig = tasks@;
        let mut slots: Vec<Slot<T, R>> = Vec::new();
        while tasks.len() > 0
            invariant
                orig == slots@.map_values(|s: Slot<T, R>| s->Running_0) + tasks@,
                forall|i: int| 0 <= i < slots@.len() ==> slots@[i] is Running,
            decreases tasks@.len(),
        {
            let t = tasks.remove(0);
            slots.push(Slot::Running(t));
            assert(orig =~= slots@.map_values(|s: Slot<T, R>| s->Running_0) + tasks@);
        }
        assert forall|i: int| 0 <= i < orig.len() implies slots@[i] == Slot::<T, R>::Running(
            orig[i],
        ) by {
            assert(slots@.map_values(|s: Slot<T, R>| s->Running_0)[i] == orig[i]);
        }
        JoinAll { slots }
    }

    /// The number of entries.
    pub fn len(&self) -> (r: usize)
        ensures
            r == self@.len(),
    {
        self.slots.len()
    }

    /// Whether every entry has finished.
    pub fn is_done(&self) -> (r: bool)
        ensures
            r == self.done(),
    {
        let mut i: usize = 0;
        while i < self.slots.len()
            invariant
                i <= self@.len(),
                forall|j: int| 0 <= j < i ==> self@[j] is Done,
            decreases self@.len() - i,
        {
            match &self.slots[i] {
                Slot::Running(_) => {
                    return false;
                },
                Slot::Done(_) => {},
            }
            i = i + 1;
        }
        true
    }

    /// One turn: drives each entry that is still running, once, in order,
    /// and records what it reported. Finished entries are left as they are.
    pub fn turn<F: Fn(T) -> Step<T, R>>(&mut self, drive: &F)
        requires
            forall|t: T| drive.requires((t,)),
        ensures
            turned(*drive, old(self)@, final(self)@),
    {
        let mut rest: Vec<Slot<T, R>> = Vec::new();
        std::mem::swap(&mut rest, &mut self.slots);
        let ghost before = rest@;
        let mut next: Vec<Slot<T, R>> = Vec::new();
        while rest.len() > 0
            invariant
                next@.len() + rest@.len() == before.len(),
                rest@ == before.skip(next@.len() as int),
                forall|i: int|
                    #![trigger next@[i]]
                    0 <= i < next@.len() ==> match before[i] {
                        Slot::Done(_) => next@[i] == before[i],
                        Slot::Running(t) => drive.ensures((t,), step_of(next@[i])),
                    },
                forall|t: T| drive.requires((t,)),
            decreases rest@.len(),
        {
            let slot = rest.remove(0);
            let ghost k = next@.len() as int;
            assert(slot == before[k]);
            match slot {
                Slot::Done(v) => {
                    next.push(Slot::Done(v));
                },
                Slot::Running(t) => match drive(t) {
                    Step::Done(v) => {
                        next.push(Slot::Done(v));
                    },
                    Step::Pending(t2) => {
                        next.push(Slot::Running(t2));
                    },
                },
            }
            assert(rest@ =~= before.skip(next@.len() as int));
        }
        self.slots = next;
        assert(turned(*drive, before, next@));
    }

    /// The results, in list order, once every entry has finished.
    pub fn into_results(self) -> (r: Vec<R>)
        requires
            self.done(),
        ensures
            r@.len() == self@.len(),
            forall|i: int| 0 <= i < r@.len() ==> self@[i] == Slot::<T, R>::Done(r@[i]),
    {
        let ghost orig = self@;
        let mut slots = self.slots;
        let mut out: Vec<R> = Vec::new();
        while slots.len() > 0
            invariant
                out@.len() + slots@.len() == orig.len(),
                slots@ == orig.skip(out@.len() as int),
                forall|i: int| 0 <= i < orig.len() ==> orig[i] is Done,
                forall|i: int| 0 <= i < out@.len() ==> orig[i] == Slot::<T, R>::Done(out@[i]),
            decreases slots@.len(),
        {
            let slot = slots.remove(0);
            let ghost k = out@.len() as int;
            assert(slot == orig[k]);
            match slot {
                Slot::Done(v) => {
                    out.push(v);
                },
                Slot::Running(_) => {
                    assert(false);
                },
            }
            assert(slots@ =~= orig.skip(out@.len() as int));
        }
        out
    }
}

} // verus!

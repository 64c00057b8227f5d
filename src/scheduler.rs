//! The due-time queue and the decisions of the run loop.

use vstd::prelude::*;

use crate::task::{ScheduledTask, Task};
use crate::time::{Clock, Span, Stbi};

verus! {

/// What the run loop does next.
pub enum Step<F> {
    /// Nothing is left: the loop ends.
    Done,
    /// The earliest task is due this long from now: sleep, then ask again.
    Wait(Span),
    /// The task is due: its action runs now, after which the task returns
    /// through `Scheduler::complete`.
    Fire(ScheduledTask<F>),
}

/// Pending tasks ordered by due time, with the clock their due times are read
/// on.
pub struct Scheduler<F> {
    clock: Clock,
    queue: Vec<ScheduledTask<F>>,
}

/// Whether `q` runs from the latest due time down to the earliest.
pub open spec fn latest_first<F>(q: Seq<ScheduledTask<F>>) -> bool {
    forall|i: int, j: int| 0 <= i < j < q.len() ==> q[i].at.nanos >= q[j].at.nanos
}

/// Whether `r` is `q` with `e` placed after every entry due strictly later and
/// before every entry due at the same time or earlier, so that of the entries
/// due at the same time the one placed first comes out first.
pub open spec fn placed<F>(q: Seq<ScheduledTask<F>>, e: ScheduledTask<F>, r: Seq<ScheduledTask<F>>) -> bool {
    exists|p: int|
        0 <= p <= q.len() && r == q.insert(p, e) && (forall|i: int|
            0 <= i < p ==> q[i].at.nanos > e.at.nanos) && (forall|i: int|
            p <= i < q.len() ==> q[i].at.nanos <= e.at.nanos)
}

/// The entry that a task gets when it is first scheduled from `base`.
pub open spec fn first_entry<F>(base: Stbi, t: Task<F>) -> ScheduledTask<F> {
    ScheduledTask { at: base.plus_spec(t.schedule.wait()), task: t }
}

/// The entries that a batch of tasks gets when it is scheduled from `base`.
pub open spec fn first_entries<F>(base: Stbi, tasks: Seq<Task<F>>) -> Seq<ScheduledTask<F>> {
    tasks.map_values(|t: Task<F>| first_entry(base, t))
}

/// Placing an entry adds exactly that entry to what is pending.
pub proof fn lemma_placed_adds<F>(q: Seq<ScheduledTask<F>>, e: ScheduledTask<F>, r: Seq<ScheduledTask<F>>)
    requires
        placed(q, e, r),
    ensures
        r.to_multiset() == q.to_multiset().insert(e),
{
    broadcast use vstd::seq_lib::group_to_multiset_ensures;

    let p = choose|p: int|
        0 <= p <= q.len() && r == q.insert(p, e) && (forall|i: int|
            0 <= i < p ==> q[i].at.nanos > e.at.nanos) && (forall|i: int|
            p <= i < q.len() ==> q[i].at.nanos <= e.at.nanos);
    assert(r.remove(p) =~= q);
    assert(r[p] == e);
    assert(r.to_multiset() =~= q.to_multiset().insert(e));
}

impl<F> View for Scheduler<F> {
    type V = Seq<ScheduledTask<F>>;

    /// The pending entries from the latest due time to the earliest: the last
    /// one comes out first.
    closed spec fn view(&self) -> Seq<ScheduledTask<F>> {
        self.queue@
    }
}

impl<F> Scheduler<F> {
    #[verifier::type_invariant]
    spec fn ordered(self) -> bool {
        latest_first(self.queue@)
    }

    /// Schedules each task from one baseline, the point where a newly started
    /// clock stands: each is first due its schedule's wait after it.
    pub fn with_tasks(tasks: Vec<Task<F>>) -> (r: Scheduler<F>)
        ensures
            r@.to_multiset() == first_entries(Stbi { nanos: 0 }, tasks@).to_multiset(),
    {
        broadcast use vstd::seq_lib::group_to_multiset_ensures;

        let ghost all = tasks@;
        let mut tasks = tasks;
        let base = Stbi::origin();
        let mut scheduler = Scheduler { clock: Clock::start(), queue: Vec::new() };
        proof {
            assert(first_entries(base, all.subrange(0, 0)) =~= Seq::empty());
            assert(scheduler@ =~= Seq::empty());
        }
        while tasks.len() > 0
            invariant
                tasks@.len() <= all.len(),
                tasks@ == all.subrange(all.len() - tasks@.len(), all.len() as int),
                base.nanos == 0,
                scheduler@.to_multiset() == first_entries(base, all.subrange(0, all.len() - tasks@.len())).to_multiset(),
            decreases tasks@.len(),
        {
            let ghost done = all.len() - tasks@.len();
            let task = tasks.remove(0);
            let at = base.plus(task.schedule.as_duration());
            let ghost old_q = scheduler@;
            let entry = ScheduledTask { at, task };
            let ghost e = entry;
            scheduler.push(entry);
            proof {
                assert(e == first_entry(base, all[done]));
                lemma_placed_adds(old_q, e, scheduler@);
                assert(all.subrange(0, done + 1) =~= all.subrange(0, done).push(all[done]));
                assert(first_entries(base, all.subrange(0, done + 1)) =~= first_entries(base, all.subrange(0, done)).push(first_entry(base, all[done])));
                assert(tasks@ =~= all.subrange(done + 1, all.len() as int));
                let prev = first_entries(base, all.subrange(0, done));
                vstd::seq_lib::to_multiset_build(prev, e);
            }
        }
        proof {
            assert(all.subrange(0, all.len() as int) =~= all);
        }
        scheduler
    }

    /// A reading of the clock that the due times are on.
    pub fn now(&self) -> (r: Stbi) {
        Stbi::now(&self.clock)
    }

    /// The due time of the entry that comes out next, which is the earliest
    /// of all pending due times; `None` when nothing is pending.
    pub fn next_due(&self) -> (r: Option<Stbi>)
        ensures
            (r is None) <==> self@.len() == 0,
            (r is Some) ==> r.unwrap() == self@.last().at,
            forall|i: int|
                0 <= i < self@.len() ==> (#[trigger] self@[i]).at.nanos >= self@.last().at.nanos,
    {
        proof {
            use_type_invariant(self);
        }
        let n = self.queue.len();
        if n == 0 {
            None
        } else {
            Some(self.queue[n - 1].at)
        }
    }

    /// The next move of the run loop at time `now`. With nothing pending the
    /// loop is done. Otherwise, when the earliest entry is due at or before
    /// `now`, it leaves the queue and is handed out to be fired; else the
    /// answer is the wait until it is due, and nothing changes.
    pub fn step(&mut self, now: Stbi) -> (r: Step<F>)
        ensures
            old(self)@.len() == 0 ==> (r is Done),
            old(self)@.len() == 0 ==> final(self)@ == old(self)@,
            old(self)@.len() > 0 && old(self)@.last().at.nanos <= now.nanos ==> r == Step::Fire(
                old(self)@.last(),
            ),
            old(self)@.len() > 0 && old(self)@.last().at.nanos <= now.nanos ==> final(self)@
                == old(self)@.drop_last(),
            old(self)@.len() > 0 && old(self)@.last().at.nanos > now.nanos ==> r == Step::<F>::Wait(
                (Span { nanos: (old(self)@.last().at.nanos - now.nanos) as u128 }),
            ),
            old(self)@.len() > 0 && old(self)@.last().at.nanos > now.nanos ==> final(self)@
                == old(self)@,
            forall|i: int|
                0 <= i < old(self)@.len() ==> (#[trigger] old(self)@[i]).at.nanos >= old(
                    self,
                )@.last().at.nanos,
    {
        proof {
            use_type_invariant(&*self);
        }
        let n = self.queue.len();
        if n == 0 {
            return Step::Done;
        }
        if self.queue[n - 1].at.nanos <= now.nanos {
            let mut queue = Vec::new();
            std::mem::swap(&mut queue, &mut self.queue);
            let e = queue.pop().unwrap();
            self.queue = queue;
            Step::Fire(e)
        } else {
            Step::Wait(self.queue[n - 1].at.since(now))
        }
    }

    /// Takes back a task that has fired. It comes back in its next state, due
    /// that state's wait after the due time it just fired at, so that repeated
    /// firings never drift; a task whose schedule is done is dropped.
    pub fn complete(&mut self, task: ScheduledTask<F>)
        ensures
            (task.next_from(task.at) is None) ==> final(self)@ == old(self)@,
            (task.next_from(task.at) is Some) ==> placed(
                old(self)@,
                task.next_from(task.at).unwrap(),
                final(self)@,
            ),
    {
        let at = task.at;
        match task.reschedule(at) {
            Some(next) => self.push(next),
            None => {},
        }
    }

    /// Puts `e` in its place among the pending entries.
    fn push(&mut self, e: ScheduledTask<F>)
        ensures
            placed(old(self)@, e, final(self)@),
    {
        proof {
            use_type_invariant(&*self);
        }
        let ghost q = self.queue@;
        let mut i: usize = 0;
        while i < self.queue.len() && self.queue[i].at.nanos > e.at.nanos
            invariant
                self.queue@ == q,
                latest_first(q),
                0 <= i <= q.len(),
                forall|k: int| 0 <= k < i ==> q[k].at.nanos > e.at.nanos,
            decreases q.len() - i,
        {
            i = i + 1;
        }
        let mut queue = Vec::new();
        std::mem::swap(&mut queue, &mut self.queue);
        queue.insert(i, e);
        assert(placed(q, e, queue@));
        self.queue = queue;
    }
}

} // verus!

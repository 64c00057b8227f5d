//! Tasks: a schedule bound to an action, and the same with its due time.

use vstd::prelude::*;

use crate::schedule::Schedule;
use crate::time::Stbi;

verus! {

/// A schedule paired with the action it fires. A task does not know when it
/// is due.
pub struct Task<F> {
    pub schedule: Schedule,
    pub action: F,
}

/// A task together with the point at which it is due.
pub struct ScheduledTask<F> {
    pub at: Stbi,
    pub task: Task<F>,
}

impl<F> ScheduledTask<F> {
    /// What `reschedule` from `reference` gives: the task in its next state,
    /// due that state's wait after `reference`, or `None` when it is done.
    pub open spec fn next_from(self, reference: Stbi) -> Option<ScheduledTask<F>> {
        match self.task.schedule.next() {
            Some(s) => Some(
                ScheduledTask {
                    at: reference.plus_spec(s.wait()),
                    task: Task { schedule: s, action: self.task.action },
                },
            ),
            None => None,
        }
    }

    /// The entry after `n` firings, each rescheduled from the due time it
    /// fired at; `None` once the task is done.
    pub open spec fn fired(self, n: nat) -> Option<ScheduledTask<F>>
        decreases n,
    {
        if n == 0 {
            Some(self)
        } else {
            match self.fired((n - 1) as nat) {
                Some(e) => e.next_from(e.at),
                None => None,
            }
        }
    }

    /// The task after a firing, due its next wait after `stbi`; `None`
    /// (releasing the action) when its schedule is done.
    pub fn reschedule(self, stbi: Stbi) -> (r: Option<Self>)
        ensures
            r == self.next_from(stbi),
    {
        let ScheduledTask { at: _, task: Task { schedule, action } } = self;
        match schedule.reschedule() {
            Some(s) => {
                let at = stbi.plus(s.as_duration());
                Some(ScheduledTask { at, task: Task { schedule: s, action } })
            },
            None => None,
        }
    }
}

/// Due times never go back as a schedule fires.
pub proof fn lemma_due_grows(s: Schedule, base: int, k: nat, n: nat)
    requires
        k <= n,
    ensures
        s.due(base, k) <= s.due(base, n),
    decreases n,
{
    if k < n {
        lemma_due_grows(s, base, k, (n - 1) as nat);
    }
}

/// A task scheduled from `base` and rescheduled each time from the due time it
/// fired at goes through exactly the states of its schedule, and each firing
/// is due exactly when the schedule says, as long as that time is on the
/// clock.
pub proof fn lemma_fired_follows_schedule<F>(t: Task<F>, base: Stbi, n: nat)
    requires
        t.schedule.due(base.nanos as int, n) <= u128::MAX,
    ensures
        (ScheduledTask { at: base.plus_spec(t.schedule.wait()), task: t }).fired(n) is Some
            <==> t.schedule.after(n) is Some,
        t.schedule.after(n) is Some ==> (ScheduledTask { at: base.plus_spec(t.schedule.wait()), task: t }).fired(n).unwrap()
            == (ScheduledTask {
            at: Stbi { nanos: t.schedule.due(base.nanos as int, n) as u128 },
            task: Task { schedule: t.schedule.after(n).unwrap(), action: t.action },
        }),
    decreases n,
{
    let first = ScheduledTask { at: base.plus_spec(t.schedule.wait()), task: t };
    lemma_due_grows(t.schedule, base.nanos as int, 0, n);
    if n > 0 {
        let m = (n - 1) as nat;
        lemma_due_grows(t.schedule, base.nanos as int, m, n);
        lemma_due_grows(t.schedule, base.nanos as int, 0, m);
        lemma_fired_follows_schedule(t, base, m);
        if t.schedule.after(n) is Some {
            let e = first.fired(m).unwrap();
            assert(t.schedule.after(m) is Some);
            assert(e.task.schedule.next() == t.schedule.after(n));
            assert(t.schedule.due(base.nanos as int, n) == t.schedule.due(base.nanos as int, m)
                + t.schedule.after(n).unwrap().wait());
        }
    }
}

} // verus!

//! Firing policies and the transition that decides, after each firing,
//! whether and how a task comes back.

use vstd::prelude::*;

use crate::task::Task;
use crate::time::Span;

verus! {

/// When a task fires.
#[derive(Clone, Copy, Debug, PartialEq, Eq, Structural)]
pub enum Schedule {
    /// Once: right away when the delay is absent, else after the delay.
    Once(Option<Span>),
    /// Again and again, waiting the interval before every firing.
    Every(Span),
    /// `count` times in all, waiting `interval` before every firing.
    Counted { count: usize, interval: Span },
}

impl Schedule {
    /// The wait, in nanoseconds, before the first firing and before each
    /// firing that follows a reschedule.
    pub open spec fn wait(self) -> nat {
        match self {
            Schedule::Once(None) => 0,
            Schedule::Once(Some(d)) => d.nanos as nat,
            Schedule::Every(d) => d.nanos as nat,
            Schedule::Counted { interval, .. } => interval.nanos as nat,
        }
    }

    /// The state after a firing; `None` when the task is done.
    pub open spec fn next(self) -> Option<Schedule> {
        match self {
            Schedule::Once(_) => None,
            Schedule::Every(d) => Some(Schedule::Every(d)),
            Schedule::Counted { count, interval } => if count > 1 {
                Some(Schedule::Counted { count: (count - 1) as usize, interval })
            } else {
                None
            },
        }
    }

    /// The state after `n` firings, `None` once the task is done.
    pub open spec fn after(self, n: nat) -> Option<Schedule>
        decreases n,
    {
        if n == 0 {
            Some(self)
        } else {
            match self.after((n - 1) as nat) {
                Some(s) => s.next(),
                None => None,
            }
        }
    }

    /// The due time of the firing that follows `n` earlier ones, for a task
    /// first scheduled from `base` and rescheduled each time from the due time
    /// of the firing before.
    pub open spec fn due(self, base: int, n: nat) -> int
        decreases n,
    {
        if n == 0 {
            base + self.wait()
        } else {
            match self.after(n) {
                Some(s) => self.due(base, (n - 1) as nat) + s.wait(),
                None => self.due(base, (n - 1) as nat),
            }
        }
    }

    /// The state after one firing.
    pub fn reschedule(self) -> (r: Option<Schedule>)
        ensures
            r == self.next(),
    {
        match self {
            Schedule::Every(d) => Some(Schedule::Every(d)),
            Schedule::Counted { count, interval } => {
                if count > 1 {
                    Some(Schedule::Counted { count: count - 1, interval })
                } else {
                    None
                }
            },
            Schedule::Once(_) => None,
        }
    }

    /// The wait before the first firing and before each firing that follows
    /// a reschedule: zero only for an immediate `Once`.
    pub fn as_duration(&self) -> (r: Span)
        ensures
            r.nanos == self.wait(),
    {
        match self {
            Schedule::Once(Some(d)) => *d,
            Schedule::Once(None) => Span::zero(),
            Schedule::Every(d) => *d,
            Schedule::Counted { interval, .. } => *interval,
        }
    }

    /// Binds this schedule to an action.
    pub fn with<F: FnMut()>(self, f: F) -> (r: Task<F>)
        ensures
            r.schedule == self,
            r.action == f,
    {
        Task { schedule: self, action: f }
    }

    /// Binds this schedule to an action that is already boxed.
    pub fn with_boxed<F: ?Sized>(self, f: Box<F>) -> (r: Task<Box<F>>)
        ensures
            r.schedule == self,
            r.action == f,
    {
        Task { schedule: self, action: f }
    }
}

/// An immediate `Once` waits nothing before it fires: its due time is the
/// baseline it was scheduled from.
pub proof fn lemma_immediate_fires_at_baseline(base: int)
    ensures
        Schedule::Once(None).wait() == 0,
        Schedule::Once(None).due(base, 0) == base,
{
}

/// A `Once` fires exactly once: its only due time is the baseline plus its
/// delay, and after that firing it never comes back.
pub proof fn lemma_once_fires_once(delay: Option<Span>, base: int, n: nat)
    requires
        n >= 1,
    ensures
        Schedule::Once(delay).after(0) == Some(Schedule::Once(delay)),
        Schedule::Once(delay).due(base, 0) == base + (match delay {
            Some(d) => d.nanos as int,
            None => 0,
        }),
        (Schedule::Once(delay).after(n) is None),
    decreases n,
{
    if n > 1 {
        lemma_once_fires_once(delay, base, (n - 1) as nat);
    }
}

/// An `Every(d)` never ends, and the firing that follows `n` earlier ones is
/// due exactly `(n + 1) * d` after the baseline, whatever happened between.
pub proof fn lemma_every_drift_free(d: Span, base: int, n: nat)
    ensures
        Schedule::Every(d).after(n) == Some(Schedule::Every(d)),
        Schedule::Every(d).due(base, n) == base + (n + 1) * d.nanos,
    decreases n,
{
    if n > 0 {
        let m = (n - 1) as nat;
        lemma_every_drift_free(d, base, m);
        assert(Schedule::Every(d).due(base, n) == Schedule::Every(d).due(base, m) + d.nanos);
        assert(base + (m + 1) * d.nanos + d.nanos == base + (n + 1) * d.nanos) by (nonlinear_arith)
            requires
                m + 1 == n,
        ;
    } else {
        assert((n + 1) * d.nanos == d.nanos) by (nonlinear_arith)
            requires
                n == 0,
        ;
    }
}

/// A `Counted` with count `c` fires exactly `c` times, `interval` apart, the
/// first `interval` after the baseline; then it never comes back.
pub proof fn lemma_counted_fires_count(c: usize, interval: Span, base: int, n: nat)
    requires
        c >= 1,
    ensures
        n < c ==> (Schedule::Counted { count: c, interval }).after(n) == Some(
            (Schedule::Counted { count: (c - n) as usize, interval }),
        ),
        n < c ==> (Schedule::Counted { count: c, interval }).due(base, n) == base + (n + 1)
            * interval.nanos,
        n >= c ==> ((Schedule::Counted { count: c, interval }).after(n) is None),
    decreases n,
{
    let s = Schedule::Counted { count: c, interval };
    if n == 0 {
        assert((n + 1) * interval.nanos == interval.nanos) by (nonlinear_arith)
            requires
                n == 0,
        ;
    } else {
        let m = (n - 1) as nat;
        lemma_counted_fires_count(c, interval, base, m);
        if n < c {
            assert(s.due(base, n) == s.due(base, m) + interval.nanos);
            assert(base + (m + 1) * interval.nanos + interval.nanos == base + (n + 1)
                * interval.nanos) by (nonlinear_arith)
                requires
                    m + 1 == n,
            ;
        }
    }
}

/// A task comes to an end if and only if its schedule is not `Every`.
pub proof fn lemma_ends_iff_not_every(s: Schedule)
    ensures
        (exists|n: nat| (#[trigger] s.after(n) is None)) <==> !(s is Every),
{
    match s {
        Schedule::Every(d) => {
            assert forall|n: nat| !(#[trigger] s.after(n) is None) by {
                lemma_every_drift_free(d, 0, n);
            }
        },
        Schedule::Once(delay) => {
            lemma_once_fires_once(delay, 0, 1);
            assert(s.after(1) is None);
        },
        Schedule::Counted { count, interval } => {
            if count == 0 {
                assert(s.after(1) is None);
            } else {
                lemma_counted_fires_count(count, interval, 0, count as nat);
                assert(s.after(count as nat) is None);
            }
        },
    }
}

} // verus!

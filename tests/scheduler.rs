use std::cell::RefCell;
use std::rc::Rc;

use stbi_scheduler::{Schedule, ScheduledTask, Scheduler, Span, Stbi, Step, Task};

type Action = Box<dyn FnMut()>;

fn recorder(log: &Rc<RefCell<Vec<&'static str>>>, name: &'static str) -> Action {
    let log = Rc::clone(log);
    Box::new(move || log.borrow_mut().push(name))
}

fn counter(count: &Rc<RefCell<u32>>) -> Action {
    let count = Rc::clone(count);
    Box::new(move || *count.borrow_mut() += 1)
}

fn at(nanos: u128) -> Stbi {
    Stbi { nanos }
}

/// Drives the scheduler on simulated time from zero, firing every task due no
/// later than `until`; returns the due times of the firings, in order.
fn drive(scheduler: &mut Scheduler<Action>, until: u128) -> Vec<u128> {
    let mut now = at(0);
    let mut fired = Vec::new();
    loop {
        match scheduler.step(now) {
            Step::Done => return fired,
            Step::Wait(span) => {
                if now.nanos + span.nanos > until {
                    return fired;
                }
                now = now.plus(span);
            }
            Step::Fire(mut task) => {
                fired.push(task.at.nanos);
                (task.task.action)();
                scheduler.complete(task);
            }
        }
    }
}

const MS: u128 = 1_000_000;

#[test]
fn simple_schedule() {
    let log = Rc::new(RefCell::new(Vec::new()));
    let tasks = vec![
        Schedule::Once(Some(Span::from_secs(5))).with(recorder(&log, "Delayed hello world")),
        Schedule::Once(None).with(recorder(&log, "Instant hello world")),
        Schedule::Every(Span::from_millis(125)).with(recorder(&log, "I am annoying")),
        Schedule::Every(Span::from_millis(125)).with(recorder(&log, "I am annoying too")),
        Schedule::Every(Span::from_millis(61)).with(recorder(&log, "I am annoying thrice")),
        Schedule::Counted { count: 10, interval: Span::from_millis(13) }
            .with(recorder(&log, "I will only be annoying 10 times")),
    ];
    let mut scheduler = Scheduler::with_tasks(tasks);
    drive(&mut scheduler, 6_000 * MS);
    let log = log.borrow();
    let count = |name: &str| log.iter().filter(|n| **n == name).count();
    assert_eq!(log[0], "Instant hello world");
    assert_eq!(count("Instant hello world"), 1);
    assert_eq!(count("Delayed hello world"), 1);
    assert_eq!(count("I will only be annoying 10 times"), 10);
    assert_eq!(count("I am annoying"), 48);
    assert_eq!(count("I am annoying too"), 48);
    assert_eq!(count("I am annoying thrice"), 98);
    assert!(scheduler.next_due().is_some());
}

#[test]
fn immediate_task_fires_at_baseline() {
    let log = Rc::new(RefCell::new(Vec::new()));
    let mut scheduler = Scheduler::with_tasks(vec![Schedule::Once(None).with(recorder(&log, "now"))]);
    assert_eq!(scheduler.next_due(), Some(at(0)));
    match scheduler.step(at(0)) {
        Step::Fire(mut task) => {
            assert_eq!(task.at, at(0));
            (task.task.action)();
            scheduler.complete(task);
        }
        _ => panic!("the immediate task was not fired at the baseline"),
    }
    assert!(matches!(scheduler.step(at(0)), Step::Done));
    assert_eq!(*log.borrow(), vec!["now"]);
}

#[test]
fn immediate_fires_before_delayed() {
    let log = Rc::new(RefCell::new(Vec::new()));
    let mut scheduler = Scheduler::with_tasks(vec![
        Schedule::Once(Some(Span::from_secs(5))).with(recorder(&log, "delayed")),
        Schedule::Once(None).with(recorder(&log, "immediate")),
    ]);
    let fired = drive(&mut scheduler, u128::MAX);
    assert_eq!(*log.borrow(), vec!["immediate", "delayed"]);
    assert_eq!(fired, vec![0, 5_000 * MS]);
    assert!(scheduler.next_due().is_none());
}

#[test]
fn step_waits_for_earliest() {
    let log = Rc::new(RefCell::new(Vec::new()));
    let mut scheduler = Scheduler::with_tasks(vec![
        Schedule::Once(Some(Span::from_secs(5))).with(recorder(&log, "delayed")),
        Schedule::Once(Some(Span::from_millis(20))).with(recorder(&log, "soon")),
    ]);
    match scheduler.step(at(5 * MS)) {
        Step::Wait(span) => assert_eq!(span, Span::from_millis(15)),
        _ => panic!("expected a wait"),
    }
    assert_eq!(scheduler.next_due(), Some(at(20 * MS)));
    assert!(log.borrow().is_empty());
}

#[test]
fn every_tasks_fire_at_their_rates() {
    let slow_a = Rc::new(RefCell::new(0));
    let slow_b = Rc::new(RefCell::new(0));
    let fast = Rc::new(RefCell::new(0));
    let mut scheduler = Scheduler::with_tasks(vec![
        Schedule::Every(Span::from_millis(125)).with(counter(&slow_a)),
        Schedule::Every(Span::from_millis(125)).with(counter(&slow_b)),
        Schedule::Every(Span::from_millis(61)).with(counter(&fast)),
    ]);
    drive(&mut scheduler, 1_000 * MS);
    assert_eq!(*fast.borrow(), 16);
    assert_eq!(*slow_a.borrow(), 8);
    assert_eq!(*slow_b.borrow(), 8);
    assert!(scheduler.next_due().is_some());
}

#[test]
fn counted_task_stops_after_count() {
    let counted = Rc::new(RefCell::new(0));
    let every = Rc::new(RefCell::new(0));
    let mut scheduler = Scheduler::with_tasks(vec![
        Schedule::Counted { count: 10, interval: Span::from_millis(13) }.with(counter(&counted)),
        Schedule::Every(Span::from_millis(50)).with(counter(&every)),
    ]);
    drive(&mut scheduler, 1_000 * MS);
    assert_eq!(*counted.borrow(), 10);
    assert_eq!(*every.borrow(), 20);
}

#[test]
fn counted_due_times_are_spaced_by_interval() {
    let mut scheduler = Scheduler::with_tasks(vec![
        Schedule::Counted { count: 4, interval: Span::from_millis(13) }.with(Box::new(|| {}) as Action),
    ]);
    let fired = drive(&mut scheduler, u128::MAX);
    assert_eq!(fired, vec![13 * MS, 26 * MS, 39 * MS, 52 * MS]);
}

#[test]
fn late_firing_does_not_drift() {
    let mut scheduler =
        Scheduler::with_tasks(vec![Schedule::Every(Span::from_millis(10)).with(Box::new(|| {}) as Action)]);
    // fired 7 ms late: the next firing is still due on the 10 ms grid
    match scheduler.step(at(17 * MS)) {
        Step::Fire(task) => {
            assert_eq!(task.at, at(10 * MS));
            scheduler.complete(task);
        }
        _ => panic!("expected a firing"),
    }
    assert_eq!(scheduler.next_due(), Some(at(20 * MS)));
    // far behind: the overdue task fires again at once
    assert!(matches!(scheduler.step(at(35 * MS)), Step::Fire(_)));
}

#[test]
fn equal_due_times_fire_in_insertion_order() {
    let log = Rc::new(RefCell::new(Vec::new()));
    let mut scheduler = Scheduler::with_tasks(vec![
        Schedule::Once(Some(Span::from_millis(3))).with(recorder(&log, "first")),
        Schedule::Once(Some(Span::from_millis(3))).with(recorder(&log, "second")),
        Schedule::Once(Some(Span::from_millis(3))).with(recorder(&log, "third")),
    ]);
    drive(&mut scheduler, u128::MAX);
    assert_eq!(*log.borrow(), vec!["first", "second", "third"]);
}

#[test]
fn empty_scheduler_is_done() {
    let mut scheduler: Scheduler<Action> = Scheduler::with_tasks(Vec::new());
    assert!(scheduler.next_due().is_none());
    assert!(matches!(scheduler.step(at(0)), Step::Done));
}

#[test]
fn schedule_reschedule_transitions() {
    let d = Span::from_millis(7);
    assert_eq!(Schedule::Once(None).reschedule(), None);
    assert_eq!(Schedule::Once(Some(d)).reschedule(), None);
    assert_eq!(Schedule::Every(d).reschedule(), Some(Schedule::Every(d)));
    assert_eq!(
        Schedule::Counted { count: 3, interval: d }.reschedule(),
        Some(Schedule::Counted { count: 2, interval: d })
    );
    assert_eq!(Schedule::Counted { count: 1, interval: d }.reschedule(), None);
    assert_eq!(Schedule::Counted { count: 0, interval: d }.reschedule(), None);
}

#[test]
fn schedule_waits() {
    assert_eq!(Schedule::Once(None).as_duration(), Span::zero());
    assert_eq!(Schedule::Once(Some(Span::from_secs(5))).as_duration().nanos, 5_000_000_000);
    assert_eq!(Schedule::Every(Span::from_millis(125)).as_duration().nanos, 125_000_000);
    assert_eq!(
        Schedule::Counted { count: 10, interval: Span::from_millis(13) }.as_duration().nanos,
        13_000_000
    );
}

#[test]
fn scheduled_task_reschedule() {
    let entry = ScheduledTask { at: at(100), task: Schedule::Every(Span::from_nanos(30)).with(|| {}) };
    let next = entry.reschedule(at(250)).expect("an Every task comes back");
    assert_eq!(next.at, at(280));
    assert_eq!(next.task.schedule, Schedule::Every(Span::from_nanos(30)));

    let entry = ScheduledTask {
        at: at(100),
        task: Schedule::Counted { count: 2, interval: Span::from_nanos(5) }.with(|| {}),
    };
    let next = entry.reschedule(at(100)).expect("one firing is left");
    assert_eq!(next.at, at(105));
    assert_eq!(next.task.schedule, Schedule::Counted { count: 1, interval: Span::from_nanos(5) });
    assert!(next.reschedule(at(105)).is_none());

    let entry = ScheduledTask { at: at(0), task: Schedule::Once(None).with(|| {}) };
    assert!(entry.reschedule(at(0)).is_none());
}

#[test]
fn with_boxed_keeps_schedule() {
    let action: Action = Box::new(|| {});
    let task: Task<Action> = Schedule::Every(Span::from_millis(1)).with_boxed(action);
    assert_eq!(task.schedule, Schedule::Every(Span::from_millis(1)));
}

#[test]
fn time_points() {
    assert_eq!(at(10).since(at(4)), Span::from_nanos(6));
    assert_eq!(at(4).since(at(10)), Span::zero());
    assert!(at(7).since(at(7)).is_zero());
    assert_eq!(at(10).plus(Span::from_nanos(5)), at(15));
    assert_eq!(at(u128::MAX - 1).plus(Span::from_nanos(5)), at(u128::MAX));
    assert_eq!(Stbi::origin(), at(0));
    assert!(at(3) < at(4));
}

#[test]
fn spans() {
    assert_eq!(Span::from_secs(5).nanos, 5_000_000_000);
    assert_eq!(Span::from_millis(61).nanos, 61_000_000);
    assert_eq!(Span::from_nanos(9).nanos, 9);
    assert!(Span::zero().is_zero());
    assert!(!Span::from_nanos(1).is_zero());
}

#[test]
fn clock_readings_are_monotonic() {
    let scheduler: Scheduler<Action> = Scheduler::with_tasks(Vec::new());
    let first = scheduler.now();
    let second = scheduler.now();
    assert!(first <= second);
}

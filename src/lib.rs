//! A single-threaded, time-based task scheduler.
//!
//! Callers pair a [`Schedule`] (fire once, once after a delay, on a fixed
//! interval, or a fixed number of times) with an action, hand a batch of such
//! tasks to a [`Scheduler`], and drive it with [`Scheduler::step`]: each step
//! either hands out the earliest due task, says how long to wait for it, or
//! reports that nothing is left.

pub mod time;

pub use time::{Clock, Span, Stbi};
pub mod schedule;
pub mod task;

pub use schedule::Schedule;
pub use task::{ScheduledTask, Task};
pub mod scheduler;

pub use scheduler::{Scheduler, Step};

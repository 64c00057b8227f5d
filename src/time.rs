//! Durations and points on a monotonic time scale, both counted in whole
//! nanoseconds.

use vstd::prelude::*;

verus! {

#[verifier::external_type_specification]
#[verifier::external_body]
pub struct ExInstant(std::time::Instant);

/// A non-negative length of time, in nanoseconds.
#[derive(Clone, Copy, Debug, PartialEq, Eq, Structural, PartialOrd, Ord, Hash)]
pub struct Span {
    pub nanos: u128,
}

impl Span {
    pub fn zero() -> (r: Span)
        ensures
            r.nanos == 0,
    {
        Span { nanos: 0 }
    }

    pub fn from_nanos(nanos: u128) -> (r: Span)
        ensures
            r.nanos == nanos,
    {
        Span { nanos }
    }

    pub fn from_millis(millis: u64) -> (r: Span)
        ensures
            r.nanos == millis * 1_000_000,
    {
        Span { nanos: millis as u128 * 1_000_000 }
    }

    pub fn from_secs(secs: u64) -> (r: Span)
        ensures
            r.nanos == secs * 1_000_000_000,
    {
        Span { nanos: secs as u128 * 1_000_000_000 }
    }

    pub fn is_zero(&self) -> (r: bool)
        ensures
            r == (self.nanos == 0),
    {
        self.nanos == 0
    }
}

/// A point on a monotonic clock: the nanoseconds passed since the clock
/// started. The order of points is their chronological order.
#[derive(Clone, Copy, Debug, PartialEq, Eq, Structural, PartialOrd, Ord, Hash)]
pub struct Stbi {
    pub nanos: u128,
}

/// The monotonic clock source; its start is the point zero of every [`Stbi`]
/// read from it.
pub struct Clock {
    origin: std::time::Instant,
}

impl Clock {
    /// Relies on `std::time::Instant::now`: the clock starts at the current
    /// instant of the monotonic source.
    #[verifier::external_body]
    pub fn start() -> (r: Clock) {
        Clock { origin: std::time::Instant::now() }
    }
}

impl Stbi {
    pub open spec fn plus_spec(self, d: nat) -> Stbi {
        Stbi { nanos: if self.nanos + d <= u128::MAX { (self.nanos + d) as u128 } else { u128::MAX } }
    }

    /// The point where every clock starts.
    pub fn origin() -> (r: Stbi)
        ensures
            r.nanos == 0,
    {
        Stbi { nanos: 0 }
    }

    /// Relies on `std::time::Instant::elapsed`: the time the monotonic source
    /// has advanced since `clock` started. Two readings may differ in any way
    /// the source allows, so nothing is promised of the value.
    #[verifier::external_body]
    pub fn now(clock: &Clock) -> (r: Stbi) {
        Stbi { nanos: clock.origin.elapsed().as_nanos() }
    }

    /// The time from `earlier` to `self`, zero when `self` is not later.
    pub fn since(&self, earlier: Stbi) -> (r: Span)
        ensures
            r.nanos == if self.nanos > earlier.nanos { self.nanos - earlier.nanos } else { 0 },
    {
        if self.nanos > earlier.nanos {
            Span { nanos: self.nanos - earlier.nanos }
        } else {
            Span { nanos: 0 }
        }
    }

    /// The point `d` after `self`; a point past the clock's range becomes its
    /// last point.
    pub fn plus(self, d: Span) -> (r: Stbi)
        ensures
            r == self.plus_spec(d.nanos as nat),
    {
        match self.nanos.checked_add(d.nanos) {
            Some(n) => Stbi { nanos: n },
            None => Stbi { nanos: u128::MAX },
        }
    }
}

} // verus!

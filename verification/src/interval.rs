//! Runs an action at most once per period.
use vstd::prelude::*;

use std::time::{Duration, Instant};

verus! {

#[verifier::external_type_specification]
#[verifier::external_body]
pub struct ExInstant(Instant);

/// `Instant::now` reads the clock, so nothing is claimed of its result.
pub assume_specification[ Instant::now ]() -> Instant;

/// `Instant::elapsed` reads the clock, so nothing is claimed of its result.
pub assume_specification[ Instant::elapsed ](instant: &Instant) -> Duration;

/// Calls `<Duration as PartialOrd>::ge`. The result is whether `duration` is at least
/// `bound`, but a `Duration` has no view here that a contract could compare, so that is left
/// unsaid: nothing is claimed of the result.
#[verifier::external_body]
fn duration_at_least(duration: &Duration, bound: &Duration) -> bool {
    *duration >= *bound
}

/// A period and the time the action last ran.
pub struct Interval {
    interval: Duration,
    last_execution_time: Instant,
}

impl Interval {
    /// The period.
    pub closed spec fn period(self) -> Duration {
        self.interval
    }

    /// An interval with period `interval`, counted from now.
    pub fn new(interval: Duration) -> (r: Self)
        ensures
            r.period() == interval,
    {
        Self { interval, last_execution_time: Instant::now() }
    }

    /// Runs `f` when at least one period has passed since the last run, and then restarts the
    /// count; otherwise does nothing. Whether the period has passed is read from the clock;
    /// what follows is `run_if_due`.
    pub fn tick<F: FnOnce()>(&mut self, f: F)
        requires
            f.requires(()),
        ensures
            final(self).period() == old(self).period(),
            *final(self) == *old(self) || f.ensures((), ()),
    {
        let elapsed = self.last_execution_time.elapsed();
        let due = duration_at_least(&elapsed, &self.interval);
        self.run_if_due(due, f);
    }

    /// Runs `f` and restarts the count from now when `due`; leaves everything as it is
    /// otherwise.
    pub fn run_if_due<F: FnOnce()>(&mut self, due: bool, f: F)
        requires
            due ==> f.requires(()),
        ensures
            final(self).period() == old(self).period(),
            !due ==> *final(self) == *old(self),
            due ==> f.ensures((), ()),
    {
        if due {
            f();
            self.last_execution_time = Instant::now();
        }
    }
}

} // verus!

//! A clock that only moves when the session sleeps.

use vstd::prelude::*;

use crate::session::{Clock, Tick};
use crate::time::{self, Duration, Instant};

verus! {

/// A clock that only moves when the session sleeps.
pub struct FakeClock {
    /// How far the clock has moved.
    pub elapsed: Duration,
    /// Every pause, in order.
    pub sleeps: Vec<Duration>,
    /// Every call made so far.
    pub ticks: Ghost<Seq<Tick>>,
}

impl FakeClock {
    /// A clock at its origin.
    pub fn new() -> (clock: Self)
        ensures
            clock.elapsed == 0,
            clock.sleeps@.len() == 0,
            clock.ticks() == Seq::<Tick>::empty(),
    {
        FakeClock { elapsed: 0, sleeps: Vec::new(), ticks: Ghost(Seq::empty()) }
    }

    /// Every pause in whole milliseconds.
    pub fn sleeps_ms(&self) -> (millis: Vec<u128>)
        ensures
            millis@ == self.sleeps@.map_values(|span: Duration| span / 1_000_000),
    {
        let mut millis: Vec<u128> = Vec::new();
        let mut i: usize = 0;
        while i < self.sleeps.len()
            invariant
                i <= self.sleeps@.len(),
                millis@ == self.sleeps@.take(i as int).map_values(
                    |span: Duration| span / 1_000_000,
                ),
            decreases self.sleeps@.len() - i,
        {
            millis.push(time::as_millis(self.sleeps[i]));
            i = i + 1;
            assert(self.sleeps@.take(i as int).drop_last() == self.sleeps@.take(i - 1));
        }
        assert(self.sleeps@.take(i as int) == self.sleeps@);
        millis
    }
}

impl Default for FakeClock {
    /// A clock at its origin.
    fn default() -> (clock: Self)
        ensures
            clock.elapsed == 0,
            clock.sleeps@.len() == 0,
            clock.ticks() == Seq::<Tick>::empty(),
    {
        FakeClock::new()
    }
}

impl Clock for FakeClock {
    open spec fn ticks(&self) -> Seq<Tick> {
        self.ticks@
    }

    /// How far the clock has moved.
    fn now(&mut self) -> (now: Instant)
        ensures
            now == old(self).elapsed,
            final(self).elapsed == old(self).elapsed,
            final(self).sleeps == old(self).sleeps,
    {
        proof {
            self.ticks@ = self.ticks@.push(Tick::Now(self.elapsed));
        }
        self.elapsed
    }

    /// Moves the clock by `duration` and remembers the pause.
    fn sleep(&mut self, duration: Duration)
        ensures
            final(self).elapsed == time::point_after(old(self).elapsed as int, duration as int),
            final(self).sleeps@ == old(self).sleeps@.push(duration),
    {
        self.elapsed = time::after(self.elapsed, duration);
        self.sleeps.push(duration);
        proof {
            self.ticks@ = self.ticks@.push(Tick::Slept(duration));
        }
    }
}

} // verus!

//! The ticker: when the next tick is due, on a clock of milliseconds that the
//! caller reads.

use vstd::prelude::*;

verus! {

/// The time that has passed from `last` to `now`; none if the clock went
/// back.
pub open spec fn elapsed(last: u64, now: u64) -> u64 {
    if now >= last {
        (now - last) as u64
    } else {
        0
    }
}

/// A ticker with a fixed interval.
#[derive(Clone, Copy, Debug, PartialEq, Eq)]
pub struct Ticker {
    /// The interval between ticks, in milliseconds.
    pub rate: u64,
    /// When the last tick was given, in milliseconds.
    pub last_tick: u64,
}

impl Ticker {
    /// A ticker with the interval `rate` whose last tick was at `now`.
    pub fn new(rate: u64, now: u64) -> (ticker: Ticker)
        ensures
            ticker.rate == rate,
            ticker.last_tick == now,
    {
        Ticker { rate, last_tick: now }
    }

    /// How long to wait for input at time `now` before the next tick is due.
    pub open spec fn wait(self, now: u64) -> u64 {
        if elapsed(self.last_tick, now) >= self.rate {
            0
        } else {
            (self.rate - elapsed(self.last_tick, now)) as u64
        }
    }

    /// Whether a tick is due at time `now`.
    pub open spec fn is_due(self, now: u64) -> bool {
        elapsed(self.last_tick, now) >= self.rate
    }

    /// How long to wait for input at time `now` before the next tick is due:
    /// what is left of the interval, and nothing once it has passed.
    pub fn timeout(&self, now: u64) -> (wait: u64)
        ensures
            wait == self.wait(now),
    {
        let passed: u64 = if now >= self.last_tick {
            now - self.last_tick
        } else {
            0
        };
        if passed >= self.rate {
            0
        } else {
            self.rate - passed
        }
    }

    /// Says whether a tick is due at time `now`. If one is, it counts as
    /// given at `now`: the next is due an interval later.
    pub fn poll(&mut self, now: u64) -> (due: bool)
        ensures
            due == old(self).is_due(now),
            final(self).rate == old(self).rate,
            final(self).last_tick == (if due {
                now
            } else {
                old(self).last_tick
            }),
    {
        let passed: u64 = if now >= self.last_tick {
            now - self.last_tick
        } else {
            0
        };
        if passed >= self.rate {
            self.last_tick = now;
            true
        } else {
            false
        }
    }
}

} // verus!

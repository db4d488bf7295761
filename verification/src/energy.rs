//! Energy metabolism: the reserve an agent lives on, how it drains and how it
//! is refilled.

use vstd::prelude::*;

verus! {

/// Milliseconds in one second, the scale between a time step and a rate.
pub const MILLIS_PER_SECOND: u64 = 1000;

/// An agent's energy reserve.
#[derive(Clone, Copy, Debug, PartialEq, Eq, Structural)]
pub struct Energy {
    pub current: u64,
    pub max: u64,
    pub drain_rate: u64,
}

/// What a reserve loses over `dt_ms` milliseconds at `rate` units per second.
pub open spec fn drained(rate: int, dt_ms: int) -> int {
    rate * dt_ms / (MILLIS_PER_SECOND as int)
}

/// `current` after a loss of `amount`, never below zero.
pub open spec fn after_loss(current: int, amount: int) -> int {
    if amount >= current {
        0
    } else {
        current - amount
    }
}

/// `current` after a gain of `amount`, never above `max`.
pub open spec fn after_gain(current: int, max: int, amount: int) -> int {
    if current + amount >= max {
        max
    } else {
        current + amount
    }
}

impl Energy {
    /// The reserve never holds more than its capacity.
    pub open spec fn wf(self) -> bool {
        self.current <= self.max
    }

    /// A full reserve of capacity `max`.
    pub fn full(max: u64, drain_rate: u64) -> (e: Energy)
        ensures
            e.wf(),
            e.current == max,
            e.max == max,
            e.drain_rate == drain_rate,
    {
        Energy { current: max, max, drain_rate }
    }

    /// A reserve holding `current`, cut down to `max` where it would exceed it.
    pub fn new(current: u64, max: u64, drain_rate: u64) -> (e: Energy)
        ensures
            e.wf(),
            e.current == (if current <= max { current } else { max }),
            e.max == max,
            e.drain_rate == drain_rate,
    {
        let held: u64 = if current <= max { current } else { max };
        Energy { current: held, max, drain_rate }
    }

    /// Drains the reserve for a step of `dt_ms` milliseconds and reports
    /// whether it ran out.
    pub fn drain(&mut self, dt_ms: u64) -> (depleted: bool)
        ensures
            final(self).current == after_loss(
                old(self).current as int,
                drained(old(self).drain_rate as int, dt_ms as int),
            ),
            final(self).max == old(self).max,
            final(self).drain_rate == old(self).drain_rate,
            depleted == (final(self).current == 0),
            old(self).wf() ==> final(self).wf(),
    {
        assert((self.drain_rate as int) * (dt_ms as int) <= u128::MAX) by (nonlinear_arith)
            requires
                self.drain_rate <= u64::MAX,
                dt_ms <= u64::MAX,
        ;
        let loss: u128 = (self.drain_rate as u128) * (dt_ms as u128) / 1000u128;
        if loss >= self.current as u128 {
            self.current = 0;
        } else {
            self.current = self.current - (loss as u64);
        }
        self.current == 0
    }

    /// Credits `amount` to the reserve, up to its capacity: a well-formed
    /// reserve grows by `amount` or by the room that is left, whichever is
    /// less.
    pub fn gain(&mut self, amount: u64)
        ensures
            final(self).wf(),
            final(self).current == after_gain(
                old(self).current as int,
                old(self).max as int,
                amount as int,
            ),
            old(self).wf() ==> final(self).current - old(self).current == (if amount <= old(
                self,
            ).max - old(self).current {
                amount as int
            } else {
                old(self).max - old(self).current
            }),
            final(self).max == old(self).max,
            final(self).drain_rate == old(self).drain_rate,
    {
        if self.current >= self.max || amount >= self.max - self.current {
            self.current = self.max;
        } else {
            self.current = self.current + amount;
        }
    }

    /// Whether the reserve could pay `cost` without going below zero.
    pub fn can_afford(&self, cost: u64) -> (b: bool)
        ensures
            b == (self.current >= cost),
    {
        self.current >= cost
    }

    /// Takes `cost` out of the reserve.
    pub fn spend(&mut self, cost: u64)
        requires
            old(self).current >= cost,
        ensures
            final(self).current == old(self).current - cost,
            final(self).max == old(self).max,
            final(self).drain_rate == old(self).drain_rate,
            old(self).wf() ==> final(self).wf(),
    {
        self.current = self.current - cost;
    }
}

} // verus!

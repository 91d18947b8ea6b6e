//! The ticker: one signal per interval of the clock it is shown, until it is
//! cancelled.

use vstd::prelude::*;

verus! {

/// What a ticker is, as contracts see it. Times are in milliseconds.
pub struct TickerState {
    pub interval: u64,
    /// The time from which the next signal is due.
    pub due: u64,
    pub cancelled: bool,
}

/// `now + interval`, or the largest time where that is out of range.
pub open spec fn later(now: u64, interval: u64) -> u64 {
    if now + interval <= u64::MAX {
        (now + interval) as u64
    } else {
        u64::MAX
    }
}

/// Whether a ticker in state `s` signals at time `now`.
pub open spec fn fires(s: TickerState, now: u64) -> bool {
    !s.cancelled && now >= s.due
}

/// A periodic timer that is driven by the times it is polled at.
#[derive(Clone, Copy, Debug)]
pub struct Ticker {
    interval: u64,
    due: u64,
    cancelled: bool,
}

impl View for Ticker {
    type V = TickerState;

    closed spec fn view(&self) -> TickerState {
        TickerState { interval: self.interval, due: self.due, cancelled: self.cancelled }
    }
}

impl Ticker {
    /// A ticker that is started at `now` and first signals one interval later.
    pub fn new(interval: u64, now: u64) -> (r: Ticker)
        ensures
            r@ == (TickerState { interval, due: later(now, interval), cancelled: false }),
    {
        Ticker { interval, due: add_time(now, interval), cancelled: false }
    }

    /// Whether a signal is due at `now`. A signal moves the next one to one
    /// interval after `now`; a cancelled ticker never signals.
    pub fn poll(&mut self, now: u64) -> (fired: bool)
        ensures
            fired == fires(old(self)@, now),
            final(self)@ == (TickerState {
                due: if fired {
                    later(now, old(self)@.interval)
                } else {
                    old(self)@.due
                },
                ..old(self)@
            }),
    {
        if self.cancelled || now < self.due {
            false
        } else {
            self.due = add_time(now, self.interval);
            true
        }
    }

    /// How long to wait at `now` until the next signal is due.
    pub fn remaining(&self, now: u64) -> (r: u64)
        ensures
            r == if now >= self@.due {
                0
            } else {
                (self@.due - now) as u64
            },
    {
        if now >= self.due {
            0
        } else {
            self.due - now
        }
    }

    /// Cancels the ticker. Cancelling again changes nothing.
    pub fn cancel(&mut self)
        ensures
            final(self)@ == (TickerState { cancelled: true, ..old(self)@ }),
    {
        self.cancelled = true;
    }

    /// Whether the ticker was cancelled.
    pub fn is_cancelled(&self) -> (r: bool)
        ensures
            r == self@.cancelled,
    {
        self.cancelled
    }
}

/// Adds an interval to a time without leaving the range of times.
pub fn add_time(now: u64, interval: u64) -> (r: u64)
    ensures
        r == later(now, interval),
{
    if now <= u64::MAX - interval {
        now + interval
    } else {
        u64::MAX
    }
}

} // verus!

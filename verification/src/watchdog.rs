//! A simple primitive that tells how long to sleep until a deadline that can be pushed back.
//!
//! Time is held as whole nanoseconds: instants are counted from a base instant that the caller
//! fixes, and the caller reads the clock and hands the current instant to each operation.
use vstd::prelude::*;

verus! {

/// How long to wait until a watchdog fires.
#[derive(Debug, Clone, Copy, PartialEq, Eq, Structural)]
pub enum TimeLeft {
    /// The deadline has passed: the watchdog fires now.
    Expired,
    /// The watchdog fires after this many nanoseconds.
    Wait(u64),
    /// The deadline lies beyond the last instant that can be counted: the watchdog never fires.
    Never,
}

/// Fires `deadline` nanoseconds after the instant it was created or last reset at.
pub struct Watchdog {
    reset_at: u64,
    deadline: u64,
}

/// How long a watchdog armed at `armed_at` for `armed_for` nanoseconds has left at `now`: the
/// time from `now` to `armed_at + armed_for`, nothing once that instant has passed, and no end
/// where that instant cannot be counted.
pub open spec fn spec_time_left(armed_at: u64, armed_for: u64, now: u64) -> TimeLeft {
    if armed_at + armed_for > u64::MAX {
        TimeLeft::Never
    } else if now > armed_at + armed_for {
        TimeLeft::Expired
    } else {
        TimeLeft::Wait((armed_at + armed_for - now) as u64)
    }
}

impl Watchdog {
    /// The nanoseconds from a reset to the moment the watchdog fires.
    pub closed spec fn armed_for(&self) -> u64 {
        self.deadline
    }

    /// The instant the watchdog was created or last reset at.
    pub closed spec fn armed_at(&self) -> u64 {
        self.reset_at
    }

    /// A watchdog, armed at `now`, that fires `deadline` nanoseconds after it.
    pub fn new(now: u64, deadline: u64) -> (w: Self)
        ensures
            w.armed_at() == now,
            w.armed_for() == deadline,
    {
        Watchdog { reset_at: now, deadline }
    }

    /// Replenish the amount of time until this watchdog fires: it is armed again at `now`, to
    /// fire the same duration after it.
    pub fn reset(&mut self, now: u64)
        ensures
            final(self).armed_at() == now,
            final(self).armed_for() == old(self).armed_for(),
    {
        self.reset_at = now;
    }

    /// How long to wait at `now` until the watchdog fires.
    pub fn time_left(&self, now: u64) -> (r: TimeLeft)
        ensures
            r == spec_time_left(self.armed_at(), self.armed_for(), now),
    {
        match self.reset_at.checked_add(self.deadline) {
            None => TimeLeft::Never,
            Some(fires_at) => if now > fires_at {
                TimeLeft::Expired
            } else {
                TimeLeft::Wait(fires_at - now)
            },
        }
    }
}

} // verus!

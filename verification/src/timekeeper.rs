//! Monotonic cycle counter with per-peripheral "last synchronisation"
//! bookmarks, used to charge CPU cycles and hand elapsed time to the
//! peripherals on demand.

use vstd::prelude::*;

verus! {

/// Peripherals that keep a time sheet. The position of each variant is its
/// index into the time-sheet table.
#[derive(Clone, Copy, PartialEq, Eq, Structural)]
pub enum Peripheral {
    /// Graphics processing unit.
    Gpu,
    /// The three hardware timers.
    Timers,
}

pub open spec fn peripheral_index(who: Peripheral) -> int {
    match who {
        Peripheral::Gpu => 0,
        Peripheral::Timers => 1,
    }
}

/// Bookkeeping for a single peripheral: the date of its last
/// synchronisation.
#[derive(Clone, Copy, PartialEq, Eq, Structural)]
pub struct TimeSheet {
    /// Date of the last synchronisation.
    pub last: u64,
}

impl TimeSheet {
    pub fn new() -> (r: TimeSheet)
        ensures
            r.last == 0,
    {
        TimeSheet { last: 0 }
    }

    /// Forward the time sheet to `now` and return the time elapsed since
    /// the last synchronisation.
    pub fn sync(&mut self, now: u64) -> (r: u64)
        requires
            old(self).last <= now,
        ensures
            r == now - old(self).last,
            final(self).last == now,
    {
        let delta = now - self.last;
        self.last = now;
        delta
    }
}

/// Monotonic cycle counter. The unit is one period of the CPU clock at
/// 33.8685 MHz; a 64-bit count lasts for thousands of years, so callers
/// only owe the trivial bound that the count does not wrap.
pub struct TimeKeeper {
    /// Counter keeping track of the current date.
    pub now: u64,
    /// One time sheet per peripheral.
    pub timesheets: [TimeSheet; 2],
}

impl TimeKeeper {
    /// Every time sheet is at or behind the current date.
    pub open spec fn wf(self) -> bool {
        forall|i: int| 0 <= i < 2 ==> #[trigger] self.timesheets@[i].last <= self.now
    }

    pub fn new() -> (r: TimeKeeper)
        ensures
            r.now == 0,
            r.timesheets@ == Seq::new(2, |i: int| TimeSheet { last: 0 }),
            r.wf(),
    {
        let r = TimeKeeper { now: 0, timesheets: [TimeSheet::new(), TimeSheet::new()] };
        proof {
            assert(r.timesheets@ =~= Seq::new(2, |i: int| TimeSheet { last: 0 }));
        }
        r
    }

    /// Advance the current date by `cycles`.
    pub fn tick(&mut self, cycles: u64)
        requires
            old(self).now + cycles <= u64::MAX,
            old(self).wf(),
        ensures
            final(self).now == old(self).now + cycles,
            final(self).timesheets == old(self).timesheets,
            final(self).wf(),
    {
        self.now = self.now + cycles;
    }

    /// Synchronise the time sheet of `who` and return the time elapsed
    /// since its last synchronisation.
    pub fn sync(&mut self, who: Peripheral) -> (r: u64)
        requires
            old(self).wf(),
        ensures
            r == old(self).now - old(self).timesheets@[peripheral_index(who)].last,
            final(self).now == old(self).now,
            final(self).timesheets@ == old(self).timesheets@.update(
                peripheral_index(who),
                TimeSheet { last: old(self).now },
            ),
            final(self).wf(),
    {
        let idx: usize = match who {
            Peripheral::Gpu => 0,
            Peripheral::Timers => 1,
        };
        let now = self.now;
        let mut sheet = self.timesheets[idx];
        let delta = sheet.sync(now);
        self.timesheets[idx] = sheet;
        proof {
            assert(self.timesheets@ =~= old(self).timesheets@.update(
                peripheral_index(who),
                TimeSheet { last: old(self).now },
            ));
        }
        delta
    }
}

} // verus!

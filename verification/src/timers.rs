//! The three hardware timers. Each can count a clock of its own besides
//! the system clock: the GPU pixel clock for timer 0, horizontal blanking
//! for timer 1, and the system clock divided by 8 for timer 2.
//!
//! The register behaviour (mode and target bits) is deliberately left
//! unmodelled here: a register write only synchronises the timers with the
//! timekeeper. The interface surface is kept so the counters can be wired
//! up once their semantics are pinned down.

use vstd::prelude::*;
use crate::timekeeper::{Peripheral, TimeKeeper, peripheral_index, TimeSheet};

verus! {

/// A single hardware timer.
#[derive(Clone, Copy, PartialEq, Eq, Structural)]
pub struct Timer {
    /// The free-running counter value.
    pub counter: u16,
    /// The counter target value.
    pub target: u16,
    /// The raw mode register.
    pub mode: u16,
}

impl Timer {
    pub fn new() -> (r: Timer)
        ensures
            r.counter == 0,
            r.target == 0,
            r.mode == 0,
    {
        Timer { counter: 0, target: 0, mode: 0 }
    }
}

/// The timer block: three timers with independent clock sources.
pub struct Timers {
    /// The three timers.
    pub timers: [Timer; 3],
}

impl Timers {
    pub fn new() -> (r: Timers)
        ensures
            r.timers@ == Seq::new(3, |i: int| Timer { counter: 0, target: 0, mode: 0 }),
    {
        let r = Timers { timers: [Timer::new(), Timer::new(), Timer::new()] };
        proof {
            assert(r.timers@ =~= Seq::new(3, |i: int| Timer { counter: 0, target: 0, mode: 0 }));
        }
        r
    }

    /// Handle a timer register write: synchronise with the timekeeper.
    /// Which register bits mean what is left open, so the write itself is
    /// absorbed and the timer state is unchanged.
    pub fn set_reg(&mut self, timekeeper: &mut TimeKeeper, reg: u32, val: u16)
        requires
            old(timekeeper).wf(),
        ensures
            *final(self) == *old(self),
            final(timekeeper).wf(),
            final(timekeeper).now == old(timekeeper).now,
            final(timekeeper).timesheets@ == old(timekeeper).timesheets@.update(
                peripheral_index(Peripheral::Timers),
                TimeSheet { last: old(timekeeper).now },
            ),
    {
        self.update(timekeeper);
    }

    /// Synchronise the timers with the current date.
    fn update(&mut self, timekeeper: &mut TimeKeeper)
        requires
            old(timekeeper).wf(),
        ensures
            *final(self) == *old(self),
            final(timekeeper).wf(),
            final(timekeeper).now == old(timekeeper).now,
            final(timekeeper).timesheets@ == old(timekeeper).timesheets@.update(
                peripheral_index(Peripheral::Timers),
                TimeSheet { last: old(timekeeper).now },
            ),
    {
        let _delta = timekeeper.sync(Peripheral::Timers);
    }
}

} // verus!

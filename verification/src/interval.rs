//! A tick every period, for as long as the view renders. The application
//! runs the timer; each period that elapses counts one.

use vstd::prelude::*;

verus! {

/// How many periods have elapsed.
pub struct Interval {
    ticks: u64,
}

impl Interval {
    /// No period elapsed yet.
    pub fn new() -> (r: Interval)
        ensures
            r.spec_ticks() == 0,
    {
        Interval { ticks: 0 }
    }

    /// The count the view reads.
    pub closed spec fn spec_ticks(&self) -> u64 {
        self.ticks
    }

    /// How many periods have elapsed since the first render.
    pub fn ticks(&self) -> (r: u64)
        ensures
            r == self.spec_ticks(),
    {
        self.ticks
    }

    /// One more period elapsed.
    pub fn tick(&mut self)
        requires
            old(self).spec_ticks() < u64::MAX,
        ensures
            final(self).spec_ticks() == old(self).spec_ticks() + 1,
    {
        self.ticks = self.ticks + 1;
    }
}

} // verus!

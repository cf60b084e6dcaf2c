//! The state of a hand-written future: a countdown that is pending until
//! it reaches zero. The executor that polls it stands outside the library.
use vstd::prelude::*;

verus! {

/// Counts down one step per poll; ready with 0 once nothing remains.
#[derive(Debug)]
pub struct Countdown {
    pub remaining: u32,
}

impl Countdown {
    /// A countdown of `remaining` steps.
    pub fn new(remaining: u32) -> (c: Self)
        ensures
            c.remaining == remaining,
    {
        Countdown { remaining }
    }

    /// One poll: `Some(0)` (ready) when nothing remains, otherwise one step
    /// is taken and `None` (pending) is returned.
    pub fn step(&mut self) -> (r: Option<u32>)
        ensures
            old(self).remaining == 0 ==> r == Some(0u32) && final(self).remaining == 0,
            old(self).remaining > 0 ==> r is None && final(self).remaining == old(self).remaining - 1,
    {
        if self.remaining == 0 {
            Some(0)
        } else {
            self.remaining = self.remaining - 1;
            None
        }
    }
}

} // verus!

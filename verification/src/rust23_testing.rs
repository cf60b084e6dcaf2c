//! Testable time-dependent code: the clock is injected, so a fake clock
//! makes the rendering of an uptime deterministic.
use vstd::prelude::*;
use crate::strings::{decimal, push_decimal};

verus! {

/// Anything that can tell how many milliseconds passed since its start.
pub trait ElapsedClock {
    fn elapsed_millis(&self) -> u64;
}

/// A clock frozen at a chosen number of milliseconds.
pub struct FakeClock {
    pub millis: u64,
}

impl ElapsedClock for FakeClock {
    fn elapsed_millis(&self) -> (m: u64)
        ensures
            m == self.millis,
    {
        self.millis
    }
}

/// Human-readable uptime for `millis` milliseconds: milliseconds below one
/// second, whole seconds below one minute, whole minutes from then on.
pub open spec fn uptime_text(millis: u64) -> Seq<char> {
    if millis < 1000 {
        decimal(millis as nat) + " 毫秒"@
    } else if millis < 60000 {
        decimal((millis / 1000) as nat) + " 秒"@
    } else {
        decimal((millis / 60000) as nat) + " 分钟"@
    }
}

/// Renders an uptime reading of `millis` milliseconds.
pub fn uptime_label_for(millis: u64) -> (s: String)
    ensures
        s@ == uptime_text(millis),
{
    let mut s = String::new();
    let (n, unit) = if millis < 1_000 {
        (millis, " 毫秒")
    } else if millis < 60_000 {
        (millis / 1000, " 秒")
    } else {
        (millis / 60_000, " 分钟")
    };
    push_decimal(&mut s, n);
    s.append(unit);
    s
}

/// Renders the uptime the clock reports.
pub fn uptime_label<C: ElapsedClock>(clock: &C) -> (s: String)
    ensures
        exists|m: u64| call_ensures(C::elapsed_millis, (clock,), m) && s@ == uptime_text(m),
{
    let millis = clock.elapsed_millis();
    uptime_label_for(millis)
}

} // verus!

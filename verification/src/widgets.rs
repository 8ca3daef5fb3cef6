//! The dot that shows how much time the codes have left.

use vstd::prelude::*;

verus! {

/// How urgent the countdown is.
#[derive(Debug, Clone, Copy, PartialEq, Eq, Structural)]
pub enum DotLevel {
    /// More than ten seconds are left.
    Success,
    /// Six to ten seconds are left.
    Warning,
    /// Five seconds or fewer are left.
    Danger,
}

/// The level that a number of seconds left is shown at.
pub open spec fn level_of(timer: u64) -> DotLevel {
    if timer > 10 {
        DotLevel::Success
    } else if timer > 5 {
        DotLevel::Warning
    } else {
        DotLevel::Danger
    }
}

/// The dot of a countdown.
#[derive(Debug, Clone, Copy, PartialEq, Eq, Structural)]
pub struct Dot {
    pub timer: u64,
}

impl Dot {
    /// The dot for `timer` seconds left.
    pub fn new(timer: u64) -> (d: Dot)
        ensures
            d == (Dot { timer }),
    {
        Dot { timer }
    }

    /// The level at which the dot is shown.
    pub fn level(&self) -> (l: DotLevel)
        ensures
            l == level_of(self.timer),
    {
        if self.timer > 10 {
            DotLevel::Success
        } else if self.timer > 5 {
            DotLevel::Warning
        } else {
            DotLevel::Danger
        }
    }
}

/// The dot for `timer` seconds left.
pub fn dot(timer: u64) -> (d: Dot)
    ensures
        d == (Dot { timer }),
{
    Dot::new(timer)
}

} // verus!

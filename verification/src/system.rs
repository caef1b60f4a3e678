//! Systems that tick until they stop.
use vstd::prelude::*;

verus! {

/// Whether a system goes on after a tick.
#[derive(Clone, Copy, Debug, Eq, PartialEq, Ord, PartialOrd, Hash, Structural)]
pub enum TickResult {
    Continue,
    Stop,
}

impl TickResult {
    /// Whether the system ticks no more.
    pub fn stops(&self) -> (stops: bool)
        ensures
            stops == (*self == TickResult::Stop),
    {
        matches!(*self, TickResult::Stop)
    }
}

} // verus!

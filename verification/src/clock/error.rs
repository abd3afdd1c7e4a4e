//! What the timer refuses.
use vstd::prelude::*;

verus! {

/// Why a timer refused to start.
#[derive(Debug, Clone, Copy, PartialEq, Eq, Structural)]
pub enum TimerError {
    /// The timer still has time left on its current run.
    StillRunning,
}

impl TimerError {
    /// The message that describes the error.
    pub fn message(&self) -> (text: &'static str)
        ensures
            text@ == "timer is still running"@,
    {
        "timer is still running"
    }
}

} // verus!

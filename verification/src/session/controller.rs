use vstd::prelude::*;

verus! {

/// Why a movement path is broken off before the next sample.
#[derive(Debug, Clone, Copy, PartialEq, Eq, Structural)]
pub enum DiscontinuityReason {
    PauseResume,
    LargeSampleGap,
    SuspectedSleepOrLock,
    DisplayConfigurationChanged,
}

} // verus!

use vstd::prelude::*;

verus! {

#[derive(Debug, Clone, Default, PartialEq, Eq, Structural)]
pub struct SessionStatistics {
    pub samples_recorded: u64,
    pub movements_recorded: u64,
    pub dwell_events: u64,
}

impl SessionStatistics {
    /// Starts counting afresh.
    pub fn reset(&mut self)
        ensures
            *final(self) == (SessionStatistics { samples_recorded: 0, movements_recorded: 0, dwell_events: 0 }),
    {
        *self = SessionStatistics { samples_recorded: 0, movements_recorded: 0, dwell_events: 0 };
    }
}

} // verus!

use vstd::prelude::*;

verus! {

/// The recording state of the authoritative engine.
#[derive(Debug, Clone, Copy, PartialEq, Eq, Structural)]
pub enum RecordingStatus {
    /// No active sampler and no completed canvas retained by the engine.
    Stopped,
    Recording,
    Paused,
    /// Recording is finalized; its canvas remains available for export or clear.
    Finished,
}

/// Wall-clock timing of a session, in whole seconds since the Unix epoch.
#[derive(Debug, Clone, Default)]
pub struct SessionTiming {
    pub started_at: Option<u64>,
}

} // verus!

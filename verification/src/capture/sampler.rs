use vstd::prelude::*;

verus! {

#[derive(Debug, Clone, Copy, PartialEq, Eq, Structural)]
pub enum SamplerCommand {
    Stop,
}

/// How many cursor samples the sample channel holds before new ones are dropped.
pub const SAMPLE_CHANNEL_BOUND: usize = 256;

/// The sampling interval, in milliseconds, for a configured interval: never
/// shorter than one millisecond.
pub fn sampling_interval_from_ms(ms: u64) -> (r: u64)
    ensures
        r == if ms >= 1 { ms } else { 1 },
{
    if ms >= 1 {
        ms
    } else {
        1
    }
}

} // verus!

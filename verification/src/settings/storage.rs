//! When settings are written back: a debounce so that bursts of edits cost one
//! write. Instants and the delay are nanoseconds on the monotonic clock.
use vstd::prelude::*;

verus! {

#[derive(Debug, Clone)]
pub struct DebouncedSettingsSave {
    pub delay: u64,
    pub pending_deadline: Option<u64>,
}

impl DebouncedSettingsSave {
    pub fn new(delay: u64) -> (d: Self)
        ensures
            d.delay == delay,
            d.pending_deadline is None,
    {
        DebouncedSettingsSave { delay, pending_deadline: None }
    }

    /// An edit at `now`: the save is due one delay later, replacing any earlier
    /// deadline.
    pub fn schedule_at(&mut self, now: u64)
        requires
            now + old(self).delay <= u64::MAX,
        ensures
            final(self).delay == old(self).delay,
            final(self).pending_deadline == Some((now + old(self).delay) as u64),
    {
        self.pending_deadline = Some(now + self.delay);
    }

    /// Whether a scheduled save is due at `now`.
    pub fn should_save(&self, now: u64) -> (r: bool)
        ensures
            r == (self.pending_deadline matches Some(d) && now >= d),
    {
        match self.pending_deadline {
            Some(d) => now >= d,
            None => false,
        }
    }

    pub fn mark_saved(&mut self)
        ensures
            final(self).delay == old(self).delay,
            final(self).pending_deadline is None,
    {
        self.pending_deadline = None;
    }
}

} // verus!

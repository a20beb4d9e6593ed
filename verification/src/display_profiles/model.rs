use vstd::prelude::*;

use crate::canvas::topology::DisplayLayoutFingerprint;
use crate::platform::display_identity::{DisplayIdentity, DisplayOrientation};
use crate::text::str_eq;

verus! {

pub const DISPLAY_PROFILE_SCHEMA_VERSION: u32 = 1;

/// A monitor's desktop rectangle, carried through unchanged: each edge is the
/// bit pattern of the `f32` coordinate the display system reported
/// (`f32::to_bits`). Profiles store and compare it but never compute with it.
#[derive(Debug, Clone, Copy, PartialEq, Eq, Structural)]
pub struct RectBits {
    pub min_x: u32,
    pub min_y: u32,
    pub max_x: u32,
    pub max_y: u32,
}

/// A monitor's resolution in physical pixels.
#[derive(Debug, Clone, Copy, PartialEq, Eq, Structural)]
pub struct Resolution {
    pub width: u32,
    pub height: u32,
}

#[derive(Debug, Clone, PartialEq, Eq)]
pub struct MonitorDescriptor {
    pub stable_key: String,
    pub identity: DisplayIdentity,
    pub physical_rect: RectBits,
    pub resolution: Resolution,
    pub orientation: DisplayOrientation,
    pub primary: bool,
    pub display_name: String,
}

#[derive(Debug, Clone, PartialEq, Eq)]
pub struct SavedDisplayProfile {
    pub id: String,
    pub schema_version: u32,
    pub name: String,
    pub renamed: bool,
    pub fingerprint: DisplayLayoutFingerprint,
    pub detected_monitors: Vec<MonitorDescriptor>,
    pub included_stable_keys: Vec<String>,
    pub preferred: bool,
}


/// The detected display layout as far as profiles look at it: its fingerprint
/// and the stable keys of its monitors.
#[derive(Debug, Clone, PartialEq, Eq)]
pub struct DetectedLayout {
    pub fingerprint: DisplayLayoutFingerprint,
    pub stable_keys: Vec<String>,
}

/// Whether a stable key names a monitor of the layout.
pub open spec fn has_key(layout: DetectedLayout, key: Seq<char>) -> bool {
    exists|j: int| 0 <= j < layout.stable_keys@.len() && #[trigger] layout.stable_keys@[j]@ == key
}

/// A profile fits a layout when it was saved for the same layout and
/// includes at least one monitor, every one of which is present.
pub open spec fn fits(p: SavedDisplayProfile, layout: DetectedLayout) -> bool {
    &&& p.fingerprint.0@ == layout.fingerprint.0@
    &&& p.included_stable_keys@.len() > 0
    &&& forall|i: int| 0 <= i < p.included_stable_keys@.len() ==> has_key(layout, #[trigger] p.included_stable_keys@[i]@)
}

impl SavedDisplayProfile {
    /// Whether this profile fits the detected layout.
    pub fn validates(&self, layout: &DetectedLayout) -> (r: bool)
        ensures
            r == fits(*self, *layout),
    {
        if !str_eq(self.fingerprint.0.as_str(), layout.fingerprint.0.as_str()) {
            return false;
        }
        if self.included_stable_keys.len() == 0 {
            return false;
        }
        let mut i: usize = 0;
        while i < self.included_stable_keys.len()
            invariant
                i <= self.included_stable_keys@.len(),
                forall|k: int| 0 <= k < i ==> has_key(*layout, #[trigger] self.included_stable_keys@[k]@),
            decreases self.included_stable_keys@.len() - i,
        {
            let key = self.included_stable_keys[i].as_str();
            let mut found = false;
            let mut j: usize = 0;
            while j < layout.stable_keys.len()
                invariant
                    j <= layout.stable_keys@.len(),
                    found ==> has_key(*layout, key@),
                    !found ==> forall|m: int| 0 <= m < j ==> #[trigger] layout.stable_keys@[m]@ != key@,
                decreases layout.stable_keys@.len() - j,
            {
                if str_eq(layout.stable_keys[j].as_str(), key) {
                    found = true;
                }
                j = j + 1;
            }
            if !found {
                return false;
            }
            i = i + 1;
        }
        true
    }
}

} // verus!

use vstd::prelude::*;

use crate::export::model::{ExportScale, InformationPanels};

verus! {

/// The height in pixels of the information strip at full scale.
pub const PANEL_HEIGHT: u32 = 96;

/// The height of the information strip at a scale: the full height scaled and
/// rounded (96, 72, 48 or 24 pixels), or zero when no panel is on.
pub fn panel_height(p: &InformationPanels, scale: ExportScale) -> (h: u32)
    ensures
        !p.enabled_spec() ==> h == 0,
        p.application_legend || p.session_times || p.recording_duration || p.total_distance || p.dwell_count
            ==> h > 0,
        p.enabled_spec() ==> h == match scale {
            ExportScale::Full => 96u32,
            ExportScale::SeventyFive => 72u32,
            ExportScale::Fifty => 48u32,
            ExportScale::TwentyFive => 24u32,
        },
{
    proof {
        crate::export::model::lemma_strip_panels_enable_the_strip(*p);
    }
    if p.enabled() {
        match scale {
            ExportScale::Full => PANEL_HEIGHT,
            ExportScale::SeventyFive => PANEL_HEIGHT * 3 / 4,
            ExportScale::Fifty => PANEL_HEIGHT / 2,
            ExportScale::TwentyFive => PANEL_HEIGHT / 4,
        }
    } else {
        0
    }
}

} // verus!

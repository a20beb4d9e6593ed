use vstd::prelude::*;

use crate::settings::model::RgbaColor;

verus! {

/// The canvas background: the logical colour kept for exports, and whether
/// the preview and exports show it as transparent.
#[derive(Debug, Clone, Copy, PartialEq, Eq, Structural)]
pub struct CanvasBackground {
    pub color: RgbaColor,
    pub transparent: bool,
}

impl Default for CanvasBackground {
    fn default() -> (b: Self)
        ensures
            b == (CanvasBackground { color: RgbaColor { r: 24, g: 24, b: 24, a: 255 }, transparent: false }),
    {
        CanvasBackground { color: RgbaColor::new(24, 24, 24, 255), transparent: false }
    }
}

} // verus!

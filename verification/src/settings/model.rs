use vstd::prelude::*;

verus! {

#[derive(Debug, Clone, Copy, PartialEq, Eq, Structural)]
pub struct RgbaColor {
    pub r: u8,
    pub g: u8,
    pub b: u8,
    pub a: u8,
}

impl RgbaColor {
    pub fn new(r: u8, g: u8, b: u8, a: u8) -> (c: Self)
        ensures
            c == (RgbaColor { r, g, b, a }),
    {
        RgbaColor { r, g, b, a }
    }
}

#[derive(Debug, Clone, Copy, PartialEq, Eq, Default, Structural)]
pub enum DwellShapeKind {
    #[default]
    Circle,
    Triangle,
    Square,
}

#[derive(Debug, Clone, Copy, PartialEq, Eq, Default, Structural)]
pub enum DwellRenderMode {
    Fill,
    Outline,
    #[default]
    FillAndOutline,
}

} // verus!

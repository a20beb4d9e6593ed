use vstd::prelude::*;

verus! {

/// The index of a tile in the sparse tile grid; negative indices lie left of
/// or above the desktop origin.
#[derive(Debug, Clone, Copy, PartialEq, Eq, Hash, Structural)]
pub struct TileCoordinate {
    pub x: i32,
    pub y: i32,
}

/// A pixel's position inside its tile.
#[derive(Debug, Clone, Copy, PartialEq, Eq, Structural)]
pub struct TileLocalPixel {
    pub x: u16,
    pub y: u16,
}

} // verus!

use vstd::prelude::*;

verus! {

/// Identifies a display layout (which displays, where, in which mode)
/// independently of enumeration order.
#[derive(Debug, Clone, PartialEq, Eq, Hash, Default)]
pub struct DisplayLayoutFingerprint(pub String);

/// Identifies a topology by its monitors' ids, rectangles and primary flags.
#[derive(Debug, Clone, PartialEq, Eq)]
pub struct TopologySignature(pub String);

} // verus!

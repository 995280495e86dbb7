use vstd::prelude::*;
use crate::helpers::transform::Point;

verus! {

/// Marks a piece that may be picked up.  A placed piece loses the mark for
/// good.
#[derive(Clone, Copy, Debug, PartialEq, Eq, Structural)]
pub struct Draggable;

/// Present on a piece exactly while the pointer holds it.
#[derive(Clone, Copy, Debug, PartialEq, Eq, Structural)]
pub struct IsDragging {
    /// Position of the piece at the moment it was picked up.
    pub start_location: Point,
}

} // verus!

use vstd::prelude::*;
use crate::systems::domino_grid::components::PlacementArea;

verus! {

/// Handle of a piece: its index in the piece arena.  It stays valid until
/// the session is reset.
#[derive(Clone, Copy, Debug, PartialEq, Eq, Structural)]
pub struct PieceId(pub usize);

/// Sent when the pointer lets go of a piece, wherever that happens: inside
/// a placement area or outside of all of them.
#[derive(Clone, Copy, Debug, PartialEq, Eq, Structural)]
pub struct DragEndEvent {
    pub draggable: PieceId,
}

/// Sent when a piece has snapped into a placement area.  It carries the
/// orientation and the coordinates of that area.
#[derive(Clone, Copy, Debug, PartialEq, Eq, Structural)]
pub enum DominoPlacementEvent {
    Horizontal { left_cell_col: i32, row: i32 },
    Vertical { bottom_cell_row: i32, column: i32 },
}

impl DominoPlacementEvent {
    /// The placement area that the piece snapped into.
    pub open spec fn area(&self) -> PlacementArea {
        match *self {
            DominoPlacementEvent::Horizontal { left_cell_col, row } => PlacementArea::Horizontal {
                left_cell_col,
                row,
            },
            DominoPlacementEvent::Vertical { bottom_cell_row, column } => PlacementArea::Vertical {
                bottom_cell_row,
                column,
            },
        }
    }
}

} // verus!

//! Grid placement engine of a domino puzzle.
//!
//! Draggable domino pieces are picked up, rotated and dropped onto a lattice
//! of placement slots.  A piece that lands inside a slot of its own
//! orientation snaps to the slot's anchor; every slot that would share a
//! cell with the placed piece is then removed.  All positions are integers
//! in world units, one grid cell being `TILE_SIZE` units wide.
pub mod helpers;
pub mod state;
pub mod systems;

use vstd::prelude::*;
use crate::helpers::transform::Point;

verus! {

/// The last known position of the cursor in the world plane.
#[derive(Clone, Copy, Debug, PartialEq, Eq, Structural)]
pub struct CursorWorldCoords(pub Point);

impl Default for CursorWorldCoords {
    fn default() -> (coords: CursorWorldCoords)
        ensures
            coords.0 == (Point { x: 0, y: 0 }),
    {
        CursorWorldCoords(Point { x: 0, y: 0 })
    }
}

/// Records where the cursor is.  `cursor` is the cursor's position in the
/// world plane, or `None` while the cursor is outside the window or cannot
/// be projected into the world; the last known position is then kept.
pub fn update_cursor_world_pos(mycoords: &mut CursorWorldCoords, cursor: Option<Point>)
    ensures
        final(mycoords).0 == match cursor {
            Some(world_coords) => world_coords,
            None => old(mycoords).0,
        },
{
    if let Some(world_coords) = cursor {
        mycoords.0 = world_coords;
    }
}

} // verus!

use vstd::prelude::*;

verus! {

/// Edge length of one grid cell, in world units.
pub const TILE_SIZE: i64 = 32;

/// A point of the world plane, in world units, with the y axis pointing up.
#[derive(Clone, Copy, Debug, PartialEq, Eq, Structural)]
pub struct Point {
    pub x: i64,
    pub y: i64,
}

/// Rotation of a piece about the z axis, counted in quarter turns
/// counter-clockwise.
#[derive(Clone, Copy, Debug, PartialEq, Eq, Structural)]
pub enum Rotation {
    Deg0,
    Deg90,
    Deg180,
    Deg270,
}

impl Rotation {
    /// Number of quarter turns, in `0..4`.
    pub open spec fn quarter_turns(self) -> int {
        match self {
            Rotation::Deg0 => 0,
            Rotation::Deg90 => 1,
            Rotation::Deg180 => 2,
            Rotation::Deg270 => 3,
        }
    }

    /// The rotation one quarter turn further counter-clockwise.
    pub open spec fn turned(self) -> Rotation {
        match self {
            Rotation::Deg0 => Rotation::Deg90,
            Rotation::Deg90 => Rotation::Deg180,
            Rotation::Deg180 => Rotation::Deg270,
            Rotation::Deg270 => Rotation::Deg0,
        }
    }

    /// The rotation one quarter turn further counter-clockwise: four of
    /// them make a full turn.
    pub fn quarter_turn(self) -> (next: Rotation)
        ensures
            next == self.turned(),
            next.quarter_turns() == (self.quarter_turns() + 1) % 4,
    {
        match self {
            Rotation::Deg0 => Rotation::Deg90,
            Rotation::Deg90 => Rotation::Deg180,
            Rotation::Deg180 => Rotation::Deg270,
            Rotation::Deg270 => Rotation::Deg0,
        }
    }
}

/// Where an entity is drawn: a position in the world plane, a draw-order
/// layer `z`, and a rotation.
#[derive(Clone, Copy, Debug, PartialEq, Eq, Structural)]
pub struct Transform {
    pub x: i64,
    pub y: i64,
    /// Draw-order layer; higher layers are drawn over lower ones.  It takes
    /// no part in any spatial test.
    pub z: i64,
    pub rotation: Rotation,
}

impl Transform {
    /// The position in the world plane, without the layer.
    pub open spec fn position(&self) -> Point {
        Point { x: self.x, y: self.y }
    }

    /// The position in the world plane, without the layer.
    pub fn truncate(&self) -> (p: Point)
        ensures
            p == self.position(),
    {
        Point { x: self.x, y: self.y }
    }
}

/// The unrotated transform of tile coordinates `(x, y)` on layer `z`.
pub open spec fn tile_to_world(x: int, y: int, z: int) -> (int, int, int) {
    (TILE_SIZE * x, TILE_SIZE * y, z)
}

/// Maps tile coordinates to world units: `x` and `y` are scaled by
/// `TILE_SIZE`, the layer `z` is passed through as it is.
pub fn world_to_transform(x: i32, y: i32, z: i64) -> (t: Transform)
    ensures
        (t.x as int, t.y as int, t.z as int) == tile_to_world(x as int, y as int, z as int),
        t.rotation == Rotation::Deg0,
{
    Transform { x: TILE_SIZE * (x as i64), y: TILE_SIZE * (y as i64), z, rotation: Rotation::Deg0 }
}

} // verus!

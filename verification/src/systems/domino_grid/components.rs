use vstd::prelude::*;
use crate::helpers::dragging::{Draggable, IsDragging};
use crate::helpers::transform::{Point, Rotation, Transform, TILE_SIZE};
use crate::systems::assets::Sprite;

verus! {

/// Half the edge length of a placement area's hit box, in world units.
pub const HALF_TILE: i64 = 16;

/// Draw-order layer of the pieces and of the placement anchors.
pub const PIECE_LAYER: i64 = 1;

/// One of the four colours a domino half can have.
#[derive(Clone, Copy, Debug, PartialEq, Eq, Structural)]
pub enum DominoColor {
    Blue,
    Red,
    Green,
    Yellow,
}

/// The identity of a piece: the variant names the base colour, its field
/// the secondary colour.
#[derive(Clone, Copy, Debug, PartialEq, Eq, Structural)]
pub enum DominoType {
    Blue(DominoColor),
    Red(DominoColor),
    Green(DominoColor),
    Yellow(DominoColor),
}

impl DominoType {
    /// The base colour.
    pub open spec fn base(self) -> DominoColor {
        match self {
            DominoType::Blue(_) => DominoColor::Blue,
            DominoType::Red(_) => DominoColor::Red,
            DominoType::Green(_) => DominoColor::Green,
            DominoType::Yellow(_) => DominoColor::Yellow,
        }
    }

    /// The secondary colour.
    pub open spec fn secondary(self) -> DominoColor {
        match self {
            DominoType::Blue(c) => c,
            DominoType::Red(c) => c,
            DominoType::Green(c) => c,
            DominoType::Yellow(c) => c,
        }
    }

    /// The sixteen piece variants, in the order in which a session spawns
    /// them.
    pub open spec fn all_types_spec() -> Seq<DominoType> {
        seq![
            DominoType::Blue(DominoColor::Blue),
            DominoType::Blue(DominoColor::Green),
            DominoType::Blue(DominoColor::Yellow),
            DominoType::Blue(DominoColor::Red),
            DominoType::Green(DominoColor::Green),
            DominoType::Green(DominoColor::Blue),
            DominoType::Green(DominoColor::Yellow),
            DominoType::Green(DominoColor::Red),
            DominoType::Red(DominoColor::Red),
            DominoType::Red(DominoColor::Blue),
            DominoType::Red(DominoColor::Green),
            DominoType::Red(DominoColor::Yellow),
            DominoType::Yellow(DominoColor::Yellow),
            DominoType::Yellow(DominoColor::Blue),
            DominoType::Yellow(DominoColor::Green),
            DominoType::Yellow(DominoColor::Red),
        ]
    }

    /// The sixteen piece variants, in spawn order.
    pub fn all_types() -> (types: Vec<DominoType>)
        ensures
            types@ == Self::all_types_spec(),
    {
        let types: Vec<DominoType> = vec![
            DominoType::Blue(DominoColor::Blue),
            DominoType::Blue(DominoColor::Green),
            DominoType::Blue(DominoColor::Yellow),
            DominoType::Blue(DominoColor::Red),
            DominoType::Green(DominoColor::Green),
            DominoType::Green(DominoColor::Blue),
            DominoType::Green(DominoColor::Yellow),
            DominoType::Green(DominoColor::Red),
            DominoType::Red(DominoColor::Red),
            DominoType::Red(DominoColor::Blue),
            DominoType::Red(DominoColor::Green),
            DominoType::Red(DominoColor::Yellow),
            DominoType::Yellow(DominoColor::Yellow),
            DominoType::Yellow(DominoColor::Blue),
            DominoType::Yellow(DominoColor::Green),
            DominoType::Yellow(DominoColor::Red),
        ];
        assert(types@ =~= Self::all_types_spec());
        types
    }

    /// Every pairing of a base colour with a secondary colour is one of the
    /// sixteen variants, and no variant is listed twice.
    pub proof fn lemma_all_types_complete(kind: DominoType)
        ensures
            Self::all_types_spec().len() == 16,
            exists|i: int| 0 <= i < 16 && Self::all_types_spec()[i] == kind,
            forall|i: int, j: int|
                0 <= i < j < 16 ==> Self::all_types_spec()[i] != Self::all_types_spec()[j],
    {
        let all = Self::all_types_spec();
        let b: int = match kind.base() {
            DominoColor::Blue => 0,
            DominoColor::Green => 4,
            DominoColor::Red => 8,
            DominoColor::Yellow => 12,
        };
        assert(all[b] == kind || all[b + 1] == kind || all[b + 2] == kind || all[b + 3] == kind);
    }
}

/// A domino piece: its fixed identity and its current orientation.
#[derive(Clone, Copy, Debug, PartialEq, Eq, Structural)]
pub struct Domino {
    pub d_type: DominoType,
    pub horizontal: bool,
}

/// Where a piece stands in its drag lifecycle.
#[derive(Clone, Copy, Debug, PartialEq, Eq, Structural)]
pub enum DragPhase {
    /// The piece may be picked up and is not held.
    Idle,
    /// The pointer holds the piece.
    Dragging,
    /// The piece has snapped into a placement area and stays there.
    Placed,
}

/// One record of the piece arena: a domino with everything that is
/// attached to it.
#[derive(Clone, Copy, Debug, PartialEq, Eq, Structural)]
pub struct Piece {
    pub domino: Domino,
    pub transform: Transform,
    /// Present until the piece is placed.
    pub draggable: Option<Draggable>,
    /// Present while the pointer holds the piece.
    pub dragging: Option<IsDragging>,
    /// Absent until the sprite has been resolved.
    pub sprite: Option<Sprite>,
    /// Whether pointer events are routed to this piece.
    pub observed: bool,
}

impl Piece {
    /// A piece is only ever held while it may be dragged.
    pub open spec fn well_formed(&self) -> bool {
        self.dragging is Some ==> self.draggable is Some
    }

    /// The state of the drag lifecycle that the piece is in.
    pub open spec fn phase(&self) -> DragPhase {
        if self.draggable is None {
            DragPhase::Placed
        } else if self.dragging is Some {
            DragPhase::Dragging
        } else {
            DragPhase::Idle
        }
    }
}

/// One cell of the visible backdrop.  It takes no part in placement.
#[derive(Clone, Copy, Debug, PartialEq, Eq, Structural)]
pub struct GridSquare {
    pub transform: Transform,
    /// Absent until the sprite has been resolved.
    pub sprite: Option<Sprite>,
}

/// A candidate slot of the grid that a piece may snap into.  A horizontal
/// area spans the cells `(left_cell_col, row)` and `(left_cell_col + 1, row)`;
/// a vertical area spans `(column, bottom_cell_row)` and
/// `(column, bottom_cell_row + 1)`.
#[derive(Clone, Copy, Debug, PartialEq, Eq, Structural)]
pub enum PlacementArea {
    Horizontal { left_cell_col: i32, row: i32 },
    Vertical { bottom_cell_row: i32, column: i32 },
}

impl PlacementArea {
    /// Whether this is a slot for horizontal pieces.
    pub open spec fn is_horizontal(&self) -> bool {
        self is Horizontal
    }

    /// The anchor of the slot: the midpoint between the centres of its two
    /// cells, as `(x, y)` in world units.
    pub open spec fn anchor(&self) -> (int, int) {
        match *self {
            PlacementArea::Horizontal { left_cell_col, row } => (
                HALF_TILE + TILE_SIZE * left_cell_col,
                TILE_SIZE * row,
            ),
            PlacementArea::Vertical { bottom_cell_row, column } => (
                TILE_SIZE * column,
                HALF_TILE + TILE_SIZE * bottom_cell_row,
            ),
        }
    }

    /// Whether `point` lies strictly inside the hit box, a square of
    /// `TILE_SIZE` by `TILE_SIZE` units centred on the anchor.  A point on
    /// the border is outside.
    pub open spec fn contains(&self, point: Point) -> bool {
        let (cx, cy) = self.anchor();
        &&& cx - HALF_TILE < point.x < cx + HALF_TILE
        &&& cy - HALF_TILE < point.y < cy + HALF_TILE
    }

    /// Whether a piece of the given orientation, dropped at `point`, may
    /// snap into this slot.
    pub open spec fn accepts(&self, horizontal: bool, point: Point) -> bool {
        self.is_horizontal() == horizontal && self.contains(point)
    }

    /// The left or bottom cell of the slot, as `(column, row)`.
    pub open spec fn first_cell(&self) -> (int, int) {
        match *self {
            PlacementArea::Horizontal { left_cell_col, row } => (left_cell_col as int, row as int),
            PlacementArea::Vertical { bottom_cell_row, column } => (
                column as int,
                bottom_cell_row as int,
            ),
        }
    }

    /// The right or top cell of the slot, as `(column, row)`.
    pub open spec fn second_cell(&self) -> (int, int) {
        match *self {
            PlacementArea::Horizontal { left_cell_col, row } => (left_cell_col + 1, row as int),
            PlacementArea::Vertical { bottom_cell_row, column } => (
                column as int,
                bottom_cell_row + 1,
            ),
        }
    }

    /// Whether `cell`, given as `(column, row)`, is one of the two cells of
    /// the slot.
    pub open spec fn occupies(&self, cell: (int, int)) -> bool {
        cell == self.first_cell() || cell == self.second_cell()
    }

    /// Whether the two slots share a cell.
    pub open spec fn overlaps(&self, other: PlacementArea) -> bool {
        other.occupies(self.first_cell()) || other.occupies(self.second_cell())
    }

    /// The centre of a grid cell, given as `(column, row)`, in world units.
    pub open spec fn cell_center(cell: (int, int)) -> (int, int) {
        (TILE_SIZE * cell.0, TILE_SIZE * cell.1)
    }

    fn anchor_point(&self) -> (center: Point)
        ensures
            (center.x as int, center.y as int) == self.anchor(),
    {
        match *self {
            PlacementArea::Horizontal { left_cell_col, row } => Point {
                x: HALF_TILE + TILE_SIZE * (left_cell_col as i64),
                y: TILE_SIZE * (row as i64),
            },
            PlacementArea::Vertical { bottom_cell_row, column } => Point {
                x: TILE_SIZE * (column as i64),
                y: HALF_TILE + TILE_SIZE * (bottom_cell_row as i64),
            },
        }
    }

    /// Hit test: whether `point` lies strictly inside the slot's hit box.
    pub fn is_this_point_within(&self, point: Point) -> (within: bool)
        ensures
            within == self.contains(point),
    {
        let center: Point = self.anchor_point();
        let x_within_bb: bool = point.x < center.x + HALF_TILE && point.x > center.x - HALF_TILE;
        let y_within_bb: bool = point.y < center.y + HALF_TILE && point.y > center.y - HALF_TILE;
        x_within_bb && y_within_bb
    }

    /// The transform a piece snaps to: the anchor on the piece layer,
    /// unrotated.
    pub fn transform(&self) -> (t: Transform)
        ensures
            (t.x as int, t.y as int) == self.anchor(),
            t.z == PIECE_LAYER,
            t.rotation == Rotation::Deg0,
    {
        let center: Point = self.anchor_point();
        Transform { x: center.x, y: center.y, z: PIECE_LAYER, rotation: Rotation::Deg0 }
    }

    /// Two slots of one orientation never both contain a point: their hit
    /// boxes tile the plane without overlap.
    pub proof fn lemma_hit_boxes_disjoint(a: PlacementArea, b: PlacementArea, point: Point)
        requires
            a.is_horizontal() == b.is_horizontal(),
            a.contains(point),
            b.contains(point),
        ensures
            a == b,
    {
    }

    /// The centre of a grid cell lies on the border of every hit box around
    /// it, so no slot contains it.
    pub proof fn lemma_cell_center_outside(area: PlacementArea, cell: (int, int), point: Point)
        requires
            (point.x as int, point.y as int) == Self::cell_center(cell),
        ensures
            !area.contains(point),
    {
    }
}

} // verus!
